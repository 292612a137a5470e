use deck::command::{commands, completions, tryHandle, CommandAction, CommandOutput};

fn shown(o: &Option<CommandOutput>) -> String {
    match o {
        Some(CommandOutput::Action(a)) => format!("Action({a:?})"),
        Some(CommandOutput::Inline(s)) => format!("Inline({s})"),
        None => "None".to_string(),
    }
}

#[test]
fn tasksCommandAndJobsAliasReturnSameAction() {
    for input in ["/tasks", "/jobs"] {
        match tryHandle(input) {
            Some(CommandOutput::Action(CommandAction::Tasks)) => {}
            other => panic!("expected CommandAction::Tasks for {input}, got {:?}", shown(&other)),
        }
    }
}

#[test]
fn layoutCommandReturnsShowLayoutAction() {
    match tryHandle("/layout") {
        Some(CommandOutput::Action(CommandAction::ShowLayout)) => {}
        other => panic!("expected CommandAction::ShowLayout, got {:?}", shown(&other)),
    }
}

#[test]
fn logsCommandAndAliasReturnLogsAction() {
    for input in ["/logs", "/log"] {
        match tryHandle(input) {
            Some(CommandOutput::Action(CommandAction::Logs)) => {}
            other => panic!("expected CommandAction::Logs for {input}, got {:?}", shown(&other)),
        }
    }
}

#[test]
fn modelCommandAndAliasReturnModelAction() {
    for input in ["/model", "/models"] {
        match tryHandle(input) {
            Some(CommandOutput::Action(CommandAction::Model)) => {}
            other => panic!("expected CommandAction::Model for {input}, got {:?}", shown(&other)),
        }
    }
}

#[test]
fn tasksAppearsInCompletions() {
    let matches = completions("ta");
    assert!(
        matches.iter().any(|c| c.name == "tasks"),
        "completions for `ta` should include /tasks",
    );
    let matches = completions("jo");
    assert!(
        matches.iter().any(|c| c.name == "tasks"),
        "completions for `jo` should match the /jobs alias and surface /tasks",
    );
}

#[test]
fn ordinaryTextIsNoCommand() {
    assert!(tryHandle("hello /tasks").is_none());
    assert!(tryHandle("").is_none());
    assert!(tryHandle("   ").is_none());
}

#[test]
fn unknownCommandsAreAnsweredInline() {
    match tryHandle("/nonsense at all") {
        Some(CommandOutput::Inline(s)) => {
            assert_eq!(s, "Unknown command: /nonsense. Type /help for available commands.");
        }
        other => panic!("expected an inline answer, got {}", shown(&other)),
    }
}

#[test]
fn commandsTakeTheirArguments() {
    match tryHandle("  /rewind  turn-7 ") {
        Some(CommandOutput::Action(CommandAction::Rewind { target })) => {
            assert_eq!(target, "turn-7");
        }
        other => panic!("expected a rewind, got {}", shown(&other)),
    }
    match tryHandle("/resume") {
        Some(CommandOutput::Action(CommandAction::Resume { sessionId: None })) => {}
        other => panic!("expected a resume without a session, got {}", shown(&other)),
    }
    match tryHandle("/resume abc") {
        Some(CommandOutput::Action(CommandAction::Resume { sessionId: Some(id) })) => {
            assert_eq!(id, "abc");
        }
        other => panic!("expected a resume of a session, got {}", shown(&other)),
    }
}

#[test]
fn everyCommandCompletesItself() {
    for c in commands() {
        assert!(completions(c.name).iter().any(|d| d.name == c.name), "{}", c.name);
    }
}
