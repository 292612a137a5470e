use deck::agent_panel::entry::PanelEntry;
use deck::agent_panel::state::AgentPanel;
use deck::app::models::{buildModelStatus, ModelProfile, ModelScope, UsedProfiles};
use deck::app::replay::{
    argsBrief, childToolLines, replayTranscript, subagentReply, wakeNoticeFromContent, ChildSession,
    ChildTurn,
};
use deck::app::request::{
    ackUpdate, dispatchSlashCommand, openStatusChipPanel, outputOpened, planeOf, Plane, Reply,
    Request,
};
use deck::app::session::{
    isUnknown, killTaskAck, killTerminalAck, nextActs, permissionsAck, settingsAck, startupError,
    SessionAct, SessionEvent, SettingsChange, SettingsOutcome, Work,
};
use deck::app::status_bar::StatusChipKind;
use deck::app::updates::{CommandAck, DeckUpdate};
use deck::command::CommandAction;
use deck::history::History;
use deck::transcript::{Turn, TurnRole, TurnStatus};

fn turn(role: TurnRole, content: &str) -> Turn {
    Turn {
        id: "t".to_string(),
        blockId: "b".to_string(),
        role,
        content: content.to_string(),
        tool: None,
        args: None,
        toolCallId: None,
        reasoning: None,
        attachments: 0,
        snapshotHash: None,
        status: TurnStatus::Completed,
    }
}

fn call(tool: &str, args: &str, id: &str) -> Turn {
    Turn {
        tool: Some(tool.to_string()),
        args: Some(args.to_string()),
        toolCallId: Some(id.to_string()),
        ..turn(TurnRole::ToolCall, "")
    }
}

fn result(tool: &str, id: &str, content: &str) -> Turn {
    Turn {
        tool: Some(tool.to_string()),
        toolCallId: Some(id.to_string()),
        ..turn(TurnRole::ToolResult, content)
    }
}

fn replay(turns: Vec<Turn>, kids: Vec<ChildSession>) -> Vec<PanelEntry> {
    let mut panel = AgentPanel::new(History::new(vec![]), 0);
    replayTranscript(&mut panel, &turns, &kids);
    panel.entries
}

// ---- replay ----

#[test]
fn wakeNoticesNameTheFirstSource() {
    assert_eq!(
        wakeNoticeFromContent("<wakes count=\"3\"><wake source=\"cron#1\">"),
        "\u{2299} 3 wakes (first: cron#1)"
    );
    assert_eq!(
        wakeNoticeFromContent("<wake count=\"1\" source=\"delay#2\">"),
        "\u{2299} wake \u{00B7} delay#2"
    );
    assert_eq!(wakeNoticeFromContent("count=\"2\""), "\u{2299} 2 wakes");
    assert_eq!(wakeNoticeFromContent("nothing"), "\u{2299} wake");
    assert_eq!(wakeNoticeFromContent("count=\"99999999999999999999999\""), "\u{2299} wake");
}

#[test]
fn longArgumentsAreCut() {
    assert_eq!(argsBrief(&None), "");
    assert_eq!(argsBrief(&Some("x".repeat(80))), "x".repeat(80));
    assert_eq!(argsBrief(&Some("x".repeat(81))), format!("{}\u{2026}", "x".repeat(79)));
}

#[test]
fn repliesNameTheirSession() {
    assert_eq!(
        subagentReply("[subagent session: abc]\n\nDone."),
        (Some("abc".to_string()), "Done.".to_string())
    );
    assert_eq!(subagentReply("plain"), (None, "plain".to_string()));
    assert_eq!(
        subagentReply("[subagent session: abc"),
        (None, "[subagent session: abc".to_string())
    );
}

#[test]
fn callsShowTheirCompactArguments() {
    let e = replay(vec![call("read", "{ \"path\": \"x\" }", "c1")], vec![]);
    assert!(matches!(
        &e[0],
        PanelEntry::ToolApproved { name } if name == "read: {\"path\":\"x\"}"
    ));
}

#[test]
fn tasksAreShownAsBlocks() {
    let kids = vec![ChildSession {
        sessionId: "abc".to_string(),
        turns: vec![
            ChildTurn {
                role: TurnRole::Assistant,
                tool: None,
                summary: None,
                content: "I look".to_string(),
            },
            ChildTurn {
                role: TurnRole::ToolCall,
                tool: Some("grep".to_string()),
                summary: None,
                content: String::new(),
            },
            ChildTurn {
                role: TurnRole::ToolResult,
                tool: Some("grep".to_string()),
                summary: None,
                content: "found".to_string(),
            },
        ],
    }];
    let e = replay(
        vec![
            call("task", "{\"agent\":\"explore\",\"prompt\":\"look around\"}", "c1"),
            call("task", "{\"prompt\": 3}", "c2"),
            result("task", "c1", "[subagent session: abc]\n\nFound it."),
            result("task", "c3", "stray"),
        ],
        kids,
    );
    assert_eq!(e.len(), 3);
    match &e[0] {
        PanelEntry::SubagentBlock { agentType, prompt, toolLines, turns, content, sessionId, .. } => {
            assert_eq!(agentType, "explore");
            assert_eq!(prompt, "look around");
            assert_eq!(
                toolLines,
                &vec![
                    ("grep".to_string(), "grep (parse error)".to_string()),
                    ("grep".to_string(), "found".to_string()),
                ]
            );
            assert_eq!(*turns, 1);
            assert_eq!(content.as_deref(), Some("Found it."));
            assert_eq!(sessionId.as_deref(), Some("abc"));
        }
        other => panic!("expected a block, got {other:?}"),
    }
    match &e[1] {
        PanelEntry::SubagentBlock { agentType, prompt, content, .. } => {
            assert_eq!(agentType, "general");
            assert_eq!(prompt, "");
            assert!(content.is_none());
        }
        other => panic!("expected a block, got {other:?}"),
    }
    assert!(matches!(&e[2], PanelEntry::ToolResult { output, .. } if output == "stray"));
}

#[test]
fn replayOnlyAdds() {
    let mut said = turn(TurnRole::Assistant, "answer");
    said.reasoning = Some("thought".to_string());
    let mut sent = turn(TurnRole::User, "look");
    sent.attachments = 2;
    let e = replay(vec![sent, said, turn(TurnRole::System, "x")], vec![]);
    assert_eq!(e.len(), 3);
    assert!(matches!(&e[0], PanelEntry::User(t) if t == "look\n[+2 images attached]"));
    assert!(matches!(&e[1], PanelEntry::Reasoning { text, expanded: false } if text == "thought"));
    assert!(matches!(&e[2], PanelEntry::Assistant(t) if t == "answer"));
}

#[test]
fn childrenWithoutToolsLeaveNoLines() {
    let (lines, turns) = childToolLines(&vec![]);
    assert!(lines.is_empty());
    assert_eq!(turns, 0);
}

// ---- requests ----

#[test]
fn tasksOpenAlike() {
    let chip = openStatusChipPanel(StatusChipKind::Jobs);
    let command = dispatchSlashCommand(CommandAction::Tasks);
    let shown = |v: &Vec<deck::app::request::Ask>| {
        v.iter().map(|a| format!("{:?} {:?}", a.request, a.reply)).collect::<Vec<_>>()
    };
    assert_eq!(shown(&chip), shown(&command));
    for a in &chip {
        assert_eq!(planeOf(&a.request), Plane::Tasks);
    }
}

#[test]
fn rewindingByCommandKeepsNoFork() {
    let v = dispatchSlashCommand(CommandAction::Rewind { target: "t7".to_string() });
    assert!(matches!(
        &v[0].request,
        Request::Rewind { target, saveFork: false } if target == "t7"
    ));
    let v = dispatchSlashCommand(CommandAction::Rewind { target: String::new() });
    assert!(matches!(&v[0].request, Request::GetRewindOptions));
}

#[test]
fn requestsGoToTheirPlane() {
    assert_eq!(planeOf(&Request::KillTerminal { name: "main".to_string() }), Plane::Terminals);
    assert_eq!(planeOf(&Request::Clear), Plane::Session);
    assert_eq!(planeOf(&Request::KillTask { id: 1 }), Plane::Tasks);
}

#[test]
fn answersBecomeUpdates() {
    let ack = || CommandAck { ok: true, message: "done".to_string() };
    assert!(matches!(ackUpdate(Reply::Ack, ack()), Some(DeckUpdate::CommandAck(a)) if a.ok));
    assert!(matches!(ackUpdate(Reply::Resumed, ack()), Some(DeckUpdate::ResumeResult(_))));
    assert!(ackUpdate(Reply::SilentAck, ack()).is_none());
    assert!(outputOpened(3, None).is_none());
}

// ---- the session ----

fn answered(acts: &[SessionAct]) -> usize {
    acts.iter().filter(|a| matches!(a, SessionAct::Answer(_))).count()
}

#[test]
fn wakesAreDisarmedFirst() {
    for e in [SessionEvent::ResumeAsked, SessionEvent::ClearAsked] {
        assert!(matches!(nextActs(e)[0], SessionAct::DisarmWakes));
    }
}

#[test]
fn wakesIgnoreAnOldCancel() {
    let acts = nextActs(SessionEvent::WakesWait);
    assert!(matches!(acts[0], SessionAct::ResetCancel));
    assert!(matches!(acts[2], SessionAct::Run(Work::Wake)));
    assert!(!matches!(nextActs(SessionEvent::UserWrote)[0], SessionAct::ResetCancel));
}

#[test]
fn switchingIsAnsweredOnce() {
    let s = || "x".to_string();
    for e in [
        SessionEvent::Resumed { id: s(), topic: s() },
        SessionEvent::Resumed { id: s(), topic: String::new() },
        SessionEvent::ResumeFailed { id: s(), error: s() },
        SessionEvent::Fresh,
        SessionEvent::ClearFailed { error: s() },
    ] {
        assert_eq!(answered(&nextActs(e)), 1);
    }
    for e in [SessionEvent::ResumeAsked, SessionEvent::ClearAsked, SessionEvent::Replaced] {
        assert_eq!(answered(&nextActs(e)), 0);
    }
    match &nextActs(SessionEvent::ResumeFailed { id: "a".to_string(), error: "b".to_string() })[0] {
        SessionAct::Answer(a) => {
            assert!(!a.ok);
            assert_eq!(a.message, "Failed to resume a: b");
        }
        other => panic!("expected an answer, got {other:?}"),
    }
}

#[test]
fn killsAreAcknowledged() {
    assert_eq!(killTaskAck(7, Ok(())).message, "Killing task #7.");
    let failed = killTaskAck(7, Err("no such task".to_string()));
    assert!(!failed.ok);
    assert_eq!(failed.message, "no such task");
    assert_eq!(killTerminalAck("main", Ok(())).message, "Killed terminal 'main'.");
    assert!(!killTerminalAck("main", Err("busy".to_string())).ok);
}

#[test]
fn settingsSayHowTheyWent() {
    let p = || "fast".to_string();
    let select = SettingsChange::Selection { scope: p(), tier: p(), profile: p() };
    assert!(isUnknown(&select, &vec!["slow".to_string()]));
    assert!(!isUnknown(&select, &vec![p()]));
    assert!(!isUnknown(&SettingsChange::Create { scope: p(), profile: p(), sourceProfile: p() }, &vec![]));
    assert_eq!(
        settingsAck(&select, SettingsOutcome::UnknownProfile).message,
        "Unknown model profile: fast"
    );
    assert_eq!(
        settingsAck(&SettingsChange::Create { scope: p(), profile: p(), sourceProfile: p() }, SettingsOutcome::Saved { path: "/c".to_string() })
            .message,
        "Created model profile fast at /c."
    );
    assert_eq!(
        settingsAck(&SettingsChange::Delete { scope: p(), profile: p() }, SettingsOutcome::Unread("e".to_string()))
            .message,
        "Deleted, but failed to reload config: e"
    );
    assert_eq!(
        settingsAck(&SettingsChange::Thinking {
                scope: p(),
                profile: p(),
                promptThinking: true,
                reasoningEffort: None,
                reasoningSummary: None,
            }, SettingsOutcome::Unsaved("e".to_string()))
            .message,
        "Failed to save thinking settings: e"
    );
    assert!(!permissionsAck(None).ok);
    assert!(permissionsAck(Some(Ok(()))).ok);
    assert!(permissionsAck(Some(Err("e".to_string()))).message.contains('e'));
    assert!(startupError(true, "bad").contains("bad"));
}

// ---- models ----

#[test]
fn profilesTellWhetherTheyAreConfigured() {
    let profile = |name: &str, provider: &str, key: &str| ModelProfile {
        name: name.to_string(),
        provider: provider.to_string(),
        model: "m".to_string(),
        key: key.to_string(),
        contextWindow: 1000,
        maxContextWindow: None,
        promptThinking: false,
        reasoningEffort: None,
        reasoningSummary: None,
        reasoningEfforts: vec![],
    };
    let s = buildModelStatus(
        UsedProfiles { heavy: "a".to_string(), light: "b".to_string(), utility: "b".to_string() },
        &vec![profile("a", "openai", "k"), profile("b", "openai", "")],
        &vec![ModelScope { label: "user".to_string(), path: None }],
        None,
        "/fallback".to_string(),
        false,
    );
    assert_eq!(s.heavyProfile, "a");
    assert!(s.profiles[0].configured);
    assert!(!s.profiles[1].configured);
    assert_eq!(s.configPath, "/fallback");
}
