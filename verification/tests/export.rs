use deck::export::openai::{
    assembleAssistantTarget, buildExample, reasoningTraces, wireArgs, ExampleMessage,
};
use deck::export::{
    buildSegments, exitCode, exportScope, headTurnId, indexLines, judgeSession, sessionLine,
    sessionStats, ExportArgs, ExportScope, RequestSnapshot, SessionVerdict, SnapshotIndex, Tally,
};
use deck::transcript::{Turn, TurnRole, TurnStatus};

fn dummySnap(sys: &str, tools: &str, msgs: &[&str]) -> RequestSnapshot {
    RequestSnapshot {
        model: "m".to_string(),
        systemPromptHash: Some(sys.to_string()),
        toolsHash: Some(tools.to_string()),
        messages: msgs.iter().map(|s| s.to_string()).collect(),
    }
}

fn asstTurn(id: &str, block: &str, snap: &str) -> Turn {
    Turn {
        id: id.to_string(),
        blockId: block.to_string(),
        role: TurnRole::Assistant,
        content: String::new(),
        tool: None,
        args: None,
        toolCallId: None,
        reasoning: None,
        attachments: 0,
        snapshotHash: Some(snap.to_string()),
        status: TurnStatus::Completed,
    }
}

fn callTurn(id: &str, block: &str, tool: &str, args: &str) -> Turn {
    Turn {
        role: TurnRole::ToolCall,
        tool: Some(tool.to_string()),
        args: Some(args.to_string()),
        toolCallId: Some(format!("call-{id}")),
        snapshotHash: None,
        ..asstTurn(id, block, "")
    }
}

#[test]
fn stablePrefixPacksIntoOneSegment() {
    let mut index = SnapshotIndex::new();
    index.insert("s1".to_string(), dummySnap("sp", "tl", &["u1"]));
    index.insert("s2".to_string(), dummySnap("sp", "tl", &["u1", "a1", "u2"]));
    index.insert("s3".to_string(), dummySnap("sp", "tl", &["u1", "a1", "u2", "a2", "u3"]));

    let branch = vec![
        asstTurn("t1", "b1", "s1"),
        asstTurn("t2", "b2", "s2"),
        asstTurn("t3", "b3", "s3"),
    ];

    let segs = buildSegments(&branch, &index, false);
    assert_eq!(segs.len(), 1);
    assert_eq!(segs[0].anchorIdx, 0);
    assert_eq!(segs[0].lastAsstIdx, 2);
}

#[test]
fn toolsChangeStartsNewSegment() {
    let mut index = SnapshotIndex::new();
    index.insert("s1".to_string(), dummySnap("sp", "tlA", &["u1"]));
    index.insert("s2".to_string(), dummySnap("sp", "tlA", &["u1", "a1", "u2"]));
    index.insert("s3".to_string(), dummySnap("sp", "tlB", &["u1", "a1", "u2", "a2", "u3"]));

    let branch = vec![
        asstTurn("t1", "b1", "s1"),
        asstTurn("t2", "b2", "s2"),
        asstTurn("t3", "b3", "s3"),
    ];

    let segs = buildSegments(&branch, &index, false);
    assert_eq!(segs.len(), 2);
    assert_eq!(segs[0].lastAsstIdx, 1);
    assert_eq!(segs[1].anchorIdx, 2);
}

#[test]
fn systemChangeStartsNewSegment() {
    let mut index = SnapshotIndex::new();
    index.insert("s1".to_string(), dummySnap("spA", "tl", &["u1"]));
    index.insert("s2".to_string(), dummySnap("spB", "tl", &["u1", "a1", "u2"]));

    let branch = vec![asstTurn("t1", "b1", "s1"), asstTurn("t2", "b2", "s2")];

    let segs = buildSegments(&branch, &index, false);
    assert_eq!(segs.len(), 2);
}

#[test]
fn compactionRewriteStartsNewSegment() {
    let mut index = SnapshotIndex::new();
    index.insert("s1".to_string(), dummySnap("sp", "tl", &["u1", "a1", "u2", "a2", "u3"]));
    index.insert("s2".to_string(), dummySnap("sp", "tl", &["summary", "u3", "a3", "u4"]));

    let branch = vec![asstTurn("t1", "b1", "s1"), asstTurn("t2", "b2", "s2")];

    let segs = buildSegments(&branch, &index, false);
    assert_eq!(segs.len(), 2);
}

#[test]
fn cancelledTurnsExcludedByDefault() {
    let mut index = SnapshotIndex::new();
    index.insert("s1".to_string(), dummySnap("sp", "tl", &["u1"]));
    index.insert("s2".to_string(), dummySnap("sp", "tl", &["u1", "a1", "u2"]));

    let mut t2 = asstTurn("t2", "b2", "s2");
    t2.status = TurnStatus::Cancelled;
    let branch = vec![asstTurn("t1", "b1", "s1"), t2];

    let segs = buildSegments(&branch, &index, false);
    assert_eq!(segs.len(), 1);
    assert_eq!(segs[0].lastAsstIdx, 0, "cancelled turn should not extend segment");

    let segs = buildSegments(&branch, &index, true);
    assert_eq!(segs[0].lastAsstIdx, 1, "with --include-cancelled, segment extends");
}

#[test]
fn missingSnapshotIsSkipped() {
    let mut index = SnapshotIndex::new();
    index.insert("s1".to_string(), dummySnap("sp", "tl", &["u1"]));

    let branch = vec![asstTurn("t1", "b1", "s1"), asstTurn("t2", "b2", "s2")];

    let segs = buildSegments(&branch, &index, false);
    assert_eq!(segs.len(), 1);
    assert_eq!(segs[0].lastAsstIdx, 0);
}

#[test]
fn callsOfATurnAreWrittenCompactly() {
    let branch = vec![
        asstTurn("t1", "b1", "s1"),
        callTurn("t2", "b1", "read", "{ \"path\" : [ 1, 2 ],  \"x\": null }"),
        callTurn("t3", "b1", "broken", "{ not json"),
        callTurn("t4", "b2", "other", "{}"),
    ];
    let m = assembleAssistantTarget(&branch, 0);
    let calls = m.toolCalls.expect("two calls follow in the block");
    assert_eq!(calls.len(), 2);
    assert_eq!(calls[0].id, "call-t2");
    assert_eq!(calls[0].name, "read");
    let read: serde_json::Value = serde_json::from_str(&calls[0].arguments).unwrap();
    assert_eq!(calls[0].arguments, serde_json::to_string(&read).unwrap());
    assert!(!calls[0].arguments.contains(' '));
    assert_eq!(calls[1].arguments, "{}");
}

#[test]
fn examplesTakeTheirPartsFromTheSegment() {
    let mut index = SnapshotIndex::new();
    index.insert("s1".to_string(), dummySnap("sp", "tl", &["u1"]));
    index.insert("s2".to_string(), dummySnap("sp", "tl", &["u1", "a1", "u2"]));
    let mut last = asstTurn("t2", "b2", "s2");
    last.content = "done".to_string();
    last.reasoning = Some("because".to_string());
    let branch = vec![asstTurn("t1", "b1", "s1"), last];
    let segs = buildSegments(&branch, &index, false);
    let stored = vec!["{}".to_string(), "{}".to_string(), "{}".to_string()];
    let e = buildExample(
        "session",
        0,
        &segs[0],
        &branch,
        Some("system".to_string()),
        &stored,
        vec![],
        false,
        1,
    )
    .expect("long enough");
    assert_eq!(e.messages.len(), 5);
    assert!(matches!(&e.messages[0], ExampleMessage::System(t) if t == "system"));
    assert!(matches!(&e.messages[3], ExampleMessage::Stored(t) if t == "{}"));
    assert!(matches!(
        &e.messages[4],
        ExampleMessage::Target(m) if m.content == Some("done".to_string())
    ));
    assert_eq!(e.flatline.turnRange, ["t1".to_string(), "t2".to_string()]);
    assert!(e.reasoning.is_some());
    assert!(buildExample(
        "session",
        0,
        &segs[0],
        &branch,
        Some("system".to_string()),
        &stored,
        vec![],
        false,
        50,
    )
    .is_none());
    assert_eq!(
        reasoningTraces(&branch, 0, 1, false),
        Some(vec!["".to_string(), "because".to_string()])
    );
    assert_eq!(reasoningTraces(&branch, 0, 1, true), None);
    assert_eq!(reasoningTraces(&branch, 0, 0, false), None);
}

#[test]
fn aSessionOrAllIsNeeded() {
    let mut args = ExportArgs {
        sessionId: None,
        all: false,
        project: None,
        output: None,
        noReasoning: false,
        minMessages: 2,
        dryRun: true,
        includeCancelled: false,
    };
    assert_eq!(exportScope(&args).unwrap_err(), "provide a sessionId or pass --all");
    args.sessionId = Some("s".to_string());
    assert!(matches!(exportScope(&args), Ok(ExportScope::One(id)) if id == "s"));
    args.all = true;
    assert!(matches!(exportScope(&args), Ok(ExportScope::All)));
}

#[test]
fn anEmptyExportFails() {
    assert_eq!(exitCode(0), 2);
    assert_eq!(exitCode(3), 0);
}

#[test]
fn sessionsAreCountedByWhatBecameOfThem() {
    let mut t = Tally::zero();
    t.count(SessionVerdict::Export, false);
    t.count(SessionVerdict::Export, true);
    t.count(SessionVerdict::NoSnapshots, false);
    t.count(SessionVerdict::Filtered, false);
    t.count(SessionVerdict::Unreadable, false);
    assert_eq!(
        t.summary(),
        "sessions processed: 2 | no-snapshots skipped: 1 | project-filtered: 1 | failed: 1"
    );
}

#[test]
fn aSessionIsSummedUpInALine() {
    let branch = vec![asstTurn("t1", "b1", "s1"), callTurn("t2", "b1", "x", "{}")];
    let stats = sessionStats(&branch, 1, 0);
    assert_eq!(
        sessionLine("abc", stats),
        "abc: 1 asst turns \u{2192} 1 examples (0 skipped)"
    );
}

#[test]
fn theHeadIsTheRecordedTurnOrTheLast() {
    let branch = vec![asstTurn("t1", "b1", "s1"), asstTurn("t2", "b2", "s2")];
    assert_eq!(headTurnId(&Some("t1".to_string()), &branch), Some("t1".to_string()));
    assert_eq!(headTurnId(&None, &branch), Some("t2".to_string()));
    assert_eq!(headTurnId(&None, &vec![]), None);
}

#[test]
fn sessionsOfOtherProjectsAreLeftOut() {
    let here = Some("/here".to_string());
    let there = Some("/there".to_string());
    assert_eq!(judgeSession(false, &here, &here), SessionVerdict::NoSnapshots);
    assert_eq!(judgeSession(true, &None, &None), SessionVerdict::Export);
    assert_eq!(judgeSession(true, &here, &None), SessionVerdict::Unreadable);
    assert_eq!(judgeSession(true, &here, &there), SessionVerdict::Filtered);
    assert_eq!(judgeSession(true, &here, &here), SessionVerdict::Export);
}

#[test]
fn callsWithoutArgumentsSendAnEmptyObject() {
    assert_eq!(wireArgs(None), "{}");
    assert_eq!(wireArgs(Some("[1]".to_string())), "[1]");
}

#[test]
fn laterSnapshotsOfAHashReplaceEarlierOnes() {
    let mut index = SnapshotIndex::new();
    index.insert("s".to_string(), dummySnap("a", "t", &["u1"]));
    index.insert("s".to_string(), dummySnap("b", "t", &["u1"]));
    assert_eq!(index.get("s").unwrap().systemPromptHash, Some("b".to_string()));
    assert!(index.get("other").is_none());
}

#[test]
fn blankLinesOfTheIndexHoldNoEntry() {
    assert_eq!(indexLines("{\"a\":1}\n\n \t\r\n  {} \r\n\u{3000}\n[]"), ["{\"a\":1}", "  {} ", "[]"]);
    assert!(indexLines("").is_empty());
    assert!(indexLines("\n \n").is_empty());
}
