use base64::Engine;
use deck::agent_panel::entry::PanelEntry;
use deck::agent_panel::state::{AgentPanel, PermitOrigin};
use deck::app::deck::{Deck, StoredAttachment};
use deck::app::effect::Effect;
use deck::app::event::LogEvent;
use deck::app::updates::{CommandAck, DeckUpdate, PermitRequest};
use deck::history::History;
use deck::impact::ShellImpact;
use deck::jobs_panel::{JobId, JobInfo, JobKind, JobOutputSnapshot, JobState, WakeKind};

fn newDeck() -> Deck {
    Deck::new(AgentPanel::new(History::new(vec![]), 0), 0)
}

fn tell(d: &mut Deck, e: LogEvent) -> Vec<Effect> {
    let mut out = vec![];
    d.handleEvent(e, 1_000, &mut out);
    out
}

fn update(d: &mut Deck, u: DeckUpdate) -> Vec<Effect> {
    let mut out = vec![];
    d.handleUpdate(u, 1_000, &mut out);
    out
}

fn job(id: JobId) -> JobInfo {
    JobInfo {
        id,
        kind: JobKind::Bash,
        command: "make".to_string(),
        state: JobState::Running,
        spawnedAt: 0,
        completedAt: None,
        totalLines: 0,
    }
}

fn snap() -> JobOutputSnapshot {
    JobOutputSnapshot {
        command: "make".to_string(),
        lines: vec!["a".to_string()],
        firstLine: 0,
        totalLines: 1,
        earliestBuffered: 0,
        state: JobState::Running,
    }
}

fn s(t: &str) -> String {
    t.to_string()
}

fn hasTitle(out: &[Effect]) -> bool {
    out.iter().any(|e| matches!(e, Effect::Title(_)))
}

fn fetches(out: &[Effect]) -> usize {
    out.iter().filter(|e| matches!(e, Effect::FetchOutput { .. })).count()
}

#[test]
fn anErrorEndsTheTurn() {
    let mut d = newDeck();
    d.panel.pushUser("go", 0);
    let out = tell(&mut d, LogEvent::Error(s("overloaded")));
    assert!(!d.panel.isActive());
    assert!(d.panel.compose.errorHint);
    assert!(d.panel.entries.iter().any(|e| matches!(e, PanelEntry::Error(m) if m == "overloaded")));
    assert!(out.iter().any(|e| matches!(e, Effect::Toast)));
}

#[test]
fn unseenWorkIsFlagged() {
    let mut d = newDeck();
    tell(&mut d, LogEvent::TopicChanged { label: s("first") });
    assert!(!hasTitle(&tell(&mut d, LogEvent::TurnComplete)));
    assert!(!d.title.unseenWork);
    d.title.windowFocused = false;
    assert!(hasTitle(&tell(&mut d, LogEvent::TurnComplete)));
    assert!(d.title.unseenWork);
    let before = d.title.topicTitle(false);
    tell(&mut d, LogEvent::TopicChanged { label: s("topic") });
    assert!(d.title.unseenWork);
    assert_eq!(d.title.topicTitle(false).chars().next(), before.chars().next());
}

#[test]
fn outputIsFetchedOneRequestAtATime() {
    let mut d = newDeck();
    update(&mut d, DeckUpdate::TasksList(vec![job(4)]));
    update(&mut d, DeckUpdate::TaskOutputOpen { id: 4, snap: snap() });
    let line = || LogEvent::JobOutput { id: 4, line: s("x") };
    assert_eq!(fetches(&tell(&mut d, line())), 1);
    assert_eq!(fetches(&tell(&mut d, line())), 0);
    assert_eq!(fetches(&tell(&mut d, line())), 0);
    let back = DeckUpdate::TaskOutputRefresh { id: 4, sinceLine: None, snap: Some(snap()) };
    assert_eq!(fetches(&update(&mut d, back)), 1);
    let back = DeckUpdate::TaskOutputRefresh { id: 4, sinceLine: None, snap: Some(snap()) };
    assert_eq!(fetches(&update(&mut d, back)), 0);
    assert_eq!(fetches(&tell(&mut d, LogEvent::JobOutput { id: 5, line: s("x") })), 0);
}

#[test]
fn aClosedPanelAsksNothing() {
    let mut d = newDeck();
    let out = tell(&mut d, LogEvent::JobSpawned { id: 4, command: s("make") });
    assert!(!out.iter().any(|e| matches!(e, Effect::ListJobs)));
    assert_eq!(d.background.running, 1);
    tell(&mut d, LogEvent::JobComplete { id: 4, exitCode: Some(0) });
    assert_eq!(d.background.running, 0);
    assert!(d.background.unread.contains(&4));
}

#[test]
fn anOpenPanelIsKeptFresh() {
    let mut d = newDeck();
    update(&mut d, DeckUpdate::TasksList(vec![job(4)]));
    let out = tell(&mut d, LogEvent::JobStopped { id: 4, reason: s("killed") });
    assert!(out.iter().any(|e| matches!(e, Effect::ListJobs)));
    assert!(!d.background.unread.contains(&4));
}

#[test]
fn clearingLeavesNothing() {
    let mut d = newDeck();
    d.panel.pushUser("go", 0);
    tell(&mut d, LogEvent::JobSpawned { id: 1, command: s("make") });
    tell(&mut d, LogEvent::TopicChanged { label: s("topic") });
    tell(
        &mut d,
        LogEvent::TokenUpdate { contextTokens: 5, sessionCost: s("$1"), cacheReadTokens: 3 },
    );
    assert_eq!(d.usage.cacheHitAt, Some(1_000));
    tell(&mut d, LogEvent::Cleared);
    assert!(d.panel.entries.is_empty());
    assert_eq!(d.usage.tokens, 0);
    assert_eq!(d.background.running, 0);
    assert_eq!(d.title.topic, None);
}

#[test]
fn aRewindGivesTheMessageBack() {
    let mut d = newDeck();
    let bytes = vec![1u8, 2, 250];
    d.rewind.message = Some(s("again"));
    d.rewind.attachments = Some(vec![
        StoredAttachment {
            mimeType: s("image/png"),
            data: base64::engine::general_purpose::STANDARD.encode(&bytes),
        },
        StoredAttachment { mimeType: s("image/jpeg"), data: s("not base64!") },
    ]);
    let out = tell(&mut d, LogEvent::Rewound { targetTurnId: s("t1") });
    assert!(out.iter().any(|e| matches!(e, Effect::SetInput(t) if t == "again")));
    let back = &d.panel.compose.attachments;
    assert_eq!(back.len(), 2);
    assert_eq!(back[0].data, bytes);
    assert_eq!(back[0].label, "restored image");
    assert!(back[1].data.is_empty());
    let out = tell(&mut d, LogEvent::Rewound { targetTurnId: s("t1") });
    assert!(!out.iter().any(|e| matches!(e, Effect::SetInput(_))));
}

#[test]
fn subagentEventsStayWithTheSubagent() {
    let mut d = newDeck();
    tell(
        &mut d,
        LogEvent::SubagentStarted { sessionId: s("a"), agentType: s("explore"), prompt: s("p") },
    );
    tell(
        &mut d,
        LogEvent::SubagentEvent {
            sessionId: s("a"),
            event: Box::new(LogEvent::ToolStarted { name: s("grep"), summary: s("x") }),
        },
    );
    assert_eq!(d.panel.subs.active.len(), 1);
    tell(
        &mut d,
        LogEvent::SubagentComplete {
            sessionId: s("a"),
            agentType: s("explore"),
            turns: 2,
            content: s("done"),
        },
    );
    assert!(d.panel.subs.active.is_empty());
    assert!(d.panel.currentSubagent().is_none());
}

#[test]
fn wakesStartATurn() {
    let mut d = newDeck();
    tell(
        &mut d,
        LogEvent::WakeRegistered {
            id: 3,
            kind: WakeKind::Delay,
            kindName: s("delay"),
            summary: s("90s"),
            prompt: None,
            nextFireAt: Some(2_000),
        },
    );
    assert_eq!(d.background.wakes, 1);
    tell(&mut d, LogEvent::WakeBatchInjected { count: 1, summary: s("delay#3 \u{00B7} hi") });
    assert!(d.panel.isActive());
    tell(&mut d, LogEvent::WakeDisarmed { id: 3 });
    assert_eq!(d.background.wakes, 0);
}

#[test]
fn promptsAreFlaggedWhileNobodyLooks() {
    let mut d = newDeck();
    d.panel.pushUser("go", 0);
    d.title.windowFocused = false;
    let mut out = vec![];
    d.handlePermit(
        PermitRequest {
            origin: PermitOrigin::Top,
            name: s("bash"),
            summary: s("rm x"),
            command: Some(s("rm x")),
            patterns: vec![],
            diff: None,
            explanation: None,
            impact: ShellImpact::Delete,
        },
        &mut out,
    );
    assert!(d.panel.permit.pending);
    assert!(d.title.unseenPermit);
    assert!(hasTitle(&out));
}

#[test]
fn failedResumptionsAreTold() {
    let mut d = newDeck();
    d.open.sessions = true;
    let out = update(
        &mut d,
        DeckUpdate::ResumeResult(CommandAck { ok: false, message: s("gone") }),
    );
    assert!(out.iter().any(|e| matches!(e, Effect::ResumeFailed(m) if m == "gone")));
    update(&mut d, DeckUpdate::ResumeResult(CommandAck { ok: true, message: s("ok") }));
    assert!(!d.open.sessions);
}
