use deck::agent_panel::blocks::{scrollBlock, BlockMap, CodeBlockRange};
use deck::agent_panel::entry::PanelEntry;
use deck::agent_panel::state::AgentPanel;
use deck::draw::Rect;
use deck::fork_picker::{Fork, ForkPicker};
use deck::history::History;
use deck::jobs_panel::{
    JobInfo, JobKind, JobOutputSnapshot, JobState, JobsPanel, Mode, PanelAction,
};
use deck::keys::{KeyCode, KeyEvent};

fn key(code: KeyCode) -> KeyEvent {
    KeyEvent::plain(code)
}

fn range(total: usize, widest: usize) -> CodeBlockRange {
    CodeBlockRange {
        startLine: 2,
        endLine: 12,
        blockId: (0, 0),
        maxContentWidth: widest,
        innerWidth: 40,
        contentLines: vec![],
        rawCode: "code".to_string(),
        copyLabelCol: 30,
        collapsible: true,
        totalLines: total,
    }
}

fn scrolledPanel() -> AgentPanel {
    let mut panel = AgentPanel::new(History::new(vec![]), 0);
    panel.scroll.offset = 5;
    panel.scroll.maxScroll = 50;
    panel.scroll.chatWidth = 40;
    panel
}

#[test]
fn expandingACodeBlockTwiceRestoresThePanel() {
    let mut panel = scrolledPanel();
    panel.shown.blocks = vec![range(100, 80)];
    let line = |p: &AgentPanel| 2 - p.scroll.offset as i32 - p.scroll.lastY as i32;
    assert!(panel.tryToggleCodeBlock(line(&panel)));
    assert!(panel.code.expanded.contains((0, 0)));
    assert!(panel.scroll.offset > 5);
    assert!(panel.tryToggleCodeBlock(line(&panel)));
    assert!(!panel.code.expanded.contains((0, 0)));
    assert_eq!(panel.scroll.offset, 5);
    assert_eq!(panel.scroll.maxScroll, 50);
    assert!(!panel.tryToggleCodeBlock(1_000));
}

#[test]
fn showingReasoningTwiceRestoresThePanel() {
    let mut panel = scrolledPanel();
    panel.entries.push(PanelEntry::Reasoning { text: "one\ntwo\nthree".to_string(), expanded: false });
    panel.shown.reasoningHeaders = vec![(Some(0), 3)];
    let line = |p: &AgentPanel| 3 - p.scroll.offset as i32 - p.scroll.lastY as i32;
    assert!(panel.toggleReasoningAtGridLine(line(&panel)));
    assert!(matches!(&panel.entries[0], PanelEntry::Reasoning { expanded: true, .. }));
    assert!(panel.scroll.offset > 5);
    assert!(panel.toggleReasoningAtGridLine(line(&panel)));
    assert!(matches!(&panel.entries[0], PanelEntry::Reasoning { expanded: false, .. }));
    assert_eq!(panel.scroll.offset, 5);
}

#[test]
fn codeNeverScrollsPastItsContent() {
    let mut m = BlockMap::new();
    let r = range(10, 100);
    for _ in 0..100 {
        scrollBlock(&mut m, &r, 7);
        assert!(m.offset((0, 0)) <= 60);
    }
    assert_eq!(m.offset((0, 0)), 60);
    for _ in 0..100 {
        scrollBlock(&mut m, &r, -7);
    }
    assert_eq!(m.get((0, 0)), None);
    scrollBlock(&mut m, &range(10, 40), 7);
    assert_eq!(m.offset((0, 0)), 0);
}

#[test]
fn copyLabelsCopyTheCode() {
    let mut panel = scrolledPanel();
    panel.shown.blocks = vec![range(10, 80)];
    let line = 2 - panel.scroll.offset as i32 - panel.scroll.lastY as i32;
    assert_eq!(panel.tryCopyCodeBlock(line, 31, 7), Some("code".to_string()));
    assert_eq!(panel.code.copiedFlash, Some(((0, 0), 7)));
    assert_eq!(panel.tryCopyCodeBlock(line, 1, 7), None);
}

fn job(id: u64, state: JobState) -> JobInfo {
    JobInfo {
        id,
        kind: JobKind::Bash,
        command: "make".to_string(),
        state,
        spawnedAt: 0,
        completedAt: None,
        totalLines: 0,
    }
}

#[test]
fn togglingFinishedTwiceShowsTheSame() {
    let mut p = JobsPanel::new(vec![
        job(1, JobState::Killed),
        job(2, JobState::Running),
        job(3, JobState::Errored("x".to_string())),
    ]);
    let before = p.visibleJobIndexes();
    p.handleKey(key(KeyCode::Char('f')));
    assert_eq!(p.visibleJobIndexes(), vec![0, 1, 2]);
    p.handleKey(key(KeyCode::Char('f')));
    assert_eq!(p.visibleJobIndexes(), before);
}

#[test]
fn pagingBackNeverAsksForWhatIsGone() {
    let mut p = JobsPanel::new(vec![job(1, JobState::Running)]);
    p.applyInspectorOpen(
        1,
        JobOutputSnapshot {
            command: "make".to_string(),
            lines: vec!["x".to_string(); 5],
            firstLine: 100,
            totalLines: 105,
            earliestBuffered: 90,
            state: JobState::Running,
        },
    );
    for _ in 0..50 {
        p.handleKey(key(KeyCode::PageUp));
        if let Some(l) = p.inspectorSinceLine() {
            assert!(l >= 90);
        }
    }
    assert_eq!(p.handleKey(key(KeyCode::Home)), PanelAction::Refetch(1));
    assert_eq!(p.inspectorSinceLine(), Some(90));
}

#[test]
fn theInspectorIsLaidOutAlikeTwice() {
    let mut p = JobsPanel::new(vec![job(1, JobState::Running)]);
    p.applyInspectorOpen(
        1,
        JobOutputSnapshot {
            command: "make".to_string(),
            lines: (0..100).map(|i| format!("line {i}")).collect(),
            firstLine: 0,
            totalLines: 100,
            earliestBuffered: 0,
            state: JobState::Running,
        },
    );
    let area = Rect { x: 0, y: 0, width: 100, height: 30 };
    let first = format!("{:?}", p.render(area, 0));
    let second = format!("{:?}", p.render(area, 0));
    assert_eq!(first, second);
    assert!(matches!(&p.mode, Mode::Inspect(s) if s.lastViewportRows > 0));
}

#[test]
fn theRowUnderTheCursorIsInView() {
    let forks: Vec<Fork> = (0..30)
        .map(|i| Fork { id: format!("f{i}"), label: format!("fork {i}"), createdAt: 0 })
        .collect();
    let mut p = ForkPicker::new(&forks, 0);
    for step in [KeyCode::Down, KeyCode::Char('j'), KeyCode::Up, KeyCode::Char('k')] {
        for _ in 0..20 {
            p.handleKey(key(step));
            assert!(p.scrollOffset <= p.selected);
            assert!(p.selected < p.scrollOffset + p.lastVisibleCount);
        }
    }
    assert_eq!(p.selected, 0);
}
