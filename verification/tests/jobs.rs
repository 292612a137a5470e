use deck::draw::Rect;
use deck::jobs_panel::{
    JobId, JobInfo, JobKind, JobOutputSnapshot, JobState, JobsPanel, Mode, PanelAction, WakeKind,
    WakeSourceInfo,
};
use deck::jobs_render::{formatAge, truncateLine, wakeRowText};
use deck::keys::{KeyCode, KeyEvent};

fn job(id: JobId, state: JobState) -> JobInfo {
    let done = state.isTerminal();
    JobInfo {
        id,
        kind: JobKind::Bash,
        command: format!("echo job-{id}"),
        completedAt: if done { Some(1) } else { None },
        state,
        spawnedAt: 0,
        totalLines: 0,
    }
}

fn key(code: KeyCode) -> KeyEvent {
    KeyEvent::plain(code)
}

fn visible(panel: &JobsPanel) -> Vec<JobId> {
    panel.visibleJobIndexes().iter().map(|idx| panel.jobs[*idx].id).collect()
}

fn snap(first: u64, lines: &[&str]) -> JobOutputSnapshot {
    JobOutputSnapshot {
        command: "make".to_string(),
        lines: lines.iter().map(|s| s.to_string()).collect(),
        firstLine: first,
        totalLines: first + lines.len() as u64,
        earliestBuffered: 0,
        state: JobState::Running,
    }
}

#[test]
fn defaultsToUnfinishedJobsOnly() {
    let panel = JobsPanel::new(vec![
        job(1, JobState::Completed { exitCode: 0 }),
        job(2, JobState::Running),
        job(3, JobState::Killed),
    ]);
    assert_eq!(visible(&panel), vec![2]);
}

#[test]
fn toggleFinishedShowsAllRowsAndEnterUsesVisibleSelection() {
    let mut panel = JobsPanel::new(vec![
        job(1, JobState::Completed { exitCode: 0 }),
        job(2, JobState::Running),
        job(3, JobState::Killed),
    ]);

    match panel.handleKey(key(KeyCode::Enter)) {
        PanelAction::Inspect(id) => assert_eq!(id, 2),
        _ => panic!("expected visible running job to inspect"),
    }

    panel.handleKey(key(KeyCode::Char('f')));
    assert_eq!(visible(&panel), vec![1, 2, 3]);

    match panel.handleKey(key(KeyCode::Enter)) {
        PanelAction::Inspect(id) => assert_eq!(id, 2),
        _ => panic!("expected preserved visible job to inspect"),
    }
}

#[test]
fn refreshClampsWhenSelectedJobBecomesHidden() {
    let mut panel = JobsPanel::new(vec![job(1, JobState::Running), job(2, JobState::Running)]);
    panel.handleKey(key(KeyCode::Down));
    assert_eq!(panel.selectedJob().map(|j| j.id), Some(2));

    panel.refresh(vec![
        job(1, JobState::Running),
        job(2, JobState::Completed { exitCode: 0 }),
    ]);
    assert_eq!(panel.selectedJob().map(|j| j.id), Some(1));
}

#[test]
fn onlyARunningJobIsKilled() {
    let mut panel = JobsPanel::new(vec![
        job(1, JobState::Running),
        job(2, JobState::Completed { exitCode: 1 }),
    ]);
    assert_eq!(panel.handleKey(key(KeyCode::Char('k'))), PanelAction::Kill(1));
    panel.handleKey(key(KeyCode::Char('f')));
    panel.handleKey(key(KeyCode::Down));
    assert_eq!(panel.selectedJob().map(|j| j.id), Some(2));
    assert_eq!(panel.handleKey(key(KeyCode::Char('k'))), PanelAction::Stay);
}

#[test]
fn aSnapshotForAnotherWindowIsDropped() {
    let mut panel = JobsPanel::new(vec![job(4, JobState::Running)]);
    panel.applyInspectorOpen(4, snap(10, &["a", "b"]));
    assert_eq!(panel.inspectorTaskId(), Some(4));
    assert_eq!(panel.inspectorSinceLine(), None);
    assert!(!panel.applyInspectorSnapshot(4, Some(3), snap(3, &["x"])));
    assert!(!panel.applyInspectorSnapshot(5, None, snap(3, &["x"])));
    assert!(panel.applyInspectorSnapshot(4, None, snap(11, &["b", "c"])));
}

#[test]
fn theInspectorGoesWithItsJob() {
    let mut panel = JobsPanel::new(vec![job(4, JobState::Running)]);
    panel.applyInspectorOpen(4, snap(0, &["a"]));
    panel.refresh(vec![job(5, JobState::Running)]);
    assert_eq!(panel.inspectorTaskId(), None);
}

#[test]
fn escClosesTheInspectorAndThenThePanel() {
    let mut panel = JobsPanel::new(vec![job(4, JobState::Running)]);
    panel.applyInspectorOpen(4, snap(0, &["a"]));
    assert_eq!(panel.handleKey(key(KeyCode::Esc)), PanelAction::Stay);
    assert_eq!(panel.inspectorTaskId(), None);
    assert_eq!(panel.handleKey(key(KeyCode::Esc)), PanelAction::Close);
}

#[test]
fn agesAreShort() {
    assert_eq!(formatAge(0), "0s");
    assert_eq!(formatAge(59), "59s");
    assert_eq!(formatAge(187), "3m07s");
    assert_eq!(formatAge(7_500), "2h05m");
}

#[test]
fn longLinesAreCut() {
    assert_eq!(truncateLine("short", 10), "short");
    assert_eq!(truncateLine("a line that is too long", 10), "a line th\u{2026}");
    assert_eq!(truncateLine("ab", 1), "\u{2026}");
}

#[test]
fn wakeRowsNameTheirSource() {
    let w = WakeSourceInfo {
        id: 7,
        kind: WakeKind::Cron,
        kindName: "cron".to_string(),
        summary: "*/5 * * * *".to_string(),
        prompt: None,
        firesSoFar: 2,
    };
    let text = wakeRowText(&w);
    assert!(text.ends_with(" #7 [cron] */5 * * * * \u{00B7} 2 fires"), "{text}");
}

#[test]
fn thePanelDrawsInsideItsArea() {
    let mut panel = JobsPanel::new(vec![job(1, JobState::Running)]);
    let out = panel.render(Rect { x: 0, y: 0, width: 100, height: 30 }, 5_000);
    assert!(!out.is_empty());
}

#[test]
fn openingAgainOnlyRefreshesTheOutput() {
    let lines: Vec<String> = (0..100).map(|i| format!("line {i}")).collect();
    let texts: Vec<&str> = lines.iter().map(String::as_str).collect();
    let mut panel = JobsPanel::new(vec![job(4, JobState::Running), job(5, JobState::Running)]);
    panel.applyInspectorOpen(4, JobOutputSnapshot { earliestBuffered: 0, ..snap(50, &texts) });
    panel.handleKey(key(KeyCode::Home));
    assert_eq!(panel.inspectorSinceLine(), Some(0));
    panel.handleKey(key(KeyCode::Down));
    let before = match &panel.mode {
        Mode::Inspect(s) => (s.scrollOffset, s.autoscroll, s.requestedSinceLine),
        Mode::List => panic!("the inspector is open"),
    };
    panel.applyInspectorOpen(4, snap(0, &["a", "b", "c"]));
    match &panel.mode {
        Mode::Inspect(s) => {
            assert_eq!((s.scrollOffset, s.autoscroll, s.requestedSinceLine), before);
            assert!(!s.autoscroll);
            assert_eq!(s.lines, vec!["a", "b", "c"]);
            assert_eq!(s.totalLines, 3);
        }
        Mode::List => panic!("the inspector is open"),
    }
    panel.applyInspectorOpen(5, snap(7, &["x", "y"]));
    match &panel.mode {
        Mode::Inspect(s) => {
            assert_eq!(s.id, 5);
            assert!(s.autoscroll);
            assert_eq!(s.requestedSinceLine, None);
        }
        Mode::List => panic!("the inspector is open"),
    }
}

#[test]
fn longCommandsFitIntoWideRows() {
    let mut long = job(1, JobState::Running);
    long.command = "x".repeat(70_000);
    let mut panel = JobsPanel::new(vec![long]);
    let wide = Rect { x: 0, y: 0, width: 100, height: 30 };
    assert!(panel.canRender(wide));
    assert!(!panel.render(wide, 0).is_empty());
    assert!(!panel.canRender(Rect { x: 0, y: 0, width: 40, height: 30 }));
    assert!(panel.canRender(Rect { x: 0, y: 0, width: 40, height: 5 }));
}
