use deck::agent_panel::state::{AgentPanel, Attachment, PermitOrigin};
use deck::app::arrangement::{Arrangement, LayoutWork};
use deck::app::composing::{pastedImage, textAct, PasteAct, TextAct};
use deck::app::deck::Deck;
use deck::app::desk::{copySource, CopySource, Desk, Focus, Global, RewindChoice, Route, TerminalAct};
use deck::app::effect::Effect;
use deck::app::help::renderHelpPopup;
use deck::app::keyboard::KeyStep;
use deck::app::mouse::{
    expansionOf, textSpot, Expansion, MouseGate, MouseInput, MouseKind, MouseStep, PanelId,
    Pointer, Spot, TabClick,
};
use deck::app::pace::ScrollAxisLock;
use deck::app::request::{PermitResponse, Reply, Request};
use deck::app::screen::{
    contentArea, drawDue, extractTerminalUnwrapped, screenAreas, terminalTitle, TermLine,
};
use deck::app::session::SettingsChange;
use deck::app::status_bar::{
    cacheHeatSpans, chipHitTest, chipsOf, clampFocus, formatContextPct, renderStatusBar,
    StatusChipKind, StatusInput,
};
use deck::draw::{Color, Rect};
use deck::history::History;
use deck::impact::ShellImpact;
use deck::jobs_panel::JobsPanel;
use deck::keys::{KeyCode, KeyEvent};
use deck::layout::control_panel::builtinPresets;
use deck::layout::discovery::DiscoveredLayout;
use deck::layout::Layout;

fn newDesk() -> Desk {
    let mut out = vec![];
    Desk {
        deck: Deck::new(AgentPanel::new(History::new(vec![]), 0), 0),
        focus: Focus::Agent,
        quitPress: None,
        help: false,
        statusFocus: None,
        chips: vec![],
        arrangement: Arrangement::start(None, false, &mut out),
    }
}

fn key(code: KeyCode) -> KeyEvent {
    KeyEvent::plain(code)
}

fn ctrl(c: char) -> KeyEvent {
    KeyEvent::ctrl(KeyCode::Char(c))
}

fn prompted() -> Desk {
    let mut d = newDesk();
    d.deck.panel.pushUser("go", 0);
    d.deck.panel.showToolRequest(
        "bash",
        "ls",
        Some("ls".to_string()),
        vec![" ls * ".to_string()],
        None,
        None,
        ShellImpact::Read,
        PermitOrigin::Top,
    );
    d
}

fn status() -> StatusInput {
    StatusInput {
        running: 2,
        background: false,
        cost: "$0.12".to_string(),
        tokens: 50_000,
        window: 200_000,
        caching: true,
        cacheHitAt: Some(0),
        quitHint: false,
    }
}

// ---- keys ----

#[test]
fn quittingTakesTwoPresses() {
    let mut d = newDesk();
    let mut out = vec![];
    assert_eq!(d.globalKey(ctrl('q'), 0, &mut out), Global::Taken);
    assert_eq!(d.globalKey(ctrl('q'), 5_000, &mut out), Global::Taken);
    assert_eq!(d.globalKey(ctrl('q'), 5_500, &mut out), Global::Quit);
}

#[test]
fn theQuitHintGoesAfterASecond() {
    let mut d = newDesk();
    assert!(!d.dropQuitHint(0));
    d.quitPress = Some(0);
    assert!(!d.dropQuitHint(999));
    assert!(d.dropQuitHint(1_000));
    assert_eq!(d.quitPress, None);
}

#[test]
fn anyKeyClosesTheHelp() {
    let mut d = newDesk();
    let mut out = vec![];
    d.globalKey(ctrl('h'), 0, &mut out);
    assert!(d.help);
    assert_eq!(d.globalKey(key(KeyCode::Char('x')), 0, &mut out), Global::Taken);
    assert!(!d.help);
    assert_eq!(d.globalKey(key(KeyCode::Char('x')), 0, &mut out), Global::Pass);
}

#[test]
fn afterAnErrorATurnIsTriedAgain() {
    let mut d = newDesk();
    let mut out = vec![];
    d.deck.panel.compose.errorHint = true;
    assert_eq!(d.globalKey(ctrl('r'), 0, &mut out), Global::Taken);
    assert!(!d.deck.panel.compose.errorHint);
    assert!(matches!(out[0], Effect::Cancel(false)));
    assert!(matches!(out[1], Effect::Ask(Request::RetryLastTurn, _)));
}

#[test]
fn promptsComeFirst() {
    let mut d = prompted();
    d.deck.tasks = Some(JobsPanel::new(vec![]));
    assert_eq!(d.route(key(KeyCode::Char('y'))), Route::Permit);
    assert_eq!(d.route(key(KeyCode::Esc)), Route::Cancel);
}

#[test]
fn coveredPanesGetNoKeys() {
    let mut d = newDesk();
    assert_eq!(d.route(key(KeyCode::Char('x'))), Route::Agent);
    assert_eq!(d.route(key(KeyCode::Tab)), Route::SwitchFocus);
    d.deck.tasks = Some(JobsPanel::new(vec![]));
    assert!(d.isCovered());
    assert_eq!(d.route(key(KeyCode::Char('x'))), Route::Tasks);
    assert_eq!(d.route(key(KeyCode::Tab)), Route::Tasks);
}

#[test]
fn keptPatternsAreTrimmedAndNotBlank() {
    let mut d = prompted();
    let mut out = vec![];
    d.permitKey(key(KeyCode::Char('A')), &mut out);
    assert!(matches!(
        &out[0],
        Effect::Answer(PermitResponse::AlwaysAllow { pattern }) if pattern == "ls *"
    ));
    let mut d = prompted();
    let mut out = vec![];
    d.deck.panel.permit.patterns = vec!["  ".to_string()];
    d.permitKey(key(KeyCode::Char('D')), &mut out);
    assert!(out.is_empty());
    assert!(d.deck.panel.permit.pending);
}

#[test]
fn answeringClosesThePrompt() {
    let mut d = prompted();
    let mut out = vec![];
    d.permitKey(key(KeyCode::Char('n')), &mut out);
    assert!(matches!(&out[0], Effect::Answer(PermitResponse::Deny)));
    assert!(!d.deck.panel.permit.pending);
}

#[test]
fn cancellingTellsTheSession() {
    let mut d = prompted();
    let mut out = vec![];
    d.cancelTurn(&mut out);
    assert!(matches!(out[0], Effect::Cancel(true)));
    assert!(!d.deck.panel.isActive());
}

#[test]
fn keysGoToWhoeverHasThem() {
    let mut d = prompted();
    let mut out = vec![];
    assert!(matches!(
        d.handleKey(key(KeyCode::Char('y')), true, true, "", &mut out),
        KeyStep::Done
    ));
    assert!(matches!(&out[0], Effect::Answer(PermitResponse::Allow)));
    assert!(matches!(d.handleKey(key(KeyCode::Esc), true, true, "", &mut out), KeyStep::Done));
    assert!(!d.deck.panel.isActive());
    d.handleKey(key(KeyCode::Tab), true, true, "", &mut out);
    assert_eq!(d.focus, Focus::Terminal);
    assert!(matches!(
        d.handleKey(key(KeyCode::Char('x')), true, true, "", &mut out),
        KeyStep::Terminal(TerminalAct::Send(b)) if b == b"x"
    ));
    d.deck.open.mcp = true;
    assert!(matches!(
        d.handleKey(key(KeyCode::Char('x')), true, true, "", &mut out),
        KeyStep::Panel(Route::Mcp)
    ));
    d.deck.open.mcp = false;
    d.arrangement.open();
    assert!(matches!(
        d.handleKey(key(KeyCode::Char('s')), true, true, "", &mut out),
        KeyStep::Layout(LayoutWork::Write)
    ));
    d.handleKey(key(KeyCode::Esc), true, true, "", &mut out);
    assert!(d.arrangement.panel.is_none());
    d.focus = Focus::Agent;
    assert!(matches!(
        d.handleKey(key(KeyCode::Char('x')), true, true, "", &mut out),
        KeyStep::Input(s) if s.act == TextAct::Insert('x')
    ));
}

#[test]
fn theFocusGoesBackAndForth() {
    let mut d = newDesk();
    d.switchFocus();
    assert_eq!(d.focus, Focus::Terminal);
    d.switchFocus();
    assert_eq!(d.focus, Focus::Agent);
}

#[test]
fn whatIsSelectedInTheInputIsCopiedFirst() {
    assert!(matches!(
        copySource(Some("x".to_string()), true, true),
        CopySource::Text(t) if t == "x"
    ));
    assert!(matches!(copySource(None, true, true), CopySource::Agent));
    assert!(matches!(copySource(None, false, true), CopySource::Terminal));
    assert!(matches!(copySource(None, false, false), CopySource::Nothing));
}

#[test]
fn aChosenRewindIsRemembered() {
    let mut d = newDesk();
    let mut out = vec![];
    d.rewindChosen(
        RewindChoice {
            target: "t1".to_string(),
            userMessage: Some("again".to_string()),
            attachments: None,
            saveFork: true,
        },
        &mut out,
    );
    assert_eq!(d.deck.rewind.message.as_deref(), Some("again"));
    assert!(out.iter().any(|e| matches!(e, Effect::Ask(Request::Rewind { saveFork: true, .. }, _))));
}

#[test]
fn chosenThingsAreAskedFor() {
    let mut d = newDesk();
    let mut out = vec![];
    d.deck.open.lsp = true;
    d.installChosen("rust", "rustup component add rust-analyzer", &mut out);
    assert!(!d.deck.open.lsp);
    assert!(matches!(
        &out[0],
        Effect::SendToTerminal(b) if b == b"rustup component add rust-analyzer\n"
    ));
    d.deck.open.permissions = true;
    d.permissionsChosen(&mut out);
    assert!(!d.deck.open.permissions);
    assert!(matches!(&out[1], Effect::Ask(Request::SavePermissions, _)));
    let change = SettingsChange::Delete { scope: "user".to_string(), profile: "old".to_string() };
    d.settingsChosen(change, &mut out);
    d.discoverChosen("openai".to_string(), &mut out);
    assert!(matches!(
        &out[2],
        Effect::Ask(Request::ChangeModels(SettingsChange::Delete { profile, .. }), Reply::SilentAck)
            if profile == "old"
    ));
    assert!(matches!(
        &out[3],
        Effect::Ask(Request::DiscoverModels { provider }, Reply::Catalog) if provider == "openai"
    ));
    out.truncate(2);
    d.deck.open.mcp = true;
    d.deck.open.log = true;
    d.panelClosed(Route::Mcp);
    assert!(!d.deck.open.mcp && d.deck.open.log);
    d.resumeChosen("s1".to_string(), &mut out);
    assert!(matches!(
        &out[2],
        Effect::Ask(Request::ResumeSession { sessionId }, _) if sessionId == "s1"
    ));
}

#[test]
fn arrowsStayOnTheBar() {
    let mut d = newDesk();
    let mut out = vec![];
    let bar = renderStatusBar(&status(), Some(0), Rect { x: 0, y: 9, width: 100, height: 1 }, 0);
    d.chips = bar.spots;
    d.statusFocus = Some(0);
    for _ in 0..10 {
        d.statusKey(key(KeyCode::Right), &mut out);
        assert!(d.statusFocus.unwrap() < d.chips.len());
    }
    for _ in 0..10 {
        d.statusKey(key(KeyCode::Left), &mut out);
    }
    assert_eq!(d.statusFocus, Some(0));
    d.statusKey(key(KeyCode::Enter), &mut out);
    assert!(out.iter().any(|e| matches!(e, Effect::Ask(Request::ListJobs, _))));
}

#[test]
fn keysGoToTheTerminal() {
    let mut d = newDesk();
    d.focus = Focus::Terminal;
    assert!(matches!(d.terminalKey(key(KeyCode::Char('x'))), TerminalAct::Send(b) if b == b"x"));
}

// ---- the input ----

#[test]
fn editingKeysAreUnderstood() {
    assert_eq!(textAct(key(KeyCode::Char('x'))), TextAct::Insert('x'));
    assert_eq!(textAct(ctrl('a')), TextAct::MoveHome);
    assert_eq!(textAct(key(KeyCode::Enter)), TextAct::Submit);
    let mut k = key(KeyCode::Enter);
    k.modifiers.shift = true;
    assert_eq!(textAct(k), TextAct::Insert('\n'));
}

#[test]
fn messagesWaitForTheTurn() {
    let mut d = newDesk();
    let mut out = vec![];
    d.submitted("one".to_string(), 0, &mut out);
    assert_eq!(out.iter().filter(|e| matches!(e, Effect::Send(_))).count(), 1);
    assert!(d.deck.panel.isActive());
    out.clear();
    d.deck.panel.addAttachment(Attachment {
        mimeType: "image/png".to_string(),
        data: vec![1],
        label: "x".to_string(),
        rgbaDimensions: None,
    });
    d.submitted("two".to_string(), 1, &mut out);
    assert_eq!(d.deck.panel.queuedCount(), 1);
    assert_eq!(d.deck.panel.attachmentCount(), 0);
    out.clear();
    d.agentKey(key(KeyCode::Up), true, true, "", &mut out);
    assert_eq!(d.deck.panel.queuedCount(), 0);
    assert_eq!(d.deck.panel.attachmentCount(), 1);
    assert!(out.iter().any(|e| matches!(e, Effect::SetInput(t) if t == "two")));
}

#[test]
fn slashCommandsAreCarriedOut() {
    let mut d = newDesk();
    let mut out = vec![];
    d.submitted("/undo".to_string(), 0, &mut out);
    assert!(out.iter().any(|e| matches!(e, Effect::Ask(Request::Undo, _))));
    assert!(!out.iter().any(|e| matches!(e, Effect::Send(_))));
}

#[test]
fn theHistoryIsBrowsed() {
    let mut d = newDesk();
    d.deck.panel.compose.history = History::new(vec!["old".to_string()]);
    let mut out = vec![];
    d.agentKey(key(KeyCode::Up), true, true, "draft", &mut out);
    assert!(out.iter().any(|e| matches!(e, Effect::SetInput(t) if t == "old")));
    out.clear();
    d.agentKey(key(KeyCode::Down), true, true, "old", &mut out);
    assert!(out.iter().any(|e| matches!(e, Effect::SetInput(t) if t == "draft")));
}

#[test]
fn pastesGoWhereTheFocusIs() {
    let mut d = newDesk();
    assert!(matches!(d.paste("a\r\nb", true), PasteAct::Insert(t) if t == "a\nb"));
    d.focus = Focus::Terminal;
    assert!(matches!(d.paste("a", true), PasteAct::Send(b) if b == b"\x1b[200~a\x1b[201~"));
    let a = pastedImage(3, 2, vec![]);
    assert_eq!(a.rgbaDimensions, Some((3, 2)));
}

// ---- the mouse ----

fn mouse(kind: MouseKind) -> MouseInput {
    MouseInput { kind, column: 5, row: 5, shift: false, alt: false }
}

fn pointer() -> Pointer {
    Pointer {
        selectingIn: None,
        lock: ScrollAxisLock::new(0),
        inputRect: Rect { x: 0, y: 20, width: 40, height: 3 },
    }
}

#[test]
fn coveredPanesGetNoClicks() {
    let mut d = newDesk();
    d.deck.tasks = Some(JobsPanel::new(vec![]));
    let mut out = vec![];
    assert_eq!(d.mouseGate(mouse(MouseKind::DownLeft), &mut out), MouseGate::Swallowed);
    d.deck.tasks = None;
    assert_eq!(d.mouseGate(mouse(MouseKind::DownLeft), &mut out), MouseGate::Through);
}

#[test]
fn theWheelScrollsAlongOneAxis() {
    let mut d = newDesk();
    let mut p = pointer();
    let spot = Some(Spot { panel: PanelId::Agent, col: 5, gridLine: 5 });
    d.wheel(&mut p, mouse(MouseKind::ScrollUp), spot, 1_000);
    let offset = d.deck.panel.scroll.offset;
    assert!(offset > 0);
    assert!(matches!(
        d.wheel(&mut p, mouse(MouseKind::ScrollLeft), spot, 1_010),
        MouseStep::Ignored | MouseStep::Done
    ));
    assert_eq!(d.deck.panel.scroll.offset, offset);
    d.wheel(&mut p, mouse(MouseKind::ScrollDown), spot, 1_020);
    assert!(d.deck.panel.scroll.offset < offset);
}

#[test]
fn selectionsBeginExtendAndEnd() {
    let mut d = newDesk();
    let mut p = pointer();
    let mut out = vec![];
    let spot = Some(Spot { panel: PanelId::Terminal, col: 5, gridLine: 5 });
    let step = d.handleMouse(&mut p, mouse(MouseKind::DownLeft), spot, 0, &mut out);
    assert!(matches!(step, MouseStep::Begin { panel: PanelId::Terminal, rectangle: false }));
    assert_eq!(d.focus, Focus::Terminal);
    let step = d.handleMouse(&mut p, mouse(MouseKind::DragLeft), spot, 1, &mut out);
    assert!(matches!(step, MouseStep::Extend(PanelId::Terminal)));
    let step = d.handleMouse(&mut p, mouse(MouseKind::UpLeft), spot, 2, &mut out);
    assert!(matches!(step, MouseStep::Finish(PanelId::Terminal)));
    assert_eq!(p.selectingIn, None);
}

#[test]
fn tabsAreClicked() {
    let mut d = newDesk();
    let mut out = vec![];
    d.tabClicked(&TabClick::Close("build".to_string()), &mut out);
    assert!(out
        .iter()
        .any(|e| matches!(e, Effect::Ask(Request::KillTerminal { name }, _) if name == "build")));
    d.tabClicked(&TabClick::NewTab, &mut out);
    assert!(out.iter().any(|e| matches!(e, Effect::Ask(Request::SpawnTerminal, _))));
}

#[test]
fn clicksFallIntoTheText() {
    let r = Rect { x: 10, y: 20, width: 40, height: 3 };
    let s = textSpot(r, 14, 21, false);
    assert!(s.col <= 4);
    assert!(s.row <= 1);
}

// ---- the bar ----

#[test]
fn theContextIsShownInPercent() {
    for t in (1usize..400_000).step_by(1_313) {
        for w in [1_000usize, 128_000, 200_000] {
            let pct = (t as f64 / w as f64 * 100.0).round() as u64;
            assert_eq!(formatContextPct(t, w), format!("ctx {pct}%"));
        }
    }
    assert_eq!(formatContextPct(0, 200_000), "");
    assert_eq!(formatContextPct(5, 0), "");
}

#[test]
fn theCacheCoolsDown() {
    let glyph = |at: Option<u64>, now: u64| cacheHeatSpans(true, at, now, Color::Black).unwrap();
    assert_eq!(glyph(Some(0), 59_999).style.fg, Some(Color::Red));
    assert_eq!(glyph(Some(0), 60_000).style.fg, Some(Color::LightRed));
    assert_eq!(glyph(Some(0), 180_000).style.fg, Some(Color::Yellow));
    assert_eq!(glyph(Some(0), 300_000).style.fg, Some(Color::Cyan));
    assert_eq!(glyph(None, 0).text, "\u{25CB}");
    assert!(cacheHeatSpans(false, Some(0), 0, Color::Black).is_none());
}

#[test]
fn chipsAreHitWhereTheyStand() {
    let kinds: Vec<StatusChipKind> = chipsOf(&status()).iter().map(|c| c.kind).collect();
    assert_eq!(kinds, vec![StatusChipKind::Jobs, StatusChipKind::Cost, StatusChipKind::Context]);
    let bar = renderStatusBar(&status(), Some(7), Rect { x: 0, y: 9, width: 100, height: 1 }, 0);
    assert_eq!(bar.focus, Some(2));
    for (i, c) in bar.spots.iter().enumerate() {
        assert_eq!(chipHitTest(c.xs, 9, &bar.spots), Some((c.kind, i)));
        assert_eq!(chipHitTest(c.xs, 8, &bar.spots), None);
    }
    assert_eq!(clampFocus(Some(3), 0), None);
}

#[test]
fn theBarFollowsTheDesk() {
    let mut d = newDesk();
    let area = Rect { x: 0, y: 9, width: 100, height: 1 };
    d.deck.background.unread.insert(3);
    d.deck.usage.tokens = 500;
    d.statusFocus = Some(5);
    let s = d.statusInput(1_000, false, 0);
    assert!(s.background && !s.quitHint && s.running == 0);
    d.drawStatusBar(area, 1_000, false, 0);
    let kinds: Vec<StatusChipKind> = d.chips.iter().map(|c| c.kind).collect();
    assert_eq!(kinds, vec![StatusChipKind::Jobs, StatusChipKind::Context]);
    assert_eq!(d.statusFocus, Some(1));
    d.quitPress = Some(0);
    d.drawStatusBar(area, 1_000, false, 500);
    assert!(d.chips.is_empty());
}

#[test]
fn theCursorIsWhereOneWrites() {
    let inner = Rect { x: 10, y: 2, width: 20, height: 5 };
    let mut d = prompted();
    assert_eq!(d.cursorAt(Some((1, 1)), Some((2, 3)), inner), None);
    d.deck.panel.denyPending();
    assert_eq!(d.cursorAt(Some((1, 1)), Some((2, 3)), inner), Some((1, 1)));
    d.focus = Focus::Terminal;
    assert_eq!(d.cursorAt(Some((1, 1)), Some((2, 3)), inner), Some((12, 5)));
    assert_eq!(d.cursorAt(Some((1, 1)), None, inner), None);
}

#[test]
fn severalClicksSelectMore() {
    let (r, e) = (Some((1, 2)), Some((3, 4)));
    assert_eq!(expansionOf(PanelId::Input, 4, r, e), Expansion::Nothing);
    assert_eq!(expansionOf(PanelId::Agent, 1, r, e), Expansion::Nothing);
    assert_eq!(expansionOf(PanelId::Agent, 3, r, e), Expansion::Screen);
    assert_eq!(expansionOf(PanelId::Terminal, 4, r, e), Expansion::Lines(1, 2));
    assert_eq!(expansionOf(PanelId::Terminal, 4, None, e), Expansion::Screen);
    assert_eq!(expansionOf(PanelId::Agent, 4, r, e), Expansion::Lines(3, 4));
    assert_eq!(expansionOf(PanelId::Agent, 4, r, None), Expansion::Kept);
}

// ---- the screen ----

#[test]
fn theBarStandsBelowThePanes() {
    for h in [0u16, 1, 2, 10, 24, 60] {
        for w in [0u16, 1, 40, 80, 200] {
            let area = Rect { x: 0, y: 0, width: w, height: h };
            let a = screenAreas(&Layout::defaultPhase1(), &vec!["main".to_string()], "main", area);
            let theirs = ratatui::layout::Layout::vertical([
                ratatui::layout::Constraint::Min(1),
                ratatui::layout::Constraint::Length(1),
            ])
            .split(ratatui::layout::Rect { x: 0, y: 0, width: w, height: h });
            assert_eq!((a.top.y, a.top.height), (theirs[0].y, theirs[0].height), "{w}x{h}");
            assert_eq!((a.bar.y, a.bar.height), (theirs[1].y, theirs[1].height), "{w}x{h}");
            assert_eq!(a.term.width + a.agent.width, w);
        }
    }
}

#[test]
fn wrappedTerminalLinesAreJoined() {
    let cells = |t: &str| Some(t.chars().map(|c| c.to_string()).collect::<Vec<_>>());
    let lines = vec![
        TermLine { cells: cells("abcd"), wrapped: true },
        TermLine { cells: cells("ef  "), wrapped: false },
        TermLine { cells: cells("next"), wrapped: false },
    ];
    assert_eq!(extractTerminalUnwrapped(&lines, 0, 4, 4), "abcdef\nnext");
    assert_eq!(extractTerminalUnwrapped(&lines, 1, 2, 4), "bcdef\nne");
    let hidden = vec![TermLine { cells: None, wrapped: false }];
    assert_eq!(extractTerminalUnwrapped(&hidden, 0, 4, 4), "");
}

#[test]
fn theScreenIsDrawnAtMostThirtyTimesASecond() {
    assert!(!drawDue(false, 0, 1_000));
    assert!(!drawDue(true, 1_000, 1_032));
    assert!(drawDue(true, 1_000, 1_033));
}

#[test]
fn scrolledTerminalsSaySo() {
    assert_ne!(terminalTitle(0), terminalTitle(7));
    assert!(terminalTitle(7).contains('7'));
    let c = contentArea(Rect { x: 1, y: 1, width: 10, height: 4 });
    assert!(c.x >= 1 && c.width <= 10);
}

#[test]
fn theHelpIsDrawnInsideTheScreen() {
    assert!(!renderHelpPopup(Rect { x: 0, y: 0, width: 100, height: 40 }).is_empty());
}

// ---- the layout ----

#[test]
fn presetsAreAppliedAtOnce() {
    let mut out = vec![];
    let mut a = Arrangement::start(None, false, &mut out);
    assert_eq!(a.preset.as_deref(), Some("split"));
    a.toggle();
    a.handleKey(key(KeyCode::Down));
    assert_eq!(a.handleKey(key(KeyCode::Enter)), LayoutWork::Nothing);
    assert_eq!(a.preset.as_deref(), Some("wide"));
    assert_eq!(a.handleKey(key(KeyCode::Char('s'))), LayoutWork::Write);
    assert_eq!(a.savePath("/fallback".to_string()), "/fallback");
    a.saved("/fallback".to_string(), None, false, &mut out);
    assert_eq!(a.path.as_deref(), Some("/fallback"));
    assert_eq!(a.handleKey(key(KeyCode::Char('r'))), LayoutWork::Discover);
    a.reset(Some(DiscoveredLayout {
        path: "/found".to_string(),
        result: Ok(builtinPresets()[2].layout.copy()),
    }));
    assert_eq!(a.preset.as_deref(), Some("focus"));
    assert_eq!(a.handleKey(key(KeyCode::Esc)), LayoutWork::Nothing);
    assert!(a.panel.is_none());
}

#[test]
fn badLayoutFilesAreIgnored() {
    let mut out = vec![];
    let a = Arrangement::start(
        Some(DiscoveredLayout { path: "/bad".to_string(), result: Err("parse failed".to_string()) }),
        false,
        &mut out,
    );
    assert_eq!(a.preset.as_deref(), Some("split"));
    assert!(out.iter().any(|e| matches!(
        e,
        Effect::Record(n) if n.detail.as_deref() == Some("/bad: parse failed")
    )));
}
