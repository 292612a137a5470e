use deck::draw::Rect;
use deck::keys::{KeyCode, KeyEvent};
use deck::layout::control_panel::{
    builtinPresets, matchPresetName, renderDiagram, ControlPanel, PanelAction,
};
use deck::layout::discovery::{
    choosePath, loadAt, walkUp, Candidate, Loaded, LAYOUT_FILENAME, PROJECT_DIR,
};
use deck::layout::{splitOfMain, Layout, Orient, WindowId};

fn rect(w: u16, h: u16) -> Rect {
    Rect { x: 0, y: 0, width: w, height: h }
}

fn key(code: KeyCode) -> KeyEvent {
    KeyEvent::plain(code)
}

fn actionName(a: &PanelAction) -> &'static str {
    match a {
        PanelAction::Stay => "Stay",
        PanelAction::Close => "Close",
        PanelAction::ApplyPreset { .. } => "ApplyPreset",
        PanelAction::Save => "Save",
        PanelAction::Reset => "Reset",
    }
}

fn terminalWidth(l: &Layout) -> u16 {
    let areas = l.computeAreas(rect(100, 30));
    areas.iter().find(|a| matches!(a.window, WindowId::Terminal(_))).unwrap().rect.width
}

// ---- the tree ----

#[test]
fn defaultPhase1Splits60_40() {
    let layout = Layout::defaultPhase1();
    let areas = layout.computeAreas(rect(100, 30));
    assert_eq!(areas.len(), 2);
    let term = &areas[0];
    let agent = &areas[1];
    assert!(matches!(&term.window, WindowId::Terminal(n) if n == "main"));
    assert_eq!(agent.window, WindowId::AgentPanel);
    assert_eq!(term.rect.width, 60);
    assert_eq!(agent.rect.width, 40);
    assert!(term.inTabs);
    assert!(!agent.inTabs);
}

#[test]
fn addRemoveTerminal() {
    let mut layout = Layout::defaultPhase1();
    layout.addTerminal("build");
    layout.addTerminal("logs");
    let areas = layout.computeAreas(rect(100, 30));
    let active = &areas[0];
    assert_eq!(active.tabSiblings.len(), 3);
    assert!(matches!(&active.tabSiblings[0].0, WindowId::Terminal(n) if n == "main"));
    assert!(matches!(&active.tabSiblings[1].0, WindowId::Terminal(n) if n == "build"));
    assert!(matches!(&active.tabSiblings[2].0, WindowId::Terminal(n) if n == "logs"));
    assert!(layout.removeTerminal("build"));
    assert!(!layout.removeTerminal("nope"));
}

#[test]
fn setActiveTerminal() {
    let mut layout = Layout::defaultPhase1();
    layout.addTerminal("build");
    assert!(layout.setActiveTerminal("build"));
    assert_eq!(layout.activeTerminalName(), Some("build"));
    assert!(!layout.setActiveTerminal("nope"));
}

#[test]
fn defaultPhase1MatchesLegacyHardcodedSplit() {
    for (w, h) in [(80, 24), (100, 30), (132, 50), (200, 75), (40, 20), (300, 100)] {
        let area = ratatui::layout::Rect { x: 0, y: 0, width: w, height: h };
        let direct = ratatui::layout::Layout::default()
            .direction(ratatui::layout::Direction::Horizontal)
            .constraints([
                ratatui::layout::Constraint::Percentage(60),
                ratatui::layout::Constraint::Percentage(40),
            ])
            .split(area);

        let layout = Layout::defaultPhase1();
        let areas = layout.computeAreas(rect(w, h));
        let termRect = areas
            .iter()
            .find(|a| matches!(a.window, WindowId::Terminal(_)))
            .map(|a| a.rect)
            .unwrap();
        let agentRect = areas
            .iter()
            .find(|a| a.window == WindowId::AgentPanel)
            .map(|a| a.rect)
            .unwrap();

        let same = |r: Rect, l: ratatui::layout::Rect| {
            r.x == l.x && r.y == l.y && r.width == l.width && r.height == l.height
        };
        assert!(
            same(termRect, direct[0]),
            "terminal rect mismatch at {w}x{h}: ratatui={:?} layout={:?}",
            direct[0],
            termRect,
        );
        assert!(
            same(agentRect, direct[1]),
            "agent rect mismatch at {w}x{h}: ratatui={:?} layout={:?}",
            direct[1],
            agentRect,
        );
    }
}

#[test]
fn duplicateAddIgnored() {
    let mut layout = Layout::defaultPhase1();
    layout.addTerminal("main");
    let areas = layout.computeAreas(rect(100, 30));
    let active = &areas[0];
    assert_eq!(active.tabSiblings.len(), 1);
}

#[test]
fn splitsAreCutAtTheNearestCell() {
    for percent in 5u32..=95 {
        for size in [0u16, 1, 2, 3, 7, 10, 33, 50, 79, 80, 101, 255, 1000, 4097, 30_001, 65_530] {
            for vertical in [false, true] {
                let l = Layout::Split {
                    orient: if vertical { Orient::Vertical } else { Orient::Horizontal },
                    ratio: percent * 10_000,
                    a: Box::new(Layout::Window(WindowId::Terminal("t".to_string()))),
                    b: Box::new(Layout::Window(WindowId::AgentPanel)),
                };
                let area = Rect { x: 3, y: 5, width: size, height: size };
                let areas = l.computeAreas(area);
                let n = |r: Rect| if vertical { r.height } else { r.width };
                let at = |r: Rect| if vertical { r.y } else { r.x };
                let first = (size as u32 * percent + 50) / 100;
                assert_eq!(n(areas[0].rect) as u32, first, "{percent} of {size}");
                assert_eq!(n(areas[1].rect), size - n(areas[0].rect));
                assert_eq!(at(areas[1].rect), at(areas[0].rect) + n(areas[0].rect));
            }
        }
    }
}

#[test]
fn ratiosAreKeptBetween5And95Percent() {
    for (ratio, width) in [(0u32, 5u16), (10_000, 5), (999_999, 95), (4_000_000_000, 95)] {
        let l = Layout::Split {
            orient: Orient::Horizontal,
            ratio,
            a: Box::new(Layout::Window(WindowId::Terminal("t".to_string()))),
            b: Box::new(Layout::Window(WindowId::AgentPanel)),
        };
        assert_eq!(terminalWidth(&l), width);
    }
}

#[test]
fn removingUndoesAdding() {
    let mut layout = Layout::defaultPhase1();
    layout.addTerminal("build");
    assert!(layout.removeTerminal("build"));
    assert_eq!(format!("{:?}", layout), format!("{:?}", Layout::defaultPhase1()));
}

#[test]
fn aTreeWithoutWindowsShowsNothing() {
    let l = Layout::Tabs { active: 0, children: vec![] };
    assert!(l.computeAreas(rect(10, 10)).is_empty());
    assert!(l.firstWindow().is_none());
}

// ---- the control panel ----

#[test]
fn navigateAndApplyPreset() {
    let mut panel = ControlPanel::new(Layout::defaultPhase1(), None);
    assert!(matches!(panel.handleKey(key(KeyCode::Down)), PanelAction::Stay));
    match panel.handleKey(key(KeyCode::Enter)) {
        PanelAction::ApplyPreset { name, layout } => {
            assert_eq!(name, "wide");
            assert_eq!(terminalWidth(&layout), 50);
        }
        other => panic!("expected ApplyPreset, got {}", actionName(&other)),
    }
}

#[test]
fn dirtyEscPromptsAndYDiscards() {
    let mut panel = ControlPanel::new(Layout::defaultPhase1(), None);
    panel.confirmApplied("wide".to_string(), builtinPresets()[1].layout.copy());
    assert!(matches!(panel.handleKey(key(KeyCode::Esc)), PanelAction::Stay));
    assert!(matches!(panel.handleKey(key(KeyCode::Char('y'))), PanelAction::Close));
}

#[test]
fn dirtyEscNCancelsConfirm() {
    let mut panel = ControlPanel::new(Layout::defaultPhase1(), None);
    panel.confirmApplied("focus".to_string(), builtinPresets()[2].layout.copy());
    assert!(matches!(panel.handleKey(key(KeyCode::Esc)), PanelAction::Stay));
    assert!(matches!(panel.handleKey(key(KeyCode::Char('n'))), PanelAction::Stay));
    assert!(matches!(panel.handleKey(key(KeyCode::Esc)), PanelAction::Stay));
}

#[test]
fn cleanEscClosesImmediately() {
    let mut panel = ControlPanel::new(Layout::defaultPhase1(), None);
    assert!(matches!(panel.handleKey(key(KeyCode::Esc)), PanelAction::Close));
}

#[test]
fn savedClearsDirty() {
    let mut panel = ControlPanel::new(Layout::defaultPhase1(), None);
    panel.confirmApplied("wide".to_string(), builtinPresets()[1].layout.copy());
    match panel.handleKey(key(KeyCode::Char('s'))) {
        PanelAction::Save => {}
        other => panic!("expected Save, got {}", actionName(&other)),
    }
    panel.confirmSaved();
    assert!(matches!(panel.handleKey(key(KeyCode::Esc)), PanelAction::Close));
}

#[test]
fn matchPresetNameTolerantOfRuntimeTabsContent() {
    let mut live = builtinPresets()[0].layout.copy();
    live.addTerminal("build");
    live.addTerminal("logs");
    assert_eq!(matchPresetName(&live), Some("split".to_string()));
}

#[test]
fn matchPresetNameRejectsDifferentChildKinds() {
    let bogus = Layout::Split {
        orient: Orient::Horizontal,
        ratio: 600_000,
        a: Box::new(Layout::Window(WindowId::AgentPanel)),
        b: Box::new(Layout::Tabs {
            active: 0,
            children: vec![Layout::Window(WindowId::Terminal("main".to_string()))],
        }),
    };
    assert_eq!(matchPresetName(&bogus), None);
}

#[test]
fn presetsAllUseTabsContainerForTerminals() {
    for preset in builtinPresets() {
        match &preset.layout {
            Layout::Split { a, .. } => match a.as_ref() {
                Layout::Tabs { children, .. } => {
                    assert!(
                        children
                            .iter()
                            .any(|c| matches!(c, Layout::Window(WindowId::Terminal(_)))),
                        "preset {} has empty Tabs container",
                        preset.name,
                    );
                }
                other => panic!(
                    "preset {} left side must be Tabs, got {:?}",
                    preset.name, other,
                ),
            },
            other => panic!("preset {} root must be Split, got {:?}", preset.name, other),
        }
    }
}

#[test]
fn presetsAreKnownWithinAPercent() {
    for (ratio, name) in [
        (610_000u32, Some("split")),
        (590_000, Some("split")),
        (510_000, Some("wide")),
        (490_000, Some("wide")),
        (810_000, Some("focus")),
        (790_000, Some("focus")),
        (611_000, None),
        (700_000, None),
    ] {
        let l = splitOfMain(ratio);
        assert_eq!(matchPresetName(&l).as_deref(), name, "{ratio}");
    }
}

#[test]
fn diagramsTakeAnyRatio() {
    let last = |ratio: u32| {
        let lines = renderDiagram(&splitOfMain(ratio), 40, 10);
        lines.last().unwrap().spans[0].text.clone()
    };
    for ratio in [600_000u32, 125_000, 1_000_000, 1_004_000, 2_500_000] {
        let r = f64::from(ratio) / 1_000_000.0;
        assert_eq!(last(ratio), format!("ratio: {:.0}/{:.0}", r * 100.0, (1.0 - r) * 100.0));
    }
    assert_eq!(last(u32::MAX), "ratio: 429497/-429397");
}

#[test]
fn resettingGoesBackToAPreset() {
    let mut panel = ControlPanel::new(Layout::defaultPhase1(), None);
    assert!(matches!(panel.handleKey(key(KeyCode::Char('r'))), PanelAction::Reset));
    panel.resetTo(builtinPresets()[2].layout.copy(), Some("focus".to_string()));
    assert_eq!(panel.selected, 2);
    assert!(matches!(panel.handleKey(key(KeyCode::Esc)), PanelAction::Close));
}

// ---- finding the file ----

fn at(dir: &str, exists: bool) -> Candidate {
    Candidate { path: format!("{dir}/{PROJECT_DIR}/{LAYOUT_FILENAME}"), exists }
}

#[test]
fn discoveryWalksUpToParent() {
    let walk = vec![at("/root/sub/sub2", false), at("/root/sub", false), at("/root", true)];
    let path = walkUp(&walk).expect("layout should be discovered");
    assert_eq!(path, "/root/.flatline/layout.toml");
    let found = loadAt(path, Loaded::Parsed(Layout::defaultPhase1()));
    assert!(found.result.is_ok(), "well-formed file should parse: {found:?}");
}

#[test]
fn discoveryReturnsNoneWhenNothingExists() {
    let walk = vec![at("/tmp/x", false), at("/tmp", false), at("", false)];
    let there = Candidate { path: "/home/me/.config/flatline/layout.toml".to_string(), exists: true };
    let gone = Candidate { path: there.path.clone(), exists: false };
    assert!(choosePath(&walk, &Some(there)).is_some());
    assert!(
        choosePath(&walk, &Some(gone)).is_none(),
        "no layout anywhere should produce None"
    );
    assert!(choosePath(&walk, &None).is_none());
}

#[test]
fn discoveryReturnsParseErrorForMalformedFile() {
    let text = "= not = a = valid = toml = file =";
    let error = text.parse::<toml::Table>().unwrap_err().to_string();
    let found = loadAt("layout.toml".to_string(), Loaded::ParseFailed(error));
    match found.result {
        Err(msg) => assert!(msg.contains("parse failed"), "expected parse failure, got: {msg}"),
        Ok(_) => panic!("malformed file should not parse"),
    }
}

#[test]
fn discoveryRejectsUnsupportedShape() {
    let bogus = Layout::Split {
        orient: Orient::Vertical,
        ratio: 500_000,
        a: Box::new(Layout::Window(WindowId::Terminal("main".to_string()))),
        b: Box::new(Layout::Window(WindowId::AgentPanel)),
    };
    let found = loadAt("layout.toml".to_string(), Loaded::Parsed(bogus));
    match found.result {
        Err(msg) => assert!(
            msg.contains("unsupported shape"),
            "expected unsupported-shape error, got: {msg}",
        ),
        Ok(_) => panic!("unsupported-shape layout should be rejected"),
    }
}

#[test]
fn closestLayoutWinsWalkUp() {
    let inner = Layout::Split {
        orient: Orient::Horizontal,
        ratio: 750_000,
        a: Box::new(Layout::Tabs {
            active: 0,
            children: vec![Layout::Window(WindowId::Terminal("main".to_string()))],
        }),
        b: Box::new(Layout::Window(WindowId::AgentPanel)),
    };
    let walk = vec![at("/outer/project", true), at("/outer", true)];
    let path = choosePath(&walk, &None).expect("layout discovered");
    assert_eq!(path, "/outer/project/.flatline/layout.toml");
    let layout = loadAt(path, Loaded::Parsed(inner)).result.expect("parses");
    assert_eq!(terminalWidth(&layout), 75, "closer (.flatline/) should win");
}

#[test]
fn unreadableFilesSaySo() {
    let found = loadAt("layout.toml".to_string(), Loaded::ReadFailed("denied".to_string()));
    assert_eq!(found.result.unwrap_err(), "read failed: denied");
}
