use deck::agent_panel::blocks::BlockSet;
use deck::agent_panel::conversation::EntryInput;
use deck::agent_panel::entry::PanelEntry;
use deck::agent_panel::entry_rows::Throbber;
use deck::agent_panel::render::Material;
use deck::agent_panel::rows::Block;
use deck::agent_panel::selecting::Selection;
use deck::agent_panel::state::{AgentPanel, PermitOrigin};
use deck::draw::{Draw, Line, Rect, Span, Style};
use deck::history::History;
use deck::impact::ShellImpact;
use ratatui::backend::TestBackend;
use ratatui::buffer::Buffer;
use ratatui::widgets::Widget;
use ratatui::Terminal;

fn newPanel() -> AgentPanel {
    AgentPanel::new(History::new(vec![]), 0)
}

fn lines(text: &str) -> Vec<Line> {
    text.lines()
        .map(|l| Line { spans: vec![Span { text: l.to_string(), style: Style::plain() }] })
        .collect()
}

fn throbber() -> Throbber {
    Throbber {
        glyph: Span { text: "*".to_string(), style: Style::plain() },
        second: Line { spans: vec![] },
    }
}

fn material(panel: &AgentPanel) -> Material {
    Material {
        inputs: panel
            .entries
            .iter()
            .map(|e| {
                let text = match e {
                    PanelEntry::Assistant(t) => t.as_str(),
                    _ => "",
                };
                EntryInput { blocks: vec![Block::Text(lines(text))] }
            })
            .collect(),
        stream: vec![],
        command: vec![],
        commandWidth: 0,
        throbber: throbber(),
    }
}

fn lineOf(l: &Line) -> ratatui::text::Line<'static> {
    ratatui::text::Line::from(
        l.spans.iter().map(|s| ratatui::text::Span::raw(s.text.clone())).collect::<Vec<_>>(),
    )
}

fn rectOf(r: Rect) -> ratatui::layout::Rect {
    ratatui::layout::Rect { x: r.x, y: r.y, width: r.width, height: r.height }
}

fn paint(draws: &[Draw], buf: &mut Buffer) {
    for d in draws {
        match d {
            Draw::Clear { rect } | Draw::Fill { rect, .. } => {
                ratatui::widgets::Clear.render(rectOf(*rect), buf)
            }
            Draw::Frame { rect, title, .. } => ratatui::widgets::Block::default()
                .title(title.text.clone())
                .borders(ratatui::widgets::Borders::ALL)
                .render(rectOf(*rect), buf),
            Draw::Text { x, y, text, width } => {
                buf.set_stringn(*x, *y, &text.text, *width as usize, ratatui::style::Style::new());
            }
            Draw::Para { rect, lines, .. } => {
                ratatui::widgets::Paragraph::new(lines.iter().map(lineOf).collect::<Vec<_>>())
                    .render(rectOf(*rect), buf)
            }
            Draw::Row { x, y, line, width, until } => {
                let (end, _) = buf.set_line(*x, *y, &lineOf(line), *width);
                for column in end..*until {
                    buf[(column, *y)].reset();
                }
            }
        }
    }
}

fn render(panel: &mut AgentPanel, buf: &mut Buffer) {
    let area = Rect { x: 0, y: 0, width: buf.area.width, height: buf.area.height };
    let m = material(panel);
    let p = panel.render(area, true, 1, &m, 0);
    paint(&p.under, buf);
    paint(&p.over, buf);
}

fn snapshotBuffer(terminal: &Terminal<TestBackend>) -> Vec<String> {
    let buf = terminal.backend().buffer();
    let a = buf.area();
    (a.y..a.y + a.height)
        .map(|y| {
            (a.x..a.x + a.width)
                .map(|x| {
                    let s = buf[(x, y)].symbol();
                    if s.is_empty() {
                        " ".to_string()
                    } else {
                        s.to_string()
                    }
                })
                .collect()
        })
        .collect()
}

// No glyph of two columns: the test backend is never sent the second of their cells.
fn message() -> String {
    let mut text = String::new();
    for i in 0..12 {
        text.push_str(&format!("\u{2022} point {i}: the bottom line is \u{201C}caf\u{E9}\u{201D}.\n\n"));
        text.push_str("- a list item that is long enough to be wrapped \u{2014} twice even\n");
        text.push_str("\tindented with a tab\n\n");
    }
    text
}

fn talkative() -> AgentPanel {
    let mut panel = newPanel();
    let msg = message();
    for i in 0..4 {
        panel.entries.push(PanelEntry::Assistant(format!("[msg {i}]\n\n{msg}")));
    }
    panel
}

const PATTERN: [i32; 17] =
    [20, -15, 25, -30, 40, -10, -35, 50, -45, 15, -25, 35, -50, 28, -18, 42, -38];

fn whip(panel: &mut AgentPanel, terminal: &mut Terminal<TestBackend>) {
    for _ in 0..10 {
        for step in PATTERN {
            if step > 0 {
                panel.scrollUp(step as u16);
            } else {
                panel.scrollDown((-step) as u16);
            }
            terminal.draw(|f| render(panel, f.buffer_mut())).unwrap();
        }
    }
}

#[test]
fn returningToInitialScrollProducesIdenticalBuffer() {
    let mut terminal = Terminal::new(TestBackend::new(48, 40)).unwrap();
    let mut panel = talkative();

    panel.scroll.offset = 0;
    terminal.draw(|f| render(&mut panel, f.buffer_mut())).unwrap();
    let baseline = snapshotBuffer(&terminal);

    whip(&mut panel, &mut terminal);

    panel.scroll.offset = 0;
    terminal.draw(|f| render(&mut panel, f.buffer_mut())).unwrap();
    let after = snapshotBuffer(&terminal);
    assert_eq!(baseline, after, "ghost glyphs");
}

#[test]
fn scrollingUnderAPromptLeavesNothingBehind() {
    let mut terminal = Terminal::new(TestBackend::new(48, 40)).unwrap();
    let mut panel = talkative();
    panel.showToolRequest(
        "bash",
        "ls",
        Some("ls".to_string()),
        vec!["ls *".to_string()],
        None,
        Some("lists files".to_string()),
        ShellImpact::Read,
        PermitOrigin::Top,
    );
    panel.scroll.offset = 0;
    terminal.draw(|f| render(&mut panel, f.buffer_mut())).unwrap();
    let baseline = snapshotBuffer(&terminal);
    panel.scrollUp(7);
    terminal.draw(|f| render(&mut panel, f.buffer_mut())).unwrap();
    assert_ne!(baseline, snapshotBuffer(&terminal));
    whip(&mut panel, &mut terminal);
    panel.scroll.offset = 0;
    terminal.draw(|f| render(&mut panel, f.buffer_mut())).unwrap();
    assert_eq!(baseline, snapshotBuffer(&terminal));
}

#[test]
fn fastScrollLeavesNoGhostGlyphsInGutter() {
    let mut terminal = Terminal::new(TestBackend::new(48, 40)).unwrap();
    let mut panel = talkative();
    terminal.draw(|f| render(&mut panel, f.buffer_mut())).unwrap();
    whip(&mut panel, &mut terminal);
    panel.scroll.offset = 0;
    terminal.draw(|f| render(&mut panel, f.buffer_mut())).unwrap();

    let buf = terminal.backend().buffer();
    let (x0, x1) = (1u16, 47u16);
    let (y0, y1) = (1u16, 34u16);
    let mut stray = vec![];
    for y in y0..y1 {
        let mut lastContentCol: i32 = -1;
        for x in x0..x1 {
            if !buf[(x, y)].symbol().trim().is_empty() {
                lastContentCol = x as i32;
            }
        }
        for x in (lastContentCol + 1).max(x0 as i32) as u16..x1 {
            let sym = buf[(x, y)].symbol();
            if !sym.chars().all(|c| c == ' ') {
                stray.push((x, y, sym.to_string()));
            }
        }
    }
    assert!(stray.is_empty(), "{} stray glyph(s): {stray:?}", stray.len());
}

#[test]
fn readersKeepTheirPlace() {
    let mut terminal = Terminal::new(TestBackend::new(48, 40)).unwrap();
    let mut panel = talkative();
    terminal.draw(|f| render(&mut panel, f.buffer_mut())).unwrap();
    panel.scrollUp(30);
    terminal.draw(|f| render(&mut panel, f.buffer_mut())).unwrap();
    let before = snapshotBuffer(&terminal);
    panel.entries.push(PanelEntry::Assistant("one more\nline".to_string()));
    terminal.draw(|f| render(&mut panel, f.buffer_mut())).unwrap();
    let after = snapshotBuffer(&terminal);
    assert_eq!(before[1..34], after[1..34]);
    assert!(panel.scroll.offset > 30);
}

#[test]
fn thePanelSharesItsRowsAsTheSolverDoes() {
    for height in 0..40u16 {
        for wanted in [1u16, 3, 8] {
            let mut panel = newPanel();
            let m = material(&panel);
            let area = Rect { x: 0, y: 0, width: 40, height };
            let p = panel.render(area, true, wanted, &m, 0);
            if height >= 5 {
                assert!(p.chat.height >= 1, "{height} {wanted}");
                assert_eq!(p.chat.y, 1);
                assert_eq!(
                    p.chat.height + 1 + p.input.height,
                    height - 2,
                    "{height} {wanted}"
                );
            }
        }
    }
}

#[test]
fn aTooLowPanelIsOnlyAFrame() {
    let mut panel = talkative();
    let m = material(&panel);
    let p = panel.render(Rect { x: 0, y: 0, width: 40, height: 4 }, true, 1, &m, 0);
    assert_eq!(p.under.len(), 1);
    assert!(p.over.is_empty());
}

#[test]
fn aTranscriptIsDrawnAlone() {
    let mut panel = talkative();
    let m = material(&panel);
    let area = Rect { x: 0, y: 0, width: 40, height: 10 };
    let draws = panel.renderChatOnly(area, &m, 0);
    assert_eq!(draws.len(), 10);
    assert!(panel.renderChatOnly(Rect { x: 0, y: 0, width: 4, height: 10 }, &m, 0).is_empty());
}

#[test]
fn selectionsAreUnwrapped() {
    let mut panel = newPanel();
    panel.entries.push(PanelEntry::Assistant("a line that has to be wrapped here".to_string()));
    let mut buf = Buffer::empty(ratatui::layout::Rect::new(0, 0, 20, 20));
    render(&mut panel, &mut buf);
    let cont = &panel.shown.continuation;
    let first = cont.iter().position(|c| *c).expect("a wrapped line");
    let texts = &panel.shown.lineTexts;
    let at = |k: usize| k as i32 - panel.scroll.lastY as i32 - panel.scroll.offset as i32;
    let cells = |k: usize| Some(texts[k].chars().map(|c| c.to_string()).collect::<Vec<String>>());
    let s = Selection {
        startCol: 0,
        startLine: at(first - 1),
        endCol: 18,
        endLine: at(first),
    };
    let text = panel.extractUnwrappedText(Some(s), &vec![cells(first - 1), cells(first)], 18);
    assert!(!text.contains('\n'), "{text:?}");
    assert_eq!(panel.extractUnwrappedText(None, &vec![], 18), "");
}

#[test]
fn messagesHaveBounds() {
    let mut panel = newPanel();
    panel.entries.push(PanelEntry::User("hello".to_string()));
    panel.entries.push(PanelEntry::Assistant("one\ntwo".to_string()));
    let mut buf = Buffer::empty(ratatui::layout::Rect::new(0, 0, 40, 20));
    render(&mut panel, &mut buf);
    let inputs = material(&panel).inputs;
    let shift = panel.scroll.lastY as i32 + panel.scroll.offset as i32;
    let b = panel
        .entryBoundsAtGridLine(-shift, &inputs, &vec![], &throbber(), 0)
        .expect("the first message");
    assert_eq!(b.0, -shift);
    assert!(b.1 >= b.0);
    let none = panel.entryBoundsAtGridLine(10_000, &inputs, &vec![], &throbber(), 0);
    assert!(none.is_none());
}

#[test]
fn longCodeBlocksAreCollapsed() {
    let mut panel = newPanel();
    let short = panel.code.codePlan((0, 0), 3, 0);
    assert_eq!((short.visible, short.top), (3, None));
    let long = panel.code.codePlan((0, 0), 1_000, 0);
    assert!(long.visible < 1_000);
    assert_eq!(long.top, Some(format!("\u{25BE}{}", 1_000 - long.visible)));
    panel.code.expanded = BlockSet { items: vec![(0, 0)] };
    let all = panel.code.codePlan((0, 0), 1_000, 0);
    assert_eq!(all.visible, 1_000);
    assert_eq!(all.bottom, Some("\u{25B4}".to_string()));
}

#[test]
fn promptsAreDrawn() {
    let mut panel = newPanel();
    panel.pushUser("go", 0);
    panel.showToolRequest(
        "bash",
        "ls",
        Some("ls".to_string()),
        vec!["ls *".to_string()],
        None,
        Some("lists files".to_string()),
        ShellImpact::Read,
        PermitOrigin::Top,
    );
    let mut out = vec![];
    panel.renderPermitInline(&mut out, &lines("ls"), 2, Rect { x: 0, y: 0, width: 40, height: 8 });
    assert_eq!(out.len(), 1);
    panel.renderPermitInline(&mut out, &lines("ls"), 2, Rect { x: 0, y: 0, width: 7, height: 8 });
    assert_eq!(out.len(), 1);
    panel.permit.scrollX = 500;
    panel.clampPermitScroll(100, 40);
    assert_eq!(panel.permit.scrollX, 62);
    let area = Rect { x: 0, y: 0, width: 40, height: 20 };
    let m = Material { commandWidth: 50, ..material(&panel) };
    panel.render(area, true, 1, &m, 0);
    assert_eq!(panel.permit.scrollX, 50 - (40 - 2 - 1 - 1 - 2));
    let m = Material { commandWidth: 10, ..material(&panel) };
    panel.render(area, true, 1, &m, 0);
    assert_eq!(panel.permit.scrollX, 0);
    panel.permit.scrollX = 9;
    panel.renderPermitInline(&mut out, &lines("ls"), 2, area);
    assert_eq!(panel.permit.scrollX, 0);
}

#[test]
fn completionsAreHinted() {
    let mut panel = newPanel();
    panel.updateCompletion("/ta");
    let mut out = vec![];
    let area = Rect { x: 0, y: 0, width: 40, height: 1 };
    panel.renderGhost(&mut out, "/ta", 3, 0, area);
    let text: String = out
        .iter()
        .map(|d| match d {
            Draw::Text { text, .. } => text.text.clone(),
            _ => String::new(),
        })
        .collect();
    assert!(text.starts_with("sks"), "{text:?}");
}
