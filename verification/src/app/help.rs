//! The popup that lists the hotkeys.

use vstd::prelude::*;
use vstd::string::*;
use crate::draw::{
    Color, Draw, DrawV, Line, Rect, Span, SpanV, Style, addLine, colored, draws, emit,
    insideBorders, inside_borders, line_views, min, minus, span, spanOf, span_views, sv,
};
use crate::text::{padRight, pad_right};

verus! {

/// The hotkeys and what they do.
pub open spec fn help_rows() -> Seq<(Seq<char>, Seq<char>)> {
    seq![
        ("Tab"@, "Switch focus between terminal and agent"@),
        ("Esc"@, "Cancel running turn / close overlay"@),
        ("Ctrl+T"@, "Spawn a new terminal"@),
        ("Ctrl+B"@, "Hand a running shell to the agent (background)"@),
        ("Ctrl+1..9"@, "Jump to terminal tab N"@),
        ("Ctrl+Q \u{00d7}2"@, "Quit flatline (double-tap)"@),
        ("Ctrl+L"@, "Force terminal redraw"@),
        ("Ctrl+H"@, "Toggle this help"@),
        ("\u{2191} / \u{2193}"@, "Scroll / history navigation in agent panel"@),
        (
            "\u{2193} (after history)"@,
            "Focus the status bar; \u{2190}/\u{2192} cycle, Enter opens"@,
        ),
    ]
}

/// The line of a hotkey.
pub open spec fn help_line(r: (Seq<char>, Seq<char>)) -> Seq<SpanV> {
    seq![
        sv("  "@, Style::plain()),
        sv(pad_right(r.0, 10), colored(Color::Cyan).bold()),
        sv("  "@, Style::plain()),
        sv(r.1, Style::plain()),
    ]
}

/// Where the popup stands: in the middle, with a border of the area left free.
pub open spec fn help_rect(area: Rect) -> Rect {
    let w = min(56, minus(area.width as int, 2));
    let h = min(14, minus(area.height as int, 2));
    Rect {
        x: (area.x + (area.width - w) / 2) as u16,
        y: (area.y + (area.height - h) / 2) as u16,
        width: w as u16,
        height: h as u16,
    }
}

/// The popup.
pub open spec fn help_draws(area: Rect) -> Seq<DrawV> {
    let r = help_rect(area);
    let look = Style::plain().bg(Color::Black).fg(Color::White);
    seq![
        DrawV::Clear { rect: r },
        DrawV::Frame {
            rect: r,
            title: sv(" hotkeys \u{2014} any key to dismiss "@, Style::plain()),
            border: look,
            fill: look,
        },
        DrawV::Para {
            rect: inside_borders(r),
            lines: Seq::new(10, |i: int| help_line(help_rows()[i])),
            style: Style::plain(),
        },
    ]
}

fn pushHelp(lines: &mut Vec<Line>, key: &str, what: &str)
    ensures
        line_views(final(lines)@) == line_views(old(lines)@).push(help_line((key@, what@))),
{
    let mut spans: Vec<Span> = Vec::new();
    spans.push(span("  ", Style::plain()));
    spans.push(spanOf(padRight(key, 10), colored(Color::Cyan).bold()));
    spans.push(span("  ", Style::plain()));
    spans.push(span(what, Style::plain()));
    proof {
        assert(span_views(spans@) =~= help_line((key@, what@)));
    }
    addLine(lines, Line { spans });
}

/// Draws the popup.
pub fn renderHelpPopup(area: Rect) -> (out: Vec<Draw>)
    requires
        area.wf(),
    ensures
        draws(out@) == help_draws(area),
{
    let most: u16 = area.width.saturating_sub(2);
    let w: u16 = if most < 56 {
        most
    } else {
        56
    };
    let tall: u16 = area.height.saturating_sub(2);
    let h: u16 = if tall < 14 {
        tall
    } else {
        14
    };
    let popup = Rect {
        x: area.x + (area.width - w) / 2,
        y: area.y + (area.height - h) / 2,
        width: w,
        height: h,
    };
    let look = Style::plain().bg(Color::Black).fg(Color::White);
    let mut out: Vec<Draw> = Vec::new();
    emit(&mut out, Draw::Clear { rect: popup });
    emit(
        &mut out,
        Draw::Frame {
            rect: popup,
            title: span(" hotkeys \u{2014} any key to dismiss ", Style::plain()),
            border: look,
            fill: look,
        },
    );
    let mut lines: Vec<Line> = Vec::new();
    pushHelp(&mut lines, "Tab", "Switch focus between terminal and agent");
    pushHelp(&mut lines, "Esc", "Cancel running turn / close overlay");
    pushHelp(&mut lines, "Ctrl+T", "Spawn a new terminal");
    pushHelp(&mut lines, "Ctrl+B", "Hand a running shell to the agent (background)");
    pushHelp(&mut lines, "Ctrl+1..9", "Jump to terminal tab N");
    pushHelp(&mut lines, "Ctrl+Q \u{00d7}2", "Quit flatline (double-tap)");
    pushHelp(&mut lines, "Ctrl+L", "Force terminal redraw");
    pushHelp(&mut lines, "Ctrl+H", "Toggle this help");
    pushHelp(
        &mut lines,
        "\u{2191} / \u{2193}",
        "Scroll / history navigation in agent panel",
    );
    pushHelp(
        &mut lines,
        "\u{2193} (after history)",
        "Focus the status bar; \u{2190}/\u{2192} cycle, Enter opens",
    );
    proof {
        let all = Seq::new(10, |i: int| help_line(help_rows()[i]));
        assert(line_views(lines@) =~= all);
    }
    emit(
        &mut out,
        Draw::Para { rect: insideBorders(popup), lines, style: Style::plain() },
    );
    proof {
        assert(draws(out@) =~= help_draws(area));
    }
    out
}

} // verus!
