//! The visual lines of the entries that are no boxes.

use vstd::prelude::*;
use vstd::string::*;
use crate::agent_panel::entry::{WakeScheduleStatus, WakeV};
use crate::agent_panel::labels::{
    elapsed_compact, elapsedCompact, time_until, timeUntilLabel, wake_kind_label, wake_status_text,
    wakeKindLabel, wakeScheduleStatusText,
};
use crate::agent_panel::rows::{
    Page, Prefix, PrefixV, RowV, piece_rows, prefixFirstLine, pushWrapped, rv, text_rows,
};
use crate::draw::{
    Color, Line, Span, SpanV, Style, colored, copyLine, copySpan, lineOf, lineOf3, line_views, max,
    minus, span, spanOf, span_views, sv,
};
use crate::jobs_panel::WakeKind;
use crate::text::{
    byte_len, bytesUpTo, dec, decimal, endsWith, has_prefix, has_suffix, lines_of, linesOf,
    opt_text, repeatChar, repeated, startsWith, texts,
};
use crate::wrap::wrap_line;

verus! {

/// The frame of an animation: a glyph and the row below it.
pub struct Throbber {
    pub glyph: Span,
    pub second: Line,
}

/// A frame as a value.
pub ghost struct ThrobberV {
    pub glyph: SpanV,
    pub second: Seq<SpanV>,
}

impl View for Throbber {
    type V = ThrobberV;

    open spec fn view(&self) -> ThrobberV {
        ThrobberV { glyph: self.glyph@, second: self.second@ }
    }
}

/// Whole seconds from `since` to `now`, none where there is no start.
pub open spec fn seconds_since(since: Option<u64>, now: u64) -> nat {
    match since {
        Some(t) => (minus(now as int, t as int) / 1000) as nat,
        None => 0,
    }
}

/// Whole seconds from `since` to `now`.
pub fn secondsSince(since: Option<u64>, now: u64) -> (r: u64)
    ensures
        r == seconds_since(since, now),
{
    match since {
        Some(t) => now.saturating_sub(t) / 1000,
        None => 0,
    }
}

// ---- messages of the user ----

/// The style of a line of a message: the note on attachments is dimmed.
pub open spec fn user_style(l: Seq<char>) -> Style {
    if has_prefix(l, "[+"@) && has_suffix(l, "attached]"@) {
        colored(Color::DarkGray)
    } else {
        colored(Color::Cyan)
    }
}

/// The rows of the first `n` lines of a message.
pub open spec fn user_lines(l: Seq<Seq<char>>, n: int, width: int) -> Seq<RowV>
    decreases n,
{
    if n <= 0 {
        Seq::empty()
    } else {
        let r = user_lines(l, n - 1, width);
        let st = user_style(l[n - 1]);
        r + piece_rows(
            sv(
                if r.len() == 0 {
                    "\u{203A} "@
                } else {
                    "  "@
                },
                st,
            ),
            sv("  "@, st),
            Seq::empty(),
            wrap_line(seq![sv(l[n - 1], st)], minus(width, 2)),
        )
    }
}

/// The rows of a message of the user. One that ends with a line break has an
/// empty row at its end.
pub open spec fn user_rows(text: Seq<char>, width: int) -> Seq<RowV> {
    let l = lines_of(text);
    user_lines(l, l.len() as int, width) + (if text.len() > 0 && text.last() == '\n' {
        seq![rv(seq![sv("  "@, colored(Color::Cyan))])]
    } else {
        Seq::empty()
    })
}

/// Adds a message of the user.
pub fn pushUserRows(page: &mut Page, text: &str, width: u16)
    ensures
        final(page)@ == old(page)@.with_rows(user_rows(text@, width as int)),
{
    let v = linesOf(text);
    let ghost l = lines_of(text@);
    let room: usize = (width as usize).saturating_sub(2);
    let none: Vec<Span> = Vec::new();
    let base: usize = page.height();
    let mut i: usize = 0;
    proof {
        assert(span_views(none@) =~= Seq::empty());
        assert(page@.rows =~= old(page)@.rows + user_lines(l, 0, width as int));
    }
    while i < v.len()
        invariant
            i <= v@.len(),
            l == texts(v@),
            room == minus(width as int, 2),
            span_views(none@) == Seq::<SpanV>::empty(),
            base == old(page)@.rows.len(),
            page@ == old(page)@.with_rows(user_lines(l, i as int, width as int)),
        decreases v@.len() - i,
    {
        proof {
            assert(l[i as int] == v@[i as int]@);
        }
        let s = v[i].as_str();
        let style = if startsWith(s, "[+") && endsWith(s, "attached]") {
            colored(Color::DarkGray)
        } else {
            colored(Color::Cyan)
        };
        let head = if page.height() == base {
            span("\u{203A} ", style)
        } else {
            span("  ", style)
        };
        let rest = span("  ", style);
        let _ = pushWrapped(page, &head, &rest, &none, lineOf(span(s, style)), room);
        proof {
            assert(page@.rows =~= old(page)@.rows + user_lines(l, i + 1, width as int));
        }
        i = i + 1;
    }
    let n: usize = text.unicode_len();
    if n > 0 && text.get_char(n - 1) == '\n' {
        page.push(lineOf(span("  ", colored(Color::Cyan))), false);
    }
    proof {
        assert(page@.rows =~= old(page)@.rows + user_rows(text@, width as int));
    }
}

// ---- reasoning ----

/// The style of reasoning.
#[verifier::allow_in_spec]
pub fn reasoningStyle() -> Style
    returns
        colored(Color::DarkGray).italic(),
{
    colored(Color::DarkGray).italic()
}

/// The rows of `n` lines, each indented by two columns.
pub open spec fn indented_lines(l: Seq<Seq<char>>, n: int, style: Style, width: int) -> Seq<RowV>
    decreases n,
{
    if n <= 0 {
        Seq::empty()
    } else {
        indented_lines(l, n - 1, style, width) + piece_rows(
            sv("  "@, style),
            sv("  "@, style),
            Seq::empty(),
            wrap_line(seq![sv(l[n - 1], style)], minus(width, 2)),
        )
    }
}

/// The rows of a text, each indented by two columns.
pub open spec fn indented_rows(text: Seq<char>, style: Style, width: int) -> Seq<RowV> {
    let l = lines_of(text);
    indented_lines(l, l.len() as int, style, width)
}

/// Adds a text, each row indented by two columns.
pub fn pushIndented(page: &mut Page, text: &str, style: Style, width: u16)
    ensures
        final(page)@ == old(page)@.with_rows(indented_rows(text@, style, width as int)),
{
    let v = linesOf(text);
    let ghost l = lines_of(text@);
    let room: usize = (width as usize).saturating_sub(2);
    let none: Vec<Span> = Vec::new();
    let mut i: usize = 0;
    proof {
        assert(span_views(none@) =~= Seq::empty());
        assert(page@.rows =~= old(page)@.rows + indented_lines(l, 0, style, width as int));
    }
    while i < v.len()
        invariant
            i <= v@.len(),
            l == texts(v@),
            room == minus(width as int, 2),
            span_views(none@) == Seq::<SpanV>::empty(),
            page@ == old(page)@.with_rows(indented_lines(l, i as int, style, width as int)),
        decreases v@.len() - i,
    {
        proof {
            assert(l[i as int] == v@[i as int]@);
        }
        let head = span("  ", style);
        let _ = pushWrapped(
            page,
            &head,
            &head,
            &none,
            lineOf(span(v[i].as_str(), style)),
            room,
        );
        proof {
            assert(page@.rows =~= old(page)@.rows + indented_lines(
                l,
                i + 1,
                style,
                width as int,
            ));
        }
        i = i + 1;
    }
}

/// The triangle before something that can be shown or hidden.
pub open spec fn fold_icon(shown: bool) -> Seq<char> {
    if shown {
        "\u{25BE}"@
    } else {
        "\u{25B8}"@
    }
}

/// The header of a reasoning.
pub open spec fn reasoning_header(expanded: bool) -> RowV {
    rv(seq![sv(fold_icon(expanded) + " reasoning"@, colored(Color::DarkGray))])
}

/// Adds the header of a reasoning.
pub fn pushReasoningHeader(page: &mut Page, expanded: bool)
    ensures
        final(page)@ == old(page)@.with_row(reasoning_header(expanded)),
{
    let mut s = if expanded {
        String::from_str("\u{25BE}")
    } else {
        String::from_str("\u{25B8}")
    };
    s.append(" reasoning");
    page.push(lineOf(spanOf(s, colored(Color::DarkGray))), false);
}

/// The rows of a finished reasoning.
pub open spec fn reasoning_rows(text: Seq<char>, expanded: bool, width: int) -> Seq<RowV> {
    seq![reasoning_header(expanded)] + (if expanded {
        indented_rows(text, reasoningStyle(), width)
    } else {
        Seq::empty()
    })
}

/// Adds a finished reasoning.
pub fn pushReasoningRows(page: &mut Page, text: &str, expanded: bool, width: u16)
    ensures
        final(page)@ == old(page)@.with_rows(reasoning_rows(text@, expanded, width as int)),
{
    pushReasoningHeader(page, expanded);
    if expanded {
        pushIndented(page, text, reasoningStyle(), width);
    }
    proof {
        assert(page@.rows =~= old(page)@.rows + reasoning_rows(text@, expanded, width as int));
    }
}

// ---- one line behind a symbol ----

/// The rows of one text behind a symbol, all in one style.
pub open spec fn symbol_rows(
    text: Seq<char>,
    symbol: Seq<char>,
    style: Style,
    width: int,
) -> Seq<RowV> {
    text_rows(seq![seq![sv(text, style)]], 1, PrefixV { symbol, style }, true, false, width)
}

/// Adds one text behind a symbol.
pub fn pushSymbol(page: &mut Page, text: &str, symbol: &'static str, style: Style, width: u16)
    ensures
        final(page)@ == old(page)@.with_rows(symbol_rows(text@, symbol@, style, width as int)),
{
    let mut lines: Vec<Line> = Vec::new();
    lines.push(lineOf(span(text, style)));
    proof {
        assert(line_views(lines@) =~= seq![seq![sv(text@, style)]]);
    }
    prefixFirstLine(page, &lines, Prefix { symbol, style }, width);
}

// ---- a running tool ----

/// The rows of a running tool.
pub open spec fn active_rows(
    summary: Seq<char>,
    since: Option<u64>,
    t: ThrobberV,
    now: u64,
) -> Seq<RowV> {
    seq![
        rv(
            seq![
                t.glyph,
                sv(" "@, Style::plain()),
                sv(
                    summary + "  ("@ + dec(seconds_since(since, now)) + "s)"@,
                    colored(Color::Yellow),
                ),
            ],
        ),
        RowV { line: t.second, cont: true },
    ]
}

/// Adds a running tool.
pub fn pushActive(page: &mut Page, summary: &str, since: Option<u64>, t: &Throbber, now: u64)
    ensures
        final(page)@ == old(page)@.with_rows(active_rows(summary@, since, t@, now)),
{
    let mut s = String::from_str(summary);
    s.append("  (");
    s.append(decimal(secondsSince(since, now)).as_str());
    s.append("s)");
    page.push(
        lineOf3(
            copySpan(&t.glyph),
            span(" ", Style::plain()),
            spanOf(s, colored(Color::Yellow)),
        ),
        false,
    );
    page.push(copyLine(&t.second), true);
    proof {
        assert(page@.rows =~= old(page)@.rows + active_rows(summary@, since, t@, now));
    }
}

// ---- wake receipts ----

/// The first row of a wake receipt.
pub open spec fn wake_head(w: WakeV, now: u64) -> Seq<SpanV> {
    let status = wake_status_text(w.status, w.armed);
    seq![
        sv("\u{25F4} wake #"@ + dec(w.id as nat), colored(Color::Cyan)),
        sv(" \u{00B7} "@ + wake_kind_label(w.kind), colored(Color::Gray)),
        sv(" \u{00B7} "@ + status.0, status.1),
        sv(
            if w.armed && w.nextFireAt is Some {
                " \u{00B7} "@ + time_until(w.nextFireAt->0, now)
            } else {
                Seq::empty()
            },
            colored(Color::Gray),
        ),
        sv(
            if w.status == WakeScheduleStatus::Armed && w.nextFireAt is None {
                " \u{00B7} armed "@ + elapsed_compact(
                    (minus(now as int, w.registeredAt as int) / 1000) as nat,
                )
            } else {
                Seq::empty()
            },
            colored(Color::DarkGray),
        ),
    ]
}

/// What a wake is about: its prompt, or its summary.
pub open spec fn wake_detail(w: WakeV) -> Seq<char> {
    if w.prompt is Some && w.prompt->0.len() > 0 {
        w.prompt->0
    } else {
        w.summary
    }
}

/// The rows of a wake receipt.
pub open spec fn wake_rows(w: WakeV, width: int, now: u64) -> Seq<RowV> {
    let st = colored(Color::DarkGray);
    let d = wake_detail(w);
    seq![rv(wake_head(w, now))] + (if d.len() > 0 {
        piece_rows(
            sv("  "@, st),
            sv("  "@, st),
            Seq::empty(),
            wrap_line(seq![sv(d, st)], minus(width, 2)),
        )
    } else {
        Seq::empty()
    })
}

/// Adds a wake receipt.
pub fn pushWakeRows(
    page: &mut Page,
    id: u64,
    kind: WakeKind,
    summary: &String,
    prompt: &Option<String>,
    status: WakeScheduleStatus,
    armed: bool,
    nextFireAt: Option<u64>,
    firesSoFar: u64,
    registeredAt: u64,
    width: u16,
    now: u64,
)
    ensures
        final(page)@ == old(page)@.with_rows(
            wake_rows(
                WakeV {
                    id,
                    kind,
                    summary: summary@,
                    prompt: opt_text(*prompt),
                    status,
                    armed,
                    nextFireAt,
                    firesSoFar,
                    registeredAt,
                },
                width as int,
                now,
            ),
        ),
{
    let ghost w = WakeV {
        id,
        kind,
        summary: summary@,
        prompt: opt_text(*prompt),
        status,
        armed,
        nextFireAt,
        firesSoFar,
        registeredAt,
    };
    let mut a = String::from_str("\u{25F4} wake #");
    a.append(decimal(id).as_str());
    let mut b = String::from_str(" \u{00B7} ");
    b.append(wakeKindLabel(kind));
    let look = wakeScheduleStatusText(status, armed);
    let mut c = String::from_str(" \u{00B7} ");
    c.append(look.0);
    let mut d = String::new();
    match nextFireAt {
        Some(at) => {
            if armed {
                d = String::from_str(" \u{00B7} ");
                d.append(timeUntilLabel(at, now).as_str());
            }
        },
        None => {},
    }
    let mut e = String::new();
    if status == WakeScheduleStatus::Armed && nextFireAt.is_none() {
        e = String::from_str(" \u{00B7} armed ");
        e.append(elapsedCompact(now.saturating_sub(registeredAt) / 1000).as_str());
    }
    let mut spans: Vec<Span> = Vec::new();
    spans.push(spanOf(a, colored(Color::Cyan)));
    spans.push(spanOf(b, colored(Color::Gray)));
    spans.push(spanOf(c, look.1));
    spans.push(spanOf(d, colored(Color::Gray)));
    spans.push(spanOf(e, colored(Color::DarkGray)));
    proof {
        assert(span_views(spans@) =~= wake_head(w, now));
    }
    page.push(Line { spans }, false);
    let mut detail = summary.as_str();
    match prompt {
        Some(p) => {
            if p.as_str().unicode_len() > 0 {
                detail = p.as_str();
            }
        },
        None => {},
    }
    proof {
        assert(detail@ == wake_detail(w));
    }
    if detail.unicode_len() > 0 {
        let style = colored(Color::DarkGray);
        let head = span("  ", style);
        let none: Vec<Span> = Vec::new();
        proof {
            assert(span_views(none@) =~= Seq::empty());
        }
        let _ = pushWrapped(
            page,
            &head,
            &head,
            &none,
            lineOf(span(detail, style)),
            (width as usize).saturating_sub(2),
        );
    }
    proof {
        assert(page@.rows =~= old(page)@.rows + wake_rows(w, width as int, now));
    }
}

// ---- notices ----

/// The row of a session notice.
pub open spec fn notice_row(text: Seq<char>) -> RowV {
    let pill = Color::Rgb(30, 50, 90);
    rv(
        seq![
            sv("  "@, Style::plain()),
            sv("\u{E0B6}"@, colored(pill)),
            sv("\u{2139}\u{FE0E}"@, colored(Color::Rgb(200, 200, 210)).bg(pill)),
            sv("\u{E0B4}"@, colored(pill)),
            sv(" "@ + text, colored(Color::Rgb(100, 100, 120))),
        ],
    )
}

/// Adds a session notice.
pub fn pushNoticeRow(page: &mut Page, text: &str)
    ensures
        final(page)@ == old(page)@.with_row(notice_row(text@)),
{
    let pill = Color::Rgb(30, 50, 90);
    let mut s = String::from_str(" ");
    s.append(text);
    let mut spans: Vec<Span> = Vec::new();
    spans.push(span("  ", Style::plain()));
    spans.push(span("\u{E0B6}", colored(pill)));
    spans.push(span("\u{2139}\u{FE0E}", colored(Color::Rgb(200, 200, 210)).bg(pill)));
    spans.push(span("\u{E0B4}", colored(pill)));
    spans.push(spanOf(s, colored(Color::Rgb(100, 100, 120))));
    proof {
        assert(span_views(spans@) =~= notice_row(text@).line);
    }
    page.push(Line { spans }, false);
}

/// The row of a compaction marker: a label between rules.
pub open spec fn marker_row(stage: Seq<char>, width: int) -> RowV {
    let label = " \u{2699}\u{FE0E} "@ + stage + " compressed "@;
    let dashes = repeated('\u{2500}', max(minus(width, byte_len(label) as int) / 2, 3));
    rv(seq![sv(dashes + label + dashes, colored(Color::DarkGray))])
}

/// Adds a compaction marker.
pub fn pushMarkerRow(page: &mut Page, stage: &str, width: u16)
    ensures
        final(page)@ == old(page)@.with_row(marker_row(stage@, width as int)),
{
    let mut label = String::from_str(" \u{2699}\u{FE0E} ");
    label.append(stage);
    label.append(" compressed ");
    let taken: usize = bytesUpTo(label.as_str(), 65536);
    let half: usize = (width as usize).saturating_sub(taken) / 2;
    let count: usize = if half > 3 {
        half
    } else {
        3
    };
    let dashes = repeatChar('\u{2500}', count);
    let mut s = dashes.clone();
    s.append(label.as_str());
    s.append(dashes.as_str());
    page.push(lineOf(spanOf(s, colored(Color::DarkGray))), false);
}

} // verus!
