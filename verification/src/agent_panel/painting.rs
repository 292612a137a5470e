//! Drawing the panel: its areas, the separator, the queue, the input, the
//! conversation and the completion menu.

use vstd::prelude::*;
use vstd::string::*;
use crate::agent_panel::labels::{formatBytes, format_bytes};
use crate::agent_panel::permit_rows::{header_line, permit_lines};
use crate::agent_panel::prompts::pending_command;
use crate::agent_panel::state::{AgentPanel, Attachment, CompletionV, PanelV, UserInput};
use crate::command::command_views;
use crate::draw::{
    Color, Draw, DrawV, Line, Rect, Span, SpanV, Style, addLine, colored, draws, emit, emitText,
    insideBorders, inside_borders, lineOf, lineOf2, line_views, max, min, minus, span, spanOf,
    span_views, sv,
};
use crate::text::{
    byte_len, bytesExceed, bytesUpTo, centerText, center_text, charsOf, cutBytes, cut_bytes, dec,
    decimal, has_prefix, repeatChar, repeated, startsWith, trimStart, trim_start,
};

verus! {

// ---- areas ----

/// The sum of the first `n` heights.
pub open spec fn heights(lens: Seq<u16>, n: int) -> int
    decreases n,
{
    if n <= 0 {
        0
    } else {
        heights(lens, n - 1) + lens[n - 1]
    }
}

/// Whether `parts` divide the area from top to bottom: a first part and one for
/// each of `lens`. Where there is room, each has its height and the first one
/// takes the rest.
pub open spec fn stacked(area: Rect, lens: Seq<u16>, parts: Seq<Rect>) -> bool {
    let total = heights(lens, lens.len() as int);
    &&& parts.len() == lens.len() + 1
    &&& forall|i: int|
        0 <= i < parts.len() ==> {
            let r = #[trigger] parts[i];
            &&& r.x == area.x
            &&& r.width == area.width
            &&& area.y <= r.y
            &&& r.y + r.height <= area.y + area.height
        }
    &&& 1 + total <= area.height ==> {
        &&& parts[0].y == area.y
        &&& parts[0].height == area.height - total
        &&& forall|i: int|
            1 <= i < parts.len() ==> (#[trigger] parts[i]).height == lens[i - 1] && parts[i].y
                == area.y + area.height - total + heights(lens, i - 1)
    }
}

/// Calls `ratatui::layout::Layout::split` from top to bottom with the constraints
/// `Min(1)` and a `Length` for each of `lens`. Every part has the area's columns
/// and lies between its first and its last row. Where the lengths and one row fit,
/// all constraints are met and the first part grows into the rest. Which part is
/// cut short where they do not fit is left open: the solver behind it walks hash maps
/// that each process seeds anew.
#[verifier::external_body]
pub(crate) fn stackRows(area: Rect, lens: &Vec<u16>) -> (r: Vec<Rect>)
    requires
        area.wf(),
    ensures
        stacked(area, lens@, r@),
{
    let whole = ratatui::layout::Rect::new(area.x, area.y, area.width, area.height);
    let first = std::iter::once(ratatui::layout::Constraint::Min(1));
    let rest = lens.iter().map(|n| ratatui::layout::Constraint::Length(*n));
    let parts = ratatui::layout::Layout::vertical(first.chain(rest)).split(whole);
    parts.iter().map(|p| Rect { x: p.x, y: p.y, width: p.width, height: p.height }).collect()
}

impl PanelV {
    pub open spec fn permit_shown(self) -> bool {
        self.permit.pending && !self.permit.suppressed
    }

    /// How many lines an explanation is given in a panel of `width` columns.
    pub open spec fn explanation_height(self, width: int) -> int {
        match self.permit.explanation {
            Some(e) => if width <= 6 {
                1
            } else {
                min(byte_len(e) as int / (width - 6) + 1, 65536)
            },
            None => 0,
        }
    }

    /// How high the input is in a panel of `inner`. The text of the input wants
    /// `wanted` lines.
    pub open spec fn input_height(self, inner: Rect, wanted: int) -> int {
        if self.permit_shown() {
            let head = if pending_command(self) is Some {
                3int
            } else {
                0int
            };
            max(
                min(
                    head + self.explanation_height(inner.width as int) + 4
                        + self.permit.patterns.len() + 1,
                    inner.height * 2 / 3,
                ),
                5,
            )
        } else {
            let images = self.compose.attachments.len();
            min(
                max(min(wanted, 8), 1) + (if images == 0 {
                    0
                } else {
                    images + 1
                }),
                65535,
            )
        }
    }

    /// The heights below the conversation: the separator, the queue where there is
    /// one, and the input.
    pub open spec fn lower_heights(self, inner: Rect, wanted: int) -> Seq<u16> {
        let input = self.input_height(inner, wanted) as u16;
        let n = self.compose.queue.len();
        if n == 0 {
            seq![1u16, input]
        } else {
            seq![1u16, min(n as int, 4) as u16, input]
        }
    }
}

// ---- the separator ----

/// What can be done about a turn that failed.
pub open spec fn error_hint() -> Seq<char> {
    " \u{21BB} Ctrl+R retry   \u{23F5}\u{FE0E} Ctrl+Space continue "@
}

/// The separator: the header of a prompt without a command, the hint after an
/// error, or a rule.
pub open spec fn separator_draws(p: PanelV, r: Rect) -> Seq<DrawV> {
    if p.permit_shown() && pending_command(p) is None {
        seq![
            DrawV::Para {
                rect: r,
                lines: seq![header_line(p, r.width as int)],
                style: Style::plain(),
            },
        ]
    } else if p.compose.errorHint {
        seq![
            DrawV::Para {
                rect: r,
                lines: seq![seq![sv(center_text(error_hint(), r.width as int), Style::plain())]],
                style: colored(Color::Yellow).bold(),
            },
        ]
    } else if !p.permit_shown() {
        seq![
            DrawV::Para {
                rect: r,
                lines: seq![seq![sv(repeated('\u{2500}', r.width as int), Style::plain())]],
                style: colored(Color::DarkGray),
            },
        ]
    } else {
        Seq::empty()
    }
}

fn emitPara(out: &mut Vec<Draw>, rect: Rect, line: Line, style: Style)
    ensures
        draws(final(out)@) == draws(old(out)@).push(
            DrawV::Para { rect, lines: seq![line@], style },
        ),
{
    let mut lines: Vec<Line> = Vec::new();
    lines.push(line);
    proof {
        assert(line_views(lines@) =~= seq![line@]);
    }
    emit(out, Draw::Para { rect, lines, style });
}

impl AgentPanel {
    pub(crate) fn drawSeparatorIn(&self, out: &mut Vec<Draw>, r: Rect)
        ensures
            draws(final(out)@) == draws(old(out)@) + separator_draws(self@, r),
    {
        let shown = self.permitVisible();
        if shown && self.pendingCommand().is_none() {
            emitPara(out, r, self.renderPermitHeaderInline(r.width), Style::plain());
        } else if self.compose.errorHint {
            let s = centerText(
                " \u{21BB} Ctrl+R retry   \u{23F5}\u{FE0E} Ctrl+Space continue ",
                r.width as usize,
            );
            emitPara(
                out,
                r,
                lineOf(spanOf(s, Style::plain())),
                colored(Color::Yellow).bold(),
            );
        } else if !shown {
            let s = repeatChar('\u{2500}', r.width as usize);
            emitPara(
                out,
                r,
                lineOf(spanOf(s, Style::plain())),
                colored(Color::DarkGray),
            );
        }
        proof {
            assert(draws(out@) =~= draws(old(out)@) + separator_draws(self@, r));
        }
    }
}

// ---- the queue ----

/// How the images of a queued message are noted.
pub open spec fn images_note(n: int) -> Seq<char> {
    if n == 0 {
        Seq::empty()
    } else if n == 1 {
        "  [+1 image]"@
    } else {
        "  [+"@ + dec(n as nat) + " images]"@
    }
}

/// The line of a queued message in `width` columns.
pub open spec fn queued_line(u: UserInput, width: int) -> Seq<SpanV> {
    let note = images_note(u.attachments@.len() as int);
    let room = minus(width, 3 + note.len() as int);
    let text = if byte_len(u.text@) > room {
        cut_bytes(u.text@, minus(room, 3)) + "..."@
    } else {
        u.text@
    };
    seq![sv(" \u{25B9} "@, colored(Color::DarkGray)), sv(text, colored(Color::White))] + (
    if note.len() > 0 {
        seq![sv(note, colored(Color::Cyan).dim())]
    } else {
        Seq::empty()
    })
}

/// The queue, one line per message, the latest at the bottom.
pub open spec fn queue_draws(q: Seq<UserInput>, r: Rect) -> Seq<DrawV> {
    let skip = minus(q.len() as int, r.height as int);
    Seq::new(
        (q.len() - skip) as nat,
        |i: int|
            DrawV::Para {
                rect: Rect { x: r.x, y: (r.y + i) as u16, width: r.width, height: 1 },
                lines: seq![queued_line(q[skip + i], r.width as int)],
                style: Style::plain(),
            },
    )
}

fn queuedLine(u: &UserInput, width: u16) -> (r: Line)
    ensures
        r@ == queued_line(*u, width as int),
{
    let n: usize = u.attachments.len();
    let note: String = if n == 0 {
        String::new()
    } else if n == 1 {
        String::from_str("  [+1 image]")
    } else {
        let mut s = String::from_str("  [+");
        s.append(decimal(n as u64).as_str());
        s.append(" images]");
        s
    };
    proof {
        assert(note@ =~= images_note(n as int));
    }
    let noted: usize = note.as_str().unicode_len();
    let room: usize = (width as usize).saturating_sub(3).saturating_sub(noted);
    let text: String = if bytesExceed(u.text.as_str(), room) {
        let mut s = cutBytes(u.text.as_str(), room.saturating_sub(3));
        s.append("...");
        s
    } else {
        u.text.clone()
    };
    let mut spans: Vec<Span> = Vec::new();
    spans.push(span(" \u{25B9} ", colored(Color::DarkGray)));
    spans.push(spanOf(text, colored(Color::White)));
    if noted > 0 {
        spans.push(spanOf(note, colored(Color::Cyan).dim()));
    }
    proof {
        assert(span_views(spans@) =~= queued_line(*u, width as int));
    }
    Line { spans }
}

impl AgentPanel {
    /// Draws the queued messages.
    pub fn renderQueueZone(&self, out: &mut Vec<Draw>, r: Rect)
        requires
            r.wf(),
        ensures
            draws(final(out)@) == draws(old(out)@) + queue_draws(self@.compose.queue, r),
    {
        let ghost q = self.compose.queue@;
        let ghost all = queue_draws(q, r);
        let n: usize = self.compose.queue.len();
        let skip: usize = n.saturating_sub(r.height as usize);
        let mut i: usize = skip;
        proof {
            assert(draws(out@) =~= draws(old(out)@) + all.take(0));
        }
        while i < n
            invariant
                skip <= i <= n,
                n == self.compose.queue@.len(),
                q == self.compose.queue@,
                skip == minus(n as int, r.height as int),
                r.wf(),
                all == queue_draws(q, r),
                draws(out@) == draws(old(out)@) + all.take(i - skip),
            decreases n - i,
        {
            let row: u16 = r.y + (i - skip) as u16;
            let line = queuedLine(&self.compose.queue[i], r.width);
            emitPara(
                out,
                Rect { x: r.x, y: row, width: r.width, height: 1 },
                line,
                Style::plain(),
            );
            proof {
                assert(draws(out@) =~= draws(old(out)@) + all.take(i + 1 - skip));
            }
            i = i + 1;
        }
        proof {
            assert(all.take(all.len() as int) =~= all);
        }
    }
}

// ---- the input ----

/// The line of an attachment. The last one tells how to remove it.
pub open spec fn attachment_line(a: Attachment, last: bool, width: int) -> Seq<SpanV> {
    let size = format_bytes(a.data@.len() as int);
    seq![
        sv(" \u{2398}\u{FE0E} "@, colored(Color::White)),
        sv(a.label@, colored(Color::White)),
        sv("  "@ + size, colored(Color::DarkGray)),
    ] + (if last {
        seq![
            sv(
                repeated(' ', minus(width, (byte_len(a.label@) + byte_len(size)) as int + 14)),
                Style::plain(),
            ),
            sv("[Ctrl+D]"@, colored(Color::DarkGray)),
        ]
    } else {
        Seq::empty()
    })
}

/// The number of attachments, as far as rows are counted.
pub open spec fn image_rows(p: PanelV) -> int {
    min(p.compose.attachments.len() as int, 65534)
}

/// Where the text of the input stands: below the attachments, with one row at
/// least left for it where there is one.
pub open spec fn text_rect(p: PanelV, r: Rect) -> Rect {
    let n = image_rows(p);
    if n == 0 {
        r
    } else {
        let bar = min(n + 1, minus(r.height as int, 1));
        Rect {
            x: r.x,
            y: (r.y + bar) as u16,
            width: r.width,
            height: (r.height - bar) as u16,
        }
    }
}

/// The attachments above the text of the input, with a rule below them that
/// reaches to the border of the panel.
pub open spec fn attachment_draws(p: PanelV, r: Rect) -> Seq<DrawV> {
    let a = p.compose.attachments;
    let n = image_rows(p);
    if n == 0 {
        Seq::empty()
    } else {
        let w = min(r.width + 2, 65535);
        seq![
            DrawV::Para {
                rect: Rect { x: r.x, y: r.y, width: r.width, height: n as u16 },
                lines: Seq::new(
                    a.len(),
                    |i: int| attachment_line(a[i], i == a.len() - 1, r.width as int),
                ),
                style: Style::plain(),
            },
            DrawV::Para {
                rect: Rect {
                    x: r.x,
                    y: min(r.y + n, 65535) as u16,
                    width: w as u16,
                    height: 1,
                },
                lines: seq![seq![sv(repeated('\u{2500}', w), Style::plain())]],
                style: colored(Color::DarkGray),
            },
        ]
    }
}

/// The prompt in the input. Below a command the header reaches to the border of
/// the panel.
pub open spec fn prompt_draws(p: PanelV, code: Seq<Seq<SpanV>>, r: Rect) -> Seq<DrawV> {
    seq![
        DrawV::Para {
            rect: r,
            lines: permit_lines(p, code, r.width as int, false),
            style: Style::plain(),
        },
    ] + (if pending_command(p) is Some {
        seq![
            DrawV::Text {
                x: (r.x + r.width) as u16,
                y: min(r.y + 2, 65535) as u16,
                text: sv("\u{2500}"@, colored(Color::DarkGray)),
                width: 1,
            },
        ]
    } else {
        Seq::empty()
    })
}

/// What the input shows besides its text.
pub open spec fn input_draws(p: PanelV, code: Seq<Seq<SpanV>>, r: Rect) -> Seq<DrawV> {
    if p.permit_shown() {
        prompt_draws(p, code, r)
    } else {
        attachment_draws(p, r)
    }
}

fn attachmentLine(a: &Attachment, last: bool, width: u16) -> (r: Line)
    ensures
        r@ == attachment_line(*a, last, width as int),
{
    let size = formatBytes(a.data.len() as u64);
    let mut shown = String::from_str("  ");
    shown.append(size.as_str());
    let mut spans: Vec<Span> = Vec::new();
    spans.push(span(" \u{2398}\u{FE0E} ", colored(Color::White)));
    spans.push(span(a.label.as_str(), colored(Color::White)));
    spans.push(spanOf(shown, colored(Color::DarkGray)));
    if last {
        let l: usize = bytesUpTo(a.label.as_str(), 65536);
        let m: usize = bytesUpTo(size.as_str(), 65536);
        let pad: usize = (width as usize).saturating_sub(l).saturating_sub(m).saturating_sub(14);
        spans.push(spanOf(repeatChar(' ', pad), Style::plain()));
        spans.push(span("[Ctrl+D]", colored(Color::DarkGray)));
    }
    proof {
        assert(span_views(spans@) =~= attachment_line(*a, last, width as int));
    }
    Line { spans }
}

impl AgentPanel {
    fn drawAttachments(&self, out: &mut Vec<Draw>, r: Rect) -> (t: Rect)
        requires
            r.wf(),
        ensures
            draws(final(out)@) == draws(old(out)@) + attachment_draws(self@, r),
            t == text_rect(self@, r),
    {
        let total: usize = self.compose.attachments.len();
        if total == 0 {
            proof {
                assert(draws(out@) =~= draws(old(out)@) + attachment_draws(self@, r));
            }
            return r;
        }
        let n: u16 = if total > 65534 {
            65534
        } else {
            total as u16
        };
        let ghost a = self.compose.attachments@;
        let ghost all = Seq::new(
            a.len(),
            |i: int| attachment_line(a[i], i == a.len() - 1, r.width as int),
        );
        let mut lines: Vec<Line> = Vec::new();
        let mut i: usize = 0;
        proof {
            assert(line_views(lines@) =~= all.take(0));
        }
        while i < total
            invariant
                i <= total,
                total == self.compose.attachments@.len(),
                a == self.compose.attachments@,
                all == Seq::new(
                    a.len(),
                    |i: int| attachment_line(a[i], i == a.len() - 1, r.width as int),
                ),
                line_views(lines@) == all.take(i as int),
            decreases total - i,
        {
            addLine(
                &mut lines,
                attachmentLine(&self.compose.attachments[i], i == total - 1, r.width),
            );
            proof {
                assert(line_views(lines@) =~= all.take(i + 1));
            }
            i = i + 1;
        }
        proof {
            assert(all.take(total as int) =~= all);
        }
        emit(
            out,
            Draw::Para {
                rect: Rect { x: r.x, y: r.y, width: r.width, height: n },
                lines,
                style: Style::plain(),
            },
        );
        let w: u16 = r.width.saturating_add(2);
        let rule = repeatChar('\u{2500}', w as usize);
        emitPara(
            out,
            Rect { x: r.x, y: r.y.saturating_add(n), width: w, height: 1 },
            lineOf(spanOf(rule, Style::plain())),
            colored(Color::DarkGray),
        );
        proof {
            assert(draws(out@) =~= draws(old(out)@) + attachment_draws(self@, r));
        }
        let most: u16 = r.height.saturating_sub(1);
        let bar: u16 = if n < most {
            n + 1
        } else {
            most
        };
        Rect { x: r.x, y: r.y + bar, width: r.width, height: r.height - bar }
    }

    /// Draws what the input shows besides its text. Returns where the text stands,
    /// none where a prompt takes its place. `code` are the rows of the command, which is
    /// `widest` columns wide; the scroll of the command stays within it.
    pub fn renderInput(
        &mut self,
        out: &mut Vec<Draw>,
        code: &Vec<Line>,
        widest: usize,
        r: Rect,
    ) -> (t: Option<Rect>)
        requires
            r.wf(),
        ensures
            draws(final(out)@) == draws(old(out)@) + input_draws(old(self)@, line_views(code@), r),
            t == (if old(self)@.permit_shown() {
                None
            } else {
                Some(text_rect(old(self)@, r))
            }),
            final(self)@ == (if old(self)@.permit_shown() {
                old(self)@.prompt_held(widest as int, r.width as int)
            } else {
                old(self)@
            }),
    {
        let t = self.drawInput(out, code, r);
        if self.permitVisible() {
            self.holdPermitScroll(widest, r.width);
        }
        t
    }

    pub(crate) fn drawInput(&self, out: &mut Vec<Draw>, code: &Vec<Line>, r: Rect) -> (t: Option<
        Rect,
    >)
        requires
            r.wf(),
        ensures
            draws(final(out)@) == draws(old(out)@) + input_draws(self@, line_views(code@), r),
            t == (if self@.permit_shown() {
                None
            } else {
                Some(text_rect(self@, r))
            }),
    {
        if self.permitVisible() {
            let lines = self.permitLines(code, r.width, false);
            emit(out, Draw::Para { rect: r, lines, style: Style::plain() });
            if self.pendingCommand().is_some() {
                emitText(
                    out,
                    r.x + r.width,
                    r.y.saturating_add(2),
                    "\u{2500}",
                    colored(Color::DarkGray),
                    1,
                );
            }
            proof {
                assert(draws(out@) =~= draws(old(out)@) + input_draws(
                    self@,
                    line_views(code@),
                    r,
                ));
            }
            None
        } else {
            Some(self.drawAttachments(out, r))
        }
    }

    /// Draws the prompt alone, as the popup of a subagent does. The scroll of the
    /// command, which is `widest` columns wide, stays within it.
    pub fn renderPermitInline(
        &mut self,
        out: &mut Vec<Draw>,
        code: &Vec<Line>,
        widest: usize,
        area: Rect,
    )
        ensures
            ({
                let p = old(self)@;
                if !p.permit.pending || area.width < 8 || area.height < 4 {
                    draws(final(out)@) == draws(old(out)@) && final(self)@ == p
                } else {
                    &&& draws(final(out)@) == draws(old(out)@).push(
                        DrawV::Para {
                            rect: area,
                            lines: permit_lines(p, line_views(code@), area.width as int, true),
                            style: Style::plain(),
                        },
                    )
                    &&& final(self)@ == p.prompt_held(widest as int, area.width as int)
                }
            }),
    {
        if !self.permit.pending || area.width < 8 || area.height < 4 {
            return;
        }
        let lines = self.permitLines(code, area.width, true);
        emit(out, Draw::Para { rect: area, lines, style: Style::plain() });
        self.holdPermitScroll(widest, area.width);
    }
}

// ---- ghost text ----

/// The rest of the selected command behind what is typed.
pub open spec fn ghost_text(c: Option<CompletionV>, text: Seq<char>) -> Seq<char> {
    match c {
        Some(s) => if s.selected < s.matches.len() {
            let t = trim_start(text);
            let typed = if t.len() > 0 && t[0] == '/' {
                t.skip(1)
            } else {
                Seq::empty()
            };
            let name = s.matches[s.selected as int].name;
            if has_prefix(name, typed) {
                name.skip(typed.len() as int)
            } else {
                Seq::empty()
            }
        } else {
            Seq::empty()
        },
        None => Seq::empty(),
    }
}

/// How many of `n` cells from column `x` on lie before column `end`.
pub open spec fn cells_before(n: int, x: int, end: int) -> int {
    min(n, minus(end, x))
}

/// The rest of the selected command from the cursor on, as far as the area goes.
pub open spec fn ghost_draws(
    c: Option<CompletionV>,
    text: Seq<char>,
    x: u16,
    y: u16,
    area: Rect,
) -> Seq<DrawV> {
    let g = ghost_text(c, text);
    Seq::new(
        cells_before(g.len() as int, x as int, area.x + area.width) as nat,
        |i: int|
            DrawV::Text {
                x: (x + i) as u16,
                y,
                text: sv(seq![g[i]], colored(Color::DarkGray)),
                width: 1,
            },
    )
}

impl AgentPanel {
    fn ghostText(&self, text: &str) -> (r: String)
        ensures
            r@ == ghost_text(self@.compose.completion, text@),
    {
        match &self.compose.completion {
            None => String::new(),
            Some(c) => {
                proof {
                    assert(command_views(c.matches@).len() == c.matches@.len());
                }
                if c.selected >= c.matches.len() {
                    return String::new();
                }
                proof {
                    assert(command_views(c.matches@)[c.selected as int]
                        == c.matches@[c.selected as int]@);
                }
                let t = trimStart(text);
                let n: usize = t.as_str().unicode_len();
                let typed: String = if n > 0 && t.as_str().get_char(0) == '/' {
                    String::from_str(t.as_str().substring_char(1, n))
                } else {
                    String::new()
                };
                proof {
                    assert(typed@ =~= (if t@.len() > 0 && t@[0] == '/' {
                        t@.skip(1)
                    } else {
                        Seq::empty()
                    }));
                }
                let name = c.matches[c.selected].name;
                if startsWith(name, typed.as_str()) {
                    let k: usize = typed.as_str().unicode_len();
                    let m: usize = name.unicode_len();
                    let r = String::from_str(name.substring_char(k, m));
                    proof {
                        assert(r@ =~= name@.skip(k as int));
                    }
                    r
                } else {
                    String::new()
                }
            },
        }
    }

    /// Draws the rest of the selected command from the cursor of the input on.
    pub fn renderGhost(&self, out: &mut Vec<Draw>, text: &str, x: u16, y: u16, area: Rect)
        requires
            area.wf(),
        ensures
            draws(final(out)@) == draws(old(out)@) + ghost_draws(
                self@.compose.completion,
                text@,
                x,
                y,
                area,
            ),
    {
        let g = self.ghostText(text);
        let v = charsOf(g.as_str());
        let end: u16 = area.x + area.width;
        let ghost all = ghost_draws(self@.compose.completion, text@, x, y, area);
        let mut i: u16 = 0;
        proof {
            assert(draws(out@) =~= draws(old(out)@) + all.take(0));
        }
        while (i as usize) < v.len() && x < end && i < end - x
            invariant
                v@ == g@,
                g@ == ghost_text(self@.compose.completion, text@),
                end == area.x + area.width,
                all == ghost_draws(self@.compose.completion, text@, x, y, area),
                i <= all.len(),
                draws(out@) == draws(old(out)@) + all.take(i as int),
            decreases v@.len() - i,
        {
            let mut s = String::new();
            s.push(v[i as usize]);
            proof {
                assert(s@ =~= seq![g@[i as int]]);
            }
            emitText(out, x + i, y, s.as_str(), colored(Color::DarkGray), 1);
            proof {
                assert(draws(out@) =~= draws(old(out)@) + all.take(i + 1));
            }
            i = i + 1;
        }
        proof {
            assert(all.take(all.len() as int) =~= all);
        }
    }
}

// ---- the completion menu ----

/// The background of the menu.
#[verifier::allow_in_spec]
pub fn menuColor() -> Color
    returns
        Color::Rgb(20, 20, 30),
{
    Color::Rgb(20, 20, 30)
}

/// The background of the selected row.
#[verifier::allow_in_spec]
pub fn selectedColor() -> Color
    returns
        Color::Rgb(40, 40, 80),
{
    Color::Rgb(40, 40, 80)
}

/// How many commands the menu shows.
pub open spec fn menu_count(c: CompletionV) -> int {
    min(c.matches.len() as int, 8)
}

/// Where the menu stands: above the input.
pub open spec fn menu_rect(c: CompletionV, input: Rect) -> Rect {
    let h = menu_count(c) + 2;
    Rect {
        x: input.x,
        y: minus(input.y as int, h) as u16,
        width: input.width,
        height: h as u16,
    }
}

/// The row of the command `i` in the menu.
pub open spec fn menu_row(c: CompletionV, i: int, inner: Rect) -> Seq<DrawV> {
    let on = i == c.selected;
    let bg = if on {
        selectedColor()
    } else {
        menuColor()
    };
    let row = Rect { x: inner.x, y: (inner.y + i) as u16, width: inner.width, height: 1 };
    (if on {
        seq![DrawV::Fill { rect: row, style: colored(Color::White).bg(bg) }]
    } else {
        Seq::empty()
    }) + seq![
        DrawV::Para {
            rect: row,
            lines: seq![
                seq![
                    sv(" /"@ + c.matches[i].name, colored(Color::White).bg(bg)),
                    sv(
                        " \u{2014} "@ + c.matches[i].description,
                        colored(Color::DarkGray).bg(bg),
                    ),
                ],
            ],
            style: Style::plain(),
        },
    ]
}

/// The rows of the first `n` commands in the menu.
pub open spec fn menu_rows(c: CompletionV, n: int, inner: Rect) -> Seq<DrawV>
    decreases n,
{
    if n <= 0 {
        Seq::empty()
    } else {
        menu_rows(c, n - 1, inner) + menu_row(c, n - 1, inner)
    }
}

/// The completion menu.
pub open spec fn menu_draws(o: Option<CompletionV>, input: Rect) -> Seq<DrawV> {
    match o {
        Some(c) => if c.matches.len() == 0 {
            Seq::empty()
        } else {
            let r = menu_rect(c, input);
            let inner = inside_borders(r);
            seq![
                DrawV::Fill { rect: r, style: Style::plain().bg(menuColor()) },
                DrawV::Frame {
                    rect: r,
                    title: sv(""@, Style::plain()),
                    border: colored(Color::DarkGray).bg(menuColor()),
                    fill: Style::plain(),
                },
            ] + menu_rows(c, min(menu_count(c), inner.height as int), inner)
        },
        None => Seq::empty(),
    }
}

impl AgentPanel {
    /// Draws the completion menu above the input.
    #[verifier::rlimit(40)]
    #[verifier::spinoff_prover]
    pub fn renderCompletionDropdown(&self, out: &mut Vec<Draw>, input: Rect)
        requires
            input.wf(),
        ensures
            draws(final(out)@) == draws(old(out)@) + menu_draws(self@.compose.completion, input),
    {
        let ghost o = self@.compose.completion;
        match &self.compose.completion {
            None => {
                proof {
                    assert(draws(out@) =~= draws(old(out)@) + menu_draws(o, input));
                }
            },
            Some(state) => {
                let ghost c = state@;
                let total: usize = state.matches.len();
                proof {
                    assert(c.matches.len() == total);
                }
                if total == 0 {
                    proof {
                        assert(draws(out@) =~= draws(old(out)@) + menu_draws(o, input));
                    }
                    return;
                }
                let count: u16 = if total < 8 {
                    total as u16
                } else {
                    8
                };
                let h: u16 = count + 2;
                let r = Rect {
                    x: input.x,
                    y: input.y.saturating_sub(h),
                    width: input.width,
                    height: h,
                };
                emit(out, Draw::Fill { rect: r, style: Style::plain().bg(menuColor()) });
                emit(
                    out,
                    Draw::Frame {
                        rect: r,
                        title: span("", Style::plain()),
                        border: colored(Color::DarkGray).bg(menuColor()),
                        fill: Style::plain(),
                    },
                );
                let inner = insideBorders(r);
                let shown: u16 = if count < inner.height {
                    count
                } else {
                    inner.height
                };
                let ghost head = seq![
                    DrawV::Fill { rect: r, style: Style::plain().bg(menuColor()) },
                    DrawV::Frame {
                        rect: r,
                        title: sv(""@, Style::plain()),
                        border: colored(Color::DarkGray).bg(menuColor()),
                        fill: Style::plain(),
                    },
                ];
                let mut i: u16 = 0;
                proof {
                    assert(draws(out@) =~= draws(old(out)@) + (head + menu_rows(c, 0, inner)));
                }
                while i < shown
                    invariant
                        i <= shown,
                        shown <= inner.height,
                        inner.wf(),
                        shown <= total,
                        total == state.matches@.len(),
                        c == state@,
                        draws(out@) == draws(old(out)@) + (head + menu_rows(c, i as int, inner)),
                    decreases shown - i,
                {
                    let cmd = &state.matches[i as usize];
                    proof {
                        assert(c.matches[i as int] == state.matches@[i as int]@);
                    }
                    let on = i as usize == state.selected;
                    let bg = if on {
                        selectedColor()
                    } else {
                        menuColor()
                    };
                    let row = Rect {
                        x: inner.x,
                        y: inner.y + i,
                        width: inner.width,
                        height: 1,
                    };
                    if on {
                        emit(out, Draw::Fill { rect: row, style: colored(Color::White).bg(bg) });
                    }
                    let mut a = String::from_str(" /");
                    a.append(cmd.name);
                    let mut b = String::from_str(" \u{2014} ");
                    b.append(cmd.description);
                    let line = lineOf2(
                        spanOf(a, colored(Color::White).bg(bg)),
                        spanOf(b, colored(Color::DarkGray).bg(bg)),
                    );
                    emitPara(out, row, line, Style::plain());
                    proof {
                        assert(draws(out@) =~= draws(old(out)@) + (head + menu_rows(
                            c,
                            i + 1,
                            inner,
                        )));
                    }
                    i = i + 1;
                }
                proof {
                    assert(draws(out@) =~= draws(old(out)@) + menu_draws(o, input));
                }
            },
        }
    }
}

} // verus!
