//! The lines of the permission prompt.

use vstd::prelude::*;
use vstd::string::*;
use crate::agent_panel::labels::digits_value;
use crate::agent_panel::prompts::pending_command;
use crate::agent_panel::rows::joinSpans;
use crate::agent_panel::selecting::{line_width, lineWidth};
use crate::agent_panel::state::{AgentPanel, PanelV, PermitV};
use crate::draw::{
    Color, Line, Span, SpanV, Style, addLine, addSpan, colored, emptyLine, lineOf, line_views,
    minus, span, spanOf, span_views, sv,
};
use crate::impact::{impact_look, shellImpactGlyphColorForTool};
use crate::text::{charsOf, findFirst, find_from, is_digit, repeatChar, repeated};
use crate::unicode::{columns, columnsOf};
use crate::wrap::{wrapSpannedLine, wrap_line};

verus! {

// ---- the timeout ----

/// Whether a text is made of digits and stands for a number of 64 bits.
pub open spec fn is_number(t: Seq<char>) -> bool {
    &&& t.len() > 0
    &&& forall|i: int| 0 <= i < t.len() ==> is_digit(#[trigger] t[i])
    &&& digits_value(t) <= u64::MAX
}

/// Whether a text is a number of 64 bits, with or without a plus sign.
pub open spec fn is_u64(s: Seq<char>) -> bool {
    if s.len() > 1 && s[0] == '+' {
        is_number(s.skip(1))
    } else {
        is_number(s)
    }
}

fn isU64(s: &str) -> (r: bool)
    ensures
        r == is_u64(s@),
{
    let v = charsOf(s);
    let from: usize = if v.len() > 1 && v[0] == '+' {
        1
    } else {
        0
    };
    let ghost t = s@.skip(from as int);
    proof {
        assert(s@.skip(0) =~= s@);
        assert(t == (if s@.len() > 1 && s@[0] == '+' {
            s@.skip(1)
        } else {
            s@
        }));
    }
    if v.len() == from {
        return false;
    }
    let mut value: u64 = 0;
    let mut big = false;
    let mut i: usize = from;
    while i < v.len()
        invariant
            from <= i <= v@.len(),
            v@ == s@,
            t == s@.skip(from as int),
            t == (if s@.len() > 1 && s@[0] == '+' {
                s@.skip(1)
            } else {
                s@
            }),
            forall|j: int| 0 <= j < i - from ==> is_digit(#[trigger] t[j]),
            !big ==> value == digits_value(t.take(i - from)),
            big ==> digits_value(t.take(i - from)) > u64::MAX,
        decreases v@.len() - i,
    {
        let c = v[i];
        proof {
            assert(t[i - from] == c);
        }
        if c < '0' || c > '9' {
            proof {
                let k = i - from;
                assert(0 <= k < t.len());
                assert(!is_digit(t[k]));
            }
            return false;
        }
        let d: u64 = (c as u32 - '0' as u32) as u64;
        let ghost a = t.take(i - from);
        let ghost b = t.take(i + 1 - from);
        proof {
            assert(b =~= a.push(c));
            assert(b.drop_last() =~= a);
        }
        if !big {
            if value > (u64::MAX - d) / 10 {
                big = true;
            } else {
                value = value * 10 + d;
            }
        }
        i = i + 1;
    }
    proof {
        assert(t.take(t.len() as int) =~= t);
    }
    !big
}

/// The timeout in a summary such as `shell (30s): ls`, as it is shown.
pub open spec fn timeout_label(summary: Seq<char>) -> Seq<char> {
    match (find_from(summary, "("@, 0), find_from(summary, "s):"@, 0)) {
        (Some(a), Some(b)) => if a + 1 <= b && is_u64(summary.subrange(a + 1, b)) {
            " \u{23F2}\u{FE0E} "@ + summary.subrange(a + 1, b) + "s "@
        } else {
            Seq::empty()
        },
        _ => Seq::empty(),
    }
}

fn timeoutLabel(summary: &str) -> (r: String)
    ensures
        r@ == timeout_label(summary@),
{
    let open: usize = match findFirst(summary, "(") {
        Some(i) => i,
        None => {
            return String::new();
        },
    };
    let close: usize = match findFirst(summary, "s):") {
        Some(i) => i,
        None => {
            return String::new();
        },
    };
    if open >= close {
        return String::new();
    }
    let n: usize = summary.unicode_len();
    proof {
        reveal_strlit("s):");
        assert(close <= n);
    }
    let secs = summary.substring_char(open + 1, close);
    if !isU64(secs) {
        return String::new();
    }
    let mut s = String::from_str(" \u{23F2}\u{FE0E} ");
    s.append(secs);
    s.append("s ");
    s
}

// ---- the header ----

/// What stands before the fill of the header.
pub open spec fn header_left(p: PanelV) -> Seq<SpanV> {
    let look = impact_look(p.permit.impact.asRun());
    let name = sv(
        "\u{2500} "@ + p.permit.toolName + " "@ + look.0 + " "@,
        colored(look.1).bold(),
    );
    if pending_command(p) is Some {
        seq![sv("\u{2500}\u{2534}"@, colored(Color::DarkGray)), name]
    } else {
        seq![name]
    }
}

/// The header of the prompt: the tool, its impact and its timeout. Below a code
/// block it is the border of that block.
pub open spec fn header_line(p: PanelV, width: int) -> Seq<SpanV> {
    let left = header_left(p);
    let block = pending_command(p) is Some;
    let timeout = timeout_label(p.permit.toolSummary);
    let fill = minus(
        width,
        line_width(left) + columns(timeout) as int + (if block {
            1int
        } else {
            0int
        }),
    );
    left.push(sv(repeated('\u{2500}', fill), colored(Color::DarkGray))) + (if timeout.len() > 0 {
        seq![sv(timeout, colored(Color::DarkGray))]
    } else {
        Seq::empty()
    }) + (if block {
        seq![sv("\u{2534}"@, colored(Color::DarkGray))]
    } else {
        Seq::empty()
    })
}

// ---- the rest of the prompt ----

/// The rows of the command, `code`, without the bottom border and one column to
/// the right.
pub open spec fn command_lines(code: Seq<Seq<SpanV>>) -> Seq<Seq<SpanV>> {
    Seq::new(
        if code.len() > 1 {
            (code.len() - 1) as nat
        } else {
            code.len()
        },
        |i: int| seq![sv(" "@, Style::plain())] + code[i],
    )
}

/// The explanation of a command, wrapped, and an empty line.
pub open spec fn explanation_lines(e: Option<Seq<char>>, width: int) -> Seq<Seq<SpanV>> {
    let st = colored(Color::DarkGray);
    match e {
        Some(s) => {
            let w = wrap_line(seq![sv(s, st)], minus(width, 4));
            Seq::new(w.len(), |i: int| seq![sv("  "@, st)] + w[i]).push(Seq::empty())
        },
        None => Seq::empty(),
    }
}

/// The keys of the prompt and an empty line.
pub open spec fn key_lines() -> Seq<Seq<SpanV>> {
    seq![
        seq![
            sv("  [y]"@, colored(Color::Green)),
            sv(" allow  "@, colored(Color::DarkGray)),
            sv("[A]"@, colored(Color::Rgb(80, 80, 120))),
            sv(" always allow"@, colored(Color::Rgb(80, 80, 80))),
        ],
        seq![
            sv("  [n]"@, colored(Color::Red)),
            sv(" deny   "@, colored(Color::DarkGray)),
            sv("[D]"@, colored(Color::Rgb(120, 80, 80))),
            sv(" always deny"@, colored(Color::Rgb(80, 80, 80))),
        ],
        Seq::empty(),
    ]
}

/// The line of the pattern `i`.
pub open spec fn pattern_line(m: PermitV, i: int) -> Seq<SpanV> {
    let on = i == m.selected && !m.editing;
    let st = if on {
        colored(Color::Yellow)
    } else {
        colored(Color::DarkGray)
    };
    seq![
        sv(
            if on {
                " \u{25b8}"@
            } else {
                "  "@
            },
            st,
        ),
        sv(m.patterns[i], st),
    ]
}

/// The line of the custom pattern.
pub open spec fn custom_line(m: PermitV) -> Seq<SpanV> {
    let on = m.selected >= m.patterns.len();
    let st = if on {
        colored(Color::White)
    } else {
        colored(Color::DarkGray)
    };
    seq![
        sv(
            if on {
                " \u{25b8}"@
            } else {
                "  "@
            },
            st,
        ),
        sv("custom: "@, colored(Color::DarkGray)),
        sv(
            if on {
                m.custom + "\u{2502}"@
            } else {
                m.custom
            },
            st,
        ),
    ]
}

/// The lines of the prompt, `width` columns wide. `code` are the rows of the
/// command, and `inline` tells that the header always stands among the lines;
/// otherwise it does below a command only.
pub open spec fn permit_lines(
    p: PanelV,
    code: Seq<Seq<SpanV>>,
    width: int,
    inline: bool,
) -> Seq<Seq<SpanV>> {
    let block = pending_command(p) is Some;
    let m = p.permit;
    (if block {
        command_lines(code)
    } else {
        Seq::empty()
    }) + (if block || inline {
        seq![header_line(p, width)]
    } else {
        Seq::empty()
    }) + explanation_lines(m.explanation, width) + key_lines() + Seq::new(
        m.patterns.len(),
        |i: int| pattern_line(m, i),
    ) + seq![custom_line(m)]
}

fn pushLine(v: &mut Vec<Line>, spans: Vec<Span>)
    ensures
        line_views(final(v)@) == line_views(old(v)@).push(span_views(spans@)),
{
    addLine(v, Line { spans });
}

impl AgentPanel {
    /// The header of the prompt.
    pub fn renderPermitHeaderInline(&self, width: u16) -> (r: Line)
        ensures
            r@ == header_line(self@, width as int),
    {
        let look = shellImpactGlyphColorForTool(self.permit.impact);
        let block = self.pendingCommand().is_some();
        let mut name = String::from_str("\u{2500} ");
        name.append(self.permit.toolName.as_str());
        name.append(" ");
        name.append(look.0);
        name.append(" ");
        let mut spans: Vec<Span> = Vec::new();
        if block {
            spans.push(span("\u{2500}\u{2534}", colored(Color::DarkGray)));
        }
        spans.push(spanOf(name, colored(look.1).bold()));
        let mut line = Line { spans };
        proof {
            assert(line@ =~= header_left(self@));
        }
        let used: usize = lineWidth(&line);
        let timeout = timeoutLabel(self.permit.toolSummary.as_str());
        let right: usize = if block {
            1
        } else {
            0
        };
        let fill: usize = (width as usize).saturating_sub(used).saturating_sub(
            columnsOf(timeout.as_str()),
        ).saturating_sub(right);
        addSpan(&mut line.spans, spanOf(repeatChar('\u{2500}', fill), colored(Color::DarkGray)));
        if timeout.as_str().unicode_len() > 0 {
            addSpan(&mut line.spans, spanOf(timeout, colored(Color::DarkGray)));
        }
        if block {
            addSpan(&mut line.spans, span("\u{2534}", colored(Color::DarkGray)));
        }
        proof {
            assert(line@ =~= header_line(self@, width as int));
        }
        line
    }

    fn addCommand(&self, out: &mut Vec<Line>, code: &Vec<Line>)
        ensures
            line_views(final(out)@) == line_views(old(out)@) + command_lines(line_views(code@)),
    {
        let ghost all = command_lines(line_views(code@));
        let n: usize = if code.len() > 1 {
            code.len() - 1
        } else {
            code.len()
        };
        let none: Vec<Span> = Vec::new();
        let mut i: usize = 0;
        proof {
            assert(line_views(out@) =~= line_views(old(out)@) + all.take(0));
        }
        while i < n
            invariant
                i <= n <= code@.len(),
                n == all.len(),
                none@.len() == 0,
                all == command_lines(line_views(code@)),
                line_views(out@) == line_views(old(out)@) + all.take(i as int),
            decreases n - i,
        {
            let l = joinSpans(span(" ", Style::plain()), &none, &code[i]);
            proof {
                assert(span_views(none@) =~= Seq::empty());
                assert(l@ =~= seq![sv(" "@, Style::plain())] + code@[i as int]@);
            }
            addLine(out, l);
            proof {
                assert(line_views(out@) =~= line_views(old(out)@) + all.take(i + 1));
            }
            i = i + 1;
        }
        proof {
            assert(all.take(n as int) =~= all);
        }
    }

    fn addExplanation(&self, out: &mut Vec<Line>, width: u16)
        ensures
            line_views(final(out)@) == line_views(old(out)@) + explanation_lines(
                self@.permit.explanation,
                width as int,
            ),
    {
        let ghost all = explanation_lines(self@.permit.explanation, width as int);
        match &self.permit.explanation {
            None => {
                proof {
                    assert(line_views(out@) =~= line_views(old(out)@) + all);
                }
            },
            Some(e) => {
                let style = colored(Color::DarkGray);
                let room: usize = (width as usize).saturating_sub(4);
                let ghost w = wrap_line(seq![sv(e@, style)], room as int);
                let wrapped = wrapSpannedLine(
                    lineOf(span(e.as_str(), style)),
                    room,
                );
                let n: usize = wrapped.len();
                let none: Vec<Span> = Vec::new();
                let mut i: usize = 0;
                proof {
                    assert(line_views(wrapped@).len() == n);
                    assert(line_views(out@) =~= line_views(old(out)@) + all.take(0));
                }
                while i < n
                    invariant
                        i <= n,
                        n == wrapped@.len(),
                        none@.len() == 0,
                        style == colored(Color::DarkGray),
                        w == line_views(wrapped@),
                        all == Seq::new(w.len(), |i: int| seq![sv("  "@, style)] + w[i]).push(
                            Seq::empty(),
                        ),
                        line_views(out@) == line_views(old(out)@) + all.take(i as int),
                    decreases n - i,
                {
                    let l = joinSpans(span("  ", style), &none, &wrapped[i]);
                    proof {
                        assert(span_views(none@) =~= Seq::empty());
                        assert(w[i as int] == wrapped@[i as int]@);
                        assert(l@ =~= seq![sv("  "@, style)] + w[i as int]);
                    }
                    addLine(out, l);
                    proof {
                        assert(line_views(out@) =~= line_views(old(out)@) + all.take(i + 1));
                    }
                    i = i + 1;
                }
                addLine(out, emptyLine());
                proof {
                    assert(line_views(out@) =~= line_views(old(out)@) + all);
                }
            },
        }
    }

    fn addKeys(&self, out: &mut Vec<Line>)
        ensures
            line_views(final(out)@) == line_views(old(out)@) + key_lines(),
    {
        let mut a: Vec<Span> = Vec::new();
        a.push(span("  [y]", colored(Color::Green)));
        a.push(span(" allow  ", colored(Color::DarkGray)));
        a.push(span("[A]", colored(Color::Rgb(80, 80, 120))));
        a.push(span(" always allow", colored(Color::Rgb(80, 80, 80))));
        proof {
            assert(span_views(a@) =~= key_lines()[0]);
        }
        pushLine(out, a);
        let mut b: Vec<Span> = Vec::new();
        b.push(span("  [n]", colored(Color::Red)));
        b.push(span(" deny   ", colored(Color::DarkGray)));
        b.push(span("[D]", colored(Color::Rgb(120, 80, 80))));
        b.push(span(" always deny", colored(Color::Rgb(80, 80, 80))));
        proof {
            assert(span_views(b@) =~= key_lines()[1]);
        }
        pushLine(out, b);
        addLine(out, emptyLine());
        proof {
            assert(line_views(out@) =~= line_views(old(out)@) + key_lines());
        }
    }

    fn addPatterns(&self, out: &mut Vec<Line>)
        ensures
            line_views(final(out)@) == line_views(old(out)@) + Seq::new(
                self@.permit.patterns.len(),
                |i: int| pattern_line(self@.permit, i),
            ) + seq![custom_line(self@.permit)],
    {
        let ghost m = self@.permit;
        let ghost all = Seq::new(m.patterns.len(), |i: int| pattern_line(m, i));
        let n: usize = self.permit.patterns.len();
        let mut i: usize = 0;
        proof {
            assert(m.patterns.len() == n);
            assert(line_views(out@) =~= line_views(old(out)@) + all.take(0));
        }
        while i < n
            invariant
                i <= n,
                n == self.permit.patterns@.len(),
                m == self@.permit,
                all == Seq::new(m.patterns.len(), |i: int| pattern_line(m, i)),
                line_views(out@) == line_views(old(out)@) + all.take(i as int),
            decreases n - i,
        {
            let on = i == self.permit.selected && !self.permit.editing;
            let style = if on {
                colored(Color::Yellow)
            } else {
                colored(Color::DarkGray)
            };
            let mut spans: Vec<Span> = Vec::new();
            if on {
                spans.push(span(" \u{25b8}", style));
            } else {
                spans.push(span("  ", style));
            }
            spans.push(span(self.permit.patterns[i].as_str(), style));
            proof {
                assert(m.patterns[i as int] == self.permit.patterns@[i as int]@);
                assert(span_views(spans@) =~= pattern_line(m, i as int));
            }
            pushLine(out, spans);
            proof {
                assert(line_views(out@) =~= line_views(old(out)@) + all.take(i + 1));
            }
            i = i + 1;
        }
        proof {
            assert(all.take(n as int) =~= all);
        }
        let on = self.permit.selected >= n;
        let style = if on {
            colored(Color::White)
        } else {
            colored(Color::DarkGray)
        };
        let mut text = self.permit.custom.clone();
        let mut spans: Vec<Span> = Vec::new();
        if on {
            text.append("\u{2502}");
            spans.push(span(" \u{25b8}", style));
        } else {
            spans.push(span("  ", style));
        }
        spans.push(span("custom: ", colored(Color::DarkGray)));
        spans.push(spanOf(text, style));
        proof {
            assert(span_views(spans@) =~= custom_line(m));
        }
        pushLine(out, spans);
        proof {
            assert(line_views(out@) =~= line_views(old(out)@) + all + seq![custom_line(m)]);
        }
    }

    /// The lines of the prompt. `code` are the rows of the command.
    pub fn permitLines(&self, code: &Vec<Line>, width: u16, inline: bool) -> (r: Vec<Line>)
        ensures
            line_views(r@) == permit_lines(self@, line_views(code@), width as int, inline),
    {
        let mut out: Vec<Line> = Vec::new();
        let block = self.pendingCommand().is_some();
        proof {
            assert(line_views(out@) =~= Seq::empty());
        }
        if block {
            self.addCommand(&mut out, code);
        }
        if block || inline {
            addLine(&mut out, self.renderPermitHeaderInline(width));
        }
        self.addExplanation(&mut out, width);
        self.addKeys(&mut out);
        self.addPatterns(&mut out);
        proof {
            assert(line_views(out@) =~= permit_lines(
                self@,
                line_views(code@),
                width as int,
                inline,
            ));
        }
        out
    }

    /// Keeps the scroll of the command within its content. `widest` is the width of
    /// the command and `width` that of its block.
    pub fn clampPermitScroll(&mut self, widest: usize, width: u16)
        ensures
            final(self)@ == (PanelV {
                permit: old(self)@.permit.clamped_scroll(widest as int, width as int),
                ..old(self)@
            }),
    {
        let inner: usize = (width as usize).saturating_sub(2);
        let limit: u16 = (widest.saturating_sub(inner) % 65536) as u16;
        if self.permit.scrollX > limit {
            self.permit.scrollX = limit;
        }
    }

    /// Keeps the scroll of the command within its content, where the prompt is drawn
    /// `width` columns wide. `widest` is the width of the command.
    pub fn holdPermitScroll(&mut self, widest: usize, width: u16)
        ensures
            final(self)@ == old(self)@.prompt_held(widest as int, width as int),
    {
        if self.pendingCommand().is_some() {
            self.clampPermitScroll(widest, width.saturating_sub(1));
        }
    }
}

impl PanelV {
    /// The panel once its prompt is drawn `width` columns wide: the block of a command
    /// has one column less, and its scroll stays within the command.
    pub open spec fn prompt_held(self, widest: int, width: int) -> PanelV {
        if pending_command(self) is Some {
            PanelV { permit: self.permit.clamped_scroll(widest, minus(width, 1)), ..self }
        } else {
            self
        }
    }
}

impl PermitV {
    pub open spec fn clamped_scroll(self, widest: int, width: int) -> PermitV {
        let limit = minus(widest, minus(width, 2)) % 65536;
        PermitV {
            scrollX: if self.scrollX > limit {
                limit as u16
            } else {
                self.scrollX
            },
            ..self
        }
    }
}

} // verus!
