//! The box of a subagent in the conversation.

use vstd::prelude::*;
use vstd::string::*;
use crate::agent_panel::blocks::{
    BlockId, CodeBlockRange, MAX_CODE_BLOCK_LINES, RangeV, range_views,
};
use crate::agent_panel::boxes::{
    borderStyle, bordered_row, innerWidth, inner_width, pushBordered, pushRule, rule_row,
};
use crate::agent_panel::entry::{BlockV, pair_views};
use crate::agent_panel::entry_rows::{Throbber, ThrobberV, secondsSince, seconds_since};
use crate::agent_panel::rows::{
    Block, BlockView, Page, PageV, RowV, block_views, codeRange, code_range, copyTexts, joinSpans,
    rv,
};
use crate::agent_panel::state::{CodeState, CodeV};
use crate::agent_panel::subagents::{Subagents, SubagentsV};
use crate::draw::{
    Color, Line, Span, SpanV, Style, addLine, addSpan, colored, copyLine, copySpan, line_views,
    minus, span, spanOf, span_views, sv,
};
use crate::text::{dec, decimal, has_prefix, opt_text, repeatChar, repeated, startsWith};
use crate::unicode::{columns, columnsOf};
use crate::wrap::{
    bar_count, clamped_width, cut_text, stripBlockquoteBars, truncateToWidth, wrapSpannedLine,
    wrap_line,
};

verus! {

/// How many tool lines a subagent box shows.
pub const SHOWN_TOOL_LINES: usize = 3;

// ---- the top border ----

/// The prompt as far as there is room for it.
pub open spec fn shown_prompt(kind: Seq<char>, prompt: Seq<char>, inner: int) -> Seq<char> {
    let room = minus(inner, columns(kind + " "@) as int + 1 + columns("view"@) as int + 1 + 2);
    if columns(prompt) > room {
        cut_text(prompt, room)
    } else {
        prompt
    }
}

/// The top border: the kind of the subagent, its prompt and "view".
pub open spec fn top_row(kind: Seq<char>, prompt: Seq<char>, inner: int) -> RowV {
    let text = shown_prompt(kind, prompt, inner);
    let rule = minus(
        inner,
        columns(kind + " "@) as int + 1 + columns(text) as int + 1 + 1 + columns("view"@) as int,
    );
    rv(
        seq![
            sv("  "@, Style::plain()),
            sv("\u{256D}"@, borderStyle()),
            sv(kind + " "@, colored(Color::Cyan).bold()),
            sv(repeated('\u{2500}', rule / 2), borderStyle()),
            sv(" "@ + text + " "@, colored(Color::Cyan)),
            sv(repeated('\u{2500}', rule - rule / 2), borderStyle()),
            sv(" view"@, colored(Color::Yellow)),
            sv("\u{256E}"@, borderStyle()),
        ],
    )
}

fn pushTop(page: &mut Page, kind: &str, prompt: &str, inner: usize)
    ensures
        final(page)@ == old(page)@.with_row(top_row(kind@, prompt@, inner as int)),
{
    let mut label = String::from_str(kind);
    label.append(" ");
    let labelW: usize = columnsOf(label.as_str());
    let viewW: usize = columnsOf("view");
    let room: usize = inner.saturating_sub(labelW).saturating_sub(viewW).saturating_sub(4);
    let text = if columnsOf(prompt) > room {
        truncateToWidth(prompt, room)
    } else {
        String::from_str(prompt)
    };
    proof {
        assert(text@ == shown_prompt(kind@, prompt@, inner as int));
    }
    let textW: usize = columnsOf(text.as_str());
    let rule: usize = inner.saturating_sub(labelW).saturating_sub(textW).saturating_sub(
        viewW,
    ).saturating_sub(3);
    let half: usize = rule / 2;
    let mut shown = String::from_str(" ");
    shown.append(text.as_str());
    shown.append(" ");
    let mut spans: Vec<Span> = Vec::new();
    spans.push(span("  ", Style::plain()));
    spans.push(span("\u{256D}", borderStyle()));
    spans.push(spanOf(label, colored(Color::Cyan).bold()));
    spans.push(spanOf(repeatChar('\u{2500}', half), borderStyle()));
    spans.push(spanOf(shown, colored(Color::Cyan)));
    spans.push(spanOf(repeatChar('\u{2500}', rule - half), borderStyle()));
    spans.push(span(" view", colored(Color::Yellow)));
    spans.push(span("\u{256E}", borderStyle()));
    proof {
        assert(span_views(spans@) =~= top_row(kind@, prompt@, inner as int).line);
    }
    page.push(Line { spans }, false);
}

// ---- tool lines ----

/// A tool line: the name and as much of the summary as fits.
pub open spec fn tool_text(t: (Seq<char>, Seq<char>), inner: int) -> Seq<char> {
    let head = " "@ + t.0 + ": "@;
    head + cut_text(t.1, minus(inner, columns(head) as int))
}

/// The rows of the tool lines: the last ones, with how many came before.
pub open spec fn tool_rows(t: Seq<(Seq<char>, Seq<char>)>, done: bool, inner: int) -> Seq<RowV> {
    let skip = minus(t.len() as int, SHOWN_TOOL_LINES as int);
    (if skip > 0 {
        seq![
            bordered_row(
                " ... "@ + dec(skip as nat) + " earlier"@,
                colored(Color::DarkGray),
                inner,
            ),
        ]
    } else {
        Seq::empty()
    }) + Seq::new(
        (t.len() - skip) as nat,
        |i: int| bordered_row(tool_text(t[skip + i], inner), colored(Color::Cyan), inner),
    ) + (if t.len() == 0 && !done {
        seq![bordered_row(" waiting\u{2026}"@, colored(Color::DarkGray), inner)]
    } else {
        Seq::empty()
    })
}

fn pushTools(page: &mut Page, t: &Vec<(String, String)>, done: bool, inner: usize)
    ensures
        final(page)@ == old(page)@.with_rows(tool_rows(pair_views(t@), done, inner as int)),
{
    let ghost tv = pair_views(t@);
    let ghost all = tool_rows(tv, done, inner as int);
    let n: usize = t.len();
    let skip: usize = n.saturating_sub(SHOWN_TOOL_LINES);
    if skip > 0 {
        let mut s = String::from_str(" ... ");
        s.append(decimal(skip as u64).as_str());
        s.append(" earlier");
        pushBordered(page, s.as_str(), colored(Color::DarkGray), inner);
    }
    let ghost lead: int = if skip > 0 {
        1
    } else {
        0
    };
    proof {
        assert(page@.rows =~= old(page)@.rows + all.take(lead));
    }
    let mut i: usize = skip;
    while i < n
        invariant
            skip <= i <= n,
            n == t@.len(),
            tv == pair_views(t@),
            skip == minus(n as int, SHOWN_TOOL_LINES as int),
            lead == (if skip > 0 {
                1int
            } else {
                0int
            }),
            all == tool_rows(tv, done, inner as int),
            page@ == old(page)@.with_rows(all.take(lead + (i - skip))),
        decreases n - i,
    {
        let mut head = String::from_str(" ");
        head.append(t[i].0.as_str());
        head.append(": ");
        let room: usize = inner.saturating_sub(columnsOf(head.as_str()));
        let cut = truncateToWidth(t[i].1.as_str(), room);
        head.append(cut.as_str());
        proof {
            assert(tv[i as int] == (t@[i as int].0@, t@[i as int].1@));
        }
        pushBordered(page, head.as_str(), colored(Color::Cyan), inner);
        proof {
            assert(page@.rows =~= old(page)@.rows + all.take(lead + (i + 1 - skip)));
        }
        i = i + 1;
    }
    if n == 0 && !done {
        pushBordered(page, " waiting\u{2026}", colored(Color::DarkGray), inner);
    }
    proof {
        assert(page@.rows =~= old(page)@.rows + all);
    }
}

// ---- the content ----

/// The texts of spans, one after another.
pub open spec fn spans_text(s: Seq<SpanV>) -> Seq<char>
    decreases s.len(),
{
    if s.len() == 0 {
        Seq::empty()
    } else {
        spans_text(s.drop_last()) + s.last().text
    }
}

/// The texts of spans, one after another.
pub fn spansText(v: &Vec<Span>) -> (r: String)
    ensures
        r@ == spans_text(span_views(v@)),
{
    let mut s = String::new();
    let ghost sp = span_views(v@);
    let mut i: usize = 0;
    proof {
        assert(s@ =~= spans_text(sp.take(0)));
    }
    while i < v.len()
        invariant
            i <= v@.len(),
            sp == span_views(v@),
            s@ == spans_text(sp.take(i as int)),
        decreases v@.len() - i,
    {
        proof {
            assert(sp.take(i + 1).drop_last() =~= sp.take(i as int));
            assert(sp.take(i + 1).last() == v@[i as int]@);
        }
        s.append(v[i].text.as_str());
        i = i + 1;
    }
    proof {
        assert(sp.take(sp.len() as int) =~= sp);
    }
    s
}

/// Spans between the borders of the box, filled up to `w` columns.
pub open spec fn boxed(s: Seq<SpanV>, w: int) -> Seq<SpanV> {
    let pad = minus(w, columns(spans_text(s)) as int);
    seq![sv("\u{2502} "@, borderStyle())] + s + seq![
        sv(repeated(' ', pad) + " \u{2502}"@, borderStyle()),
    ]
}

fn boxLine(bars: &Vec<Span>, l: &Line, w: usize) -> (r: Line)
    ensures
        r@ == boxed(span_views(bars@) + l@, w as int),
{
    let ghost all = span_views(bars@) + l@;
    let first = span("\u{2502} ", borderStyle());
    let joined = joinSpans(first, bars, l);
    let mut inside = joined.spans;
    proof {
        assert(span_views(inside@) =~= seq![sv("\u{2502} "@, borderStyle())] + all);
    }
    // The text without the left border.
    let none: Vec<Span> = Vec::new();
    let plain = withoutFirst(&inside);
    proof {
        assert(span_views(plain@) =~= all);
    }
    let text = spansText(&plain);
    let mut tail = repeatChar(' ', w.saturating_sub(columnsOf(text.as_str())));
    tail.append(" \u{2502}");
    addSpan(&mut inside, spanOf(tail, borderStyle()));
    proof {
        assert(span_views(inside@) =~= boxed(all, w as int));
    }
    Line { spans: inside }
}

fn withoutFirst(v: &Vec<Span>) -> (r: Vec<Span>)
    requires
        v@.len() > 0,
    ensures
        span_views(r@) == span_views(v@).skip(1),
{
    let mut out: Vec<Span> = Vec::new();
    let ghost sp = span_views(v@);
    let mut i: usize = 1;
    proof {
        assert(span_views(out@) =~= sp.subrange(1, 1));
    }
    while i < v.len()
        invariant
            1 <= i <= v@.len(),
            sp == span_views(v@),
            span_views(out@) == sp.subrange(1, i as int),
        decreases v@.len() - i,
    {
        addSpan(&mut out, copySpan(&v[i]));
        proof {
            assert(span_views(out@) =~= sp.subrange(1, i + 1));
        }
        i = i + 1;
    }
    proof {
        assert(sp.subrange(1, sp.len() as int) =~= sp.skip(1));
    }
    out
}

/// The rows of one wrapped line inside the box.
pub open spec fn boxed_piece(bars: Seq<SpanV>, wrapped: Seq<Seq<SpanV>>, w: int) -> Seq<Seq<SpanV>> {
    Seq::new(wrapped.len(), |i: int| boxed(bars + wrapped[i], w))
}

/// The rows of the first `n` lines of a text inside the box.
pub open spec fn boxed_text(l: Seq<Seq<SpanV>>, n: int, w: int) -> Seq<Seq<SpanV>>
    decreases n,
{
    if n <= 0 {
        Seq::empty()
    } else {
        let k = bar_count(l[n - 1]);
        boxed_text(l, n - 1, w) + boxed_piece(
            l[n - 1].take(k),
            wrap_line(l[n - 1].skip(k), minus(w, clamped_width(2 * k))),
            w,
        )
    }
}

/// The content of a box: its rows, counted from the top of the content, and the
/// code blocks among them.
#[verifier::ext_equal]
pub ghost struct ContentV {
    pub rows: Seq<Seq<SpanV>>,
    pub ranges: Seq<RangeV>,
    pub ordinal: int,
}

/// The content of the first `n` blocks, `w` columns wide.
pub open spec fn content_of(
    b: Seq<BlockView>,
    n: int,
    w: int,
    entry: usize,
    code: CodeV,
    now: u64,
) -> ContentV
    decreases n,
{
    if n <= 0 {
        ContentV { rows: Seq::empty(), ranges: Seq::empty(), ordinal: 0 }
    } else {
        let c = content_of(b, n - 1, w, entry, code, now);
        match b[n - 1] {
            BlockView::Text(l) => ContentV {
                rows: c.rows + boxed_text(l, l.len() as int, w),
                ..c
            },
            BlockView::Code(k) => {
                let rows = c.rows + Seq::new(
                    k.rendered.len(),
                    |i: int| boxed(Seq::<SpanV>::empty() + k.rendered[i], w),
                );
                let id = (entry, c.ordinal as usize);
                ContentV {
                    rows,
                    ranges: c.ranges.push(
                        code_range(
                            k,
                            id,
                            c.rows.len() as int,
                            minus(rows.len() as int, 1),
                            w,
                            4,
                            code.shows_copied(id, now),
                        ),
                    ),
                    ordinal: c.ordinal + 1,
                }
            },
        }
    }
}

/// The content of a box as it is built.
struct Content {
    rows: Vec<Line>,
    ranges: Vec<CodeBlockRange>,
}

impl Content {
    fn addText(&mut self, lines: &Vec<Line>, w: usize)
        ensures
            line_views(final(self).rows@) == line_views(old(self).rows@) + boxed_text(
                line_views(lines@),
                lines@.len() as int,
                w as int,
            ),
            final(self).ranges == old(self).ranges,
    {
        let ghost lv = line_views(lines@);
        let mut i: usize = 0;
        proof {
            assert(line_views(self.rows@) =~= line_views(old(self).rows@) + boxed_text(
                lv,
                0,
                w as int,
            ));
        }
        while i < lines.len()
            invariant
                i <= lines@.len(),
                lv == line_views(lines@),
                self.ranges == old(self).ranges,
                line_views(self.rows@) == line_views(old(self).rows@) + boxed_text(
                    lv,
                    i as int,
                    w as int,
                ),
            decreases lines@.len() - i,
        {
            let l = copyLine(&lines[i]);
            proof {
                assert(lv[i as int] == l@);
            }
            let (bars, content, barWidth) = stripBlockquoteBars(l);
            self.addPiece(&bars, content, w.saturating_sub(barWidth), w);
            proof {
                assert(line_views(self.rows@) =~= line_views(old(self).rows@) + boxed_text(
                    lv,
                    i + 1,
                    w as int,
                ));
            }
            i = i + 1;
        }
    }

    fn addPiece(&mut self, bars: &Vec<Span>, line: Line, room: usize, w: usize)
        ensures
            line_views(final(self).rows@) == line_views(old(self).rows@) + boxed_piece(
                span_views(bars@),
                wrap_line(line@, room as int),
                w as int,
            ),
            final(self).ranges == old(self).ranges,
    {
        let ghost wr = wrap_line(line@, room as int);
        let wrapped = wrapSpannedLine(line, room);
        self.addBoxed(bars, &wrapped, w);
        proof {
            assert(wr == line_views(wrapped@));
        }
    }

    fn addBoxed(&mut self, bars: &Vec<Span>, lines: &Vec<Line>, w: usize)
        ensures
            line_views(final(self).rows@) == line_views(old(self).rows@) + boxed_piece(
                span_views(bars@),
                line_views(lines@),
                w as int,
            ),
            final(self).ranges == old(self).ranges,
    {
        let ghost all = boxed_piece(span_views(bars@), line_views(lines@), w as int);
        let mut i: usize = 0;
        proof {
            assert(line_views(self.rows@) =~= line_views(old(self).rows@) + all.take(0));
        }
        while i < lines.len()
            invariant
                i <= lines@.len(),
                all == boxed_piece(span_views(bars@), line_views(lines@), w as int),
                self.ranges == old(self).ranges,
                line_views(self.rows@) == line_views(old(self).rows@) + all.take(i as int),
            decreases lines@.len() - i,
        {
            let l = boxLine(bars, &lines[i], w);
            addLine(&mut self.rows, l);
            proof {
                assert(line_views(lines@)[i as int] == lines@[i as int]@);
                assert(line_views(self.rows@) =~= line_views(old(self).rows@) + all.take(i + 1));
            }
            i = i + 1;
        }
        proof {
            assert(all.take(all.len() as int) =~= all);
        }
    }
}

fn contentOf(
    blocks: &Vec<Block>,
    w: u16,
    entry: usize,
    code: &CodeState,
    now: u64,
) -> (r: Content)
    requires
        w + 4 <= u16::MAX,
    ensures
        line_views(r.rows@) == content_of(
            block_views(blocks@),
            blocks@.len() as int,
            w as int,
            entry,
            code@,
            now,
        ).rows,
        range_views(r.ranges@) == content_of(
            block_views(blocks@),
            blocks@.len() as int,
            w as int,
            entry,
            code@,
            now,
        ).ranges,
{
    let ghost bv = block_views(blocks@);
    let none: Vec<Span> = Vec::new();
    let mut c = Content { rows: Vec::new(), ranges: Vec::new() };
    let mut ordinal: usize = 0;
    let mut i: usize = 0;
    proof {
        assert(line_views(c.rows@) =~= Seq::empty());
        assert(range_views(c.ranges@) =~= Seq::empty());
        assert(span_views(none@) =~= Seq::empty());
    }
    while i < blocks.len()
        invariant
            i <= blocks@.len(),
            ordinal <= i,
            w + 4 <= u16::MAX,
            bv == block_views(blocks@),
            span_views(none@) == Seq::<SpanV>::empty(),
            line_views(c.rows@) == content_of(bv, i as int, w as int, entry, code@, now).rows,
            range_views(c.ranges@) == content_of(bv, i as int, w as int, entry, code@, now).ranges,
            ordinal == content_of(bv, i as int, w as int, entry, code@, now).ordinal,
        decreases blocks@.len() - i,
    {
        proof {
            assert(bv[i as int] == blocks@[i as int]@);
        }
        match &blocks[i] {
            Block::Text(lines) => {
                c.addText(lines, w as usize);
            },
            Block::Code { lines, code: text, maxWidth, rendered } => {
                let id: BlockId = (entry, ordinal);
                let at: usize = c.rows.len();
                let ghost before = line_views(c.rows@);
                let ghost ranges = range_views(c.ranges@);
                c.addBoxed(&none, rendered, w as usize);
                let end: usize = c.rows.len().saturating_sub(1);
                let copied = code.showsCopied(id, now);
                let r = codeRange(lines, text, *maxWidth, id, at, end, w, 4, copied);
                c.ranges.push(r);
                ordinal = ordinal + 1;
                proof {
                    let k = bv[i as int]->Code_0;
                    assert(line_views(c.rows@).len() == c.rows@.len());
                    assert(boxed_piece(Seq::empty(), k.rendered, w as int) =~= Seq::new(
                        k.rendered.len(),
                        |j: int| boxed(Seq::<SpanV>::empty() + k.rendered[j], w as int),
                    ));
                    assert(r@ == code_range(
                        k,
                        id,
                        at as int,
                        end as int,
                        w as int,
                        4,
                        copied,
                    ));
                    assert(range_views(c.ranges@) =~= ranges.push(r@));
                }
            },
        }
        i = i + 1;
    }
    c
}

/// How many of `total` content rows are shown.
pub open spec fn shown_rows(total: int, expanded: bool) -> int {
    if total > MAX_CODE_BLOCK_LINES && !expanded {
        MAX_CODE_BLOCK_LINES as int
    } else {
        total
    }
}

/// A code block of the content, where the content begins at row `base` and
/// `shown` of its rows are shown.
pub open spec fn placed(r: RangeV, base: int, shown: int) -> RangeV {
    RangeV {
        startLine: base + r.startLine,
        endLine: if r.endLine >= shown {
            minus(base + shown, 1)
        } else {
            base + r.endLine
        },
        ..r
    }
}

/// The code blocks of the content that are shown, of the first `n`.
pub open spec fn placed_ranges(r: Seq<RangeV>, n: int, base: int, shown: int) -> Seq<RangeV>
    decreases n,
{
    if n <= 0 {
        Seq::empty()
    } else {
        let p = placed_ranges(r, n - 1, base, shown);
        if r[n - 1].startLine >= shown {
            p
        } else {
            p.push(placed(r[n - 1], base, shown))
        }
    }
}

/// The label of the bottom border of a content.
pub open spec fn fold_label(total: int, expanded: bool) -> Seq<char> {
    if total <= MAX_CODE_BLOCK_LINES {
        ""@
    } else if expanded {
        " \u{25B4} "@
    } else {
        " \u{25BE}"@ + dec((total - MAX_CODE_BLOCK_LINES) as nat) + " "@
    }
}

/// The page with the content of a box and its bottom border.
pub open spec fn with_content(
    p: PageV,
    c: ContentV,
    expanded: bool,
    entry: usize,
    inner: int,
) -> PageV {
    let total = c.rows.len() as int;
    let shown = shown_rows(total, expanded);
    let base = p.rows.len() as int;
    PageV {
        rows: p.rows + Seq::new(
            shown as nat,
            |i: int| rv(seq![sv("  "@, Style::plain())] + c.rows[i]),
        ) + seq![
            rule_row(
                "\u{2570}"@,
                "\u{256F}"@,
                fold_label(total, expanded),
                if total > MAX_CODE_BLOCK_LINES {
                    colored(Color::Gray)
                } else {
                    borderStyle()
                },
                inner,
            ),
        ],
        ranges: p.ranges + placed_ranges(c.ranges, c.ranges.len() as int, base, shown),
        toggle: Some(((base + shown) as usize, entry)),
        header: p.header,
    }
}

/// A copy of a range at another place.
pub(crate) fn placeRange(r: &CodeBlockRange, start: usize, end: usize) -> (c: CodeBlockRange)
    ensures
        c@ == (RangeV { startLine: start as int, endLine: end as int, ..r@ }),
{
    let c = CodeBlockRange {
        startLine: start,
        endLine: end,
        blockId: r.blockId,
        maxContentWidth: r.maxContentWidth,
        innerWidth: r.innerWidth,
        contentLines: copyTexts(&r.contentLines),
        rawCode: r.rawCode.clone(),
        copyLabelCol: r.copyLabelCol,
        collapsible: r.collapsible,
        totalLines: r.totalLines,
    };
    c
}

#[verifier::rlimit(40)]
fn pushContent(page: &mut Page, c: &Content, expanded: bool, entry: usize, inner: usize)
    ensures
        forall|cv: ContentV|
            cv.rows == line_views(c.rows@) && cv.ranges == range_views(c.ranges@) ==> final(page)@
                == #[trigger] with_content(old(page)@, cv, expanded, entry, inner as int),
{
    let ghost cr = line_views(c.rows@);
    let ghost rr = range_views(c.ranges@);
    let total: usize = c.rows.len();
    let shown: usize = if total > MAX_CODE_BLOCK_LINES && !expanded {
        MAX_CODE_BLOCK_LINES
    } else {
        total
    };
    let base: usize = page.height();
    let none: Vec<Span> = Vec::new();
    let ghost all = Seq::new(
        shown as nat,
        |i: int| rv(seq![sv("  "@, Style::plain())] + cr[i]),
    );
    proof {
        assert(page@.rows =~= old(page)@.rows + all.take(0));
    }
    let mut i: usize = 0;
    while i < shown
        invariant
            i <= shown <= total,
            total == c.rows@.len(),
            cr == line_views(c.rows@),
            none@.len() == 0,
            all == Seq::new(shown as nat, |i: int| rv(seq![sv("  "@, Style::plain())] + cr[i])),
            page@ == old(page)@.with_rows(all.take(i as int)),
        decreases shown - i,
    {
        let l = joinSpans(span("  ", Style::plain()), &none, &c.rows[i]);
        proof {
            assert(span_views(none@) =~= Seq::empty());
            assert(l@ =~= seq![sv("  "@, Style::plain())] + cr[i as int]);
        }
        page.push(l, false);
        proof {
            assert(page@.rows =~= old(page)@.rows + all.take(i + 1));
        }
        i = i + 1;
    }
    proof {
        assert(all.take(shown as int) =~= all);
    }
    let end: usize = page.height();
    let ghost before = page@.ranges;
    proof {
        assert(page@.ranges =~= before + placed_ranges(rr, 0, base as int, shown as int));
    }
    let mut j: usize = 0;
    while j < c.ranges.len()
        invariant
            j <= c.ranges@.len(),
            rr == range_views(c.ranges@),
            end == base + shown,
            page@ == (PageV {
                ranges: before + placed_ranges(rr, j as int, base as int, shown as int),
                ..old(page)@.with_rows(all)
            }),
        decreases c.ranges@.len() - j,
    {
        proof {
            assert(rr[j as int] == c.ranges@[j as int]@);
        }
        let r = &c.ranges[j];
        if r.startLine < shown {
            let last: usize = if r.endLine >= shown {
                end.saturating_sub(1)
            } else {
                base + r.endLine
            };
            page.pushRange(placeRange(r, base + r.startLine, last));
        }
        proof {
            assert(page@.ranges =~= before + placed_ranges(
                rr,
                j + 1,
                base as int,
                shown as int,
            ));
        }
        j = j + 1;
    }
    if total <= MAX_CODE_BLOCK_LINES {
        pushRule(page, "\u{2570}", "\u{256F}", "", borderStyle(), inner);
    } else if expanded {
        pushRule(page, "\u{2570}", "\u{256F}", " \u{25B4} ", colored(Color::Gray), inner);
    } else {
        let mut s = String::from_str(" \u{25BE}");
        s.append(decimal((total - MAX_CODE_BLOCK_LINES) as u64).as_str());
        s.append(" ");
        pushRule(page, "\u{2570}", "\u{256F}", s.as_str(), colored(Color::Gray), inner);
    }
    page.toggle = Some((end, entry));
    proof {
        assert forall|cv: ContentV|
            cv.rows == line_views(c.rows@) && cv.ranges == range_views(c.ranges@) implies page@
            == #[trigger] with_content(old(page)@, cv, expanded, entry, inner as int) by {
            let w = with_content(old(page)@, cv, expanded, entry, inner as int);
            assert(page@.rows =~= w.rows);
            assert(page@.ranges =~= w.ranges);
        }
    }
}

// ---- the bottom ----

/// How a subagent ended: a glyph, its color and a word.
pub open spec fn outcome(content: Option<Seq<char>>, turns: usize) -> (Seq<char>, Color, Seq<char>) {
    let c = match content {
        Some(s) => s,
        None => Seq::empty(),
    };
    if has_prefix(c, "[subagent cancelled by user]"@) {
        ("\u{2298}"@, Color::Red, "cancelled"@)
    } else if has_prefix(c, "[subagent errored"@) {
        ("\u{2717}\u{FE0E}"@, Color::Red, "errored"@)
    } else {
        ("\u{2713}\u{FE0E}"@, Color::Green, dec(turns as nat) + " turns"@)
    }
}

/// The label of a finished box.
pub open spec fn footer_text(b: BlockV) -> Seq<char> {
    let o = outcome(b.content, b.turns);
    " "@ + o.0 + " "@ + b.agentType + " ("@ + o.2 + ") "@
}

fn footerOf(kind: &str, content: &Option<String>, turns: usize) -> (r: (String, Color))
    ensures
        r.1 == outcome(opt_text(*content), turns).1,
        r.0@ == " "@ + outcome(opt_text(*content), turns).0 + " "@ + kind@ + " ("@ + outcome(
            opt_text(*content),
            turns,
        ).2 + ") "@,
{
    let empty = String::new();
    let c = match content {
        Some(s) => s.as_str(),
        None => empty.as_str(),
    };
    let mut word = String::new();
    let mut s = String::from_str(" ");
    let color: Color = if startsWith(c, "[subagent cancelled by user]") {
        s.append("\u{2298}");
        word.append("cancelled");
        proof {
            assert(word@ =~= "cancelled"@);
        }
        Color::Red
    } else if startsWith(c, "[subagent errored") {
        s.append("\u{2717}\u{FE0E}");
        word.append("errored");
        proof {
            assert(word@ =~= "errored"@);
        }
        Color::Red
    } else {
        s.append("\u{2713}\u{FE0E}");
        word = decimal(turns as u64);
        word.append(" turns");
        Color::Green
    };
    s.append(" ");
    s.append(kind);
    s.append(" (");
    s.append(word.as_str());
    s.append(") ");
    (s, color)
}

/// Seconds that the subagent runs whose tab is shown.
pub open spec fn running_for(s: SubagentsV, now: u64) -> nat {
    match s.selected {
        Some(i) => if i < s.active.len() {
            seconds_since(Some(s.active[i].startTime), now)
        } else {
            0
        },
        None => 0,
    }
}

/// The page with the box of a subagent. `b` are the blocks of its content.
pub open spec fn subagent_page(
    p: PageV,
    e: BlockV,
    b: Seq<BlockView>,
    subs: SubagentsV,
    code: CodeV,
    t: ThrobberV,
    entry: usize,
    width: int,
    now: u64,
) -> PageV {
    let inner = inner_width(width);
    let top = PageV { header: Some(p.rows.len() as usize), ..p }.with_row(
        top_row(e.agentType, e.prompt, inner),
    ).with_rows(tool_rows(e.toolLines, e.done, inner));
    let color = colored(outcome(e.content, e.turns).1);
    if !e.done {
        top.with_row(
            rule_row(
                "\u{2570}"@,
                "\u{256F}"@,
                " "@ + t.glyph.text + " running ("@ + dec(running_for(subs, now)) + "s) "@,
                colored(Color::Yellow),
                inner,
            ),
        )
    } else if e.content is None {
        top.with_row(rule_row("\u{2570}"@, "\u{256F}"@, footer_text(e), color, inner))
    } else {
        with_content(
            top.with_row(rule_row("\u{251C}"@, "\u{2524}"@, footer_text(e), color, inner)),
            content_of(b, b.len() as int, minus(inner, 2), entry, code, now),
            e.contentExpanded,
            entry,
            inner,
        )
    }
}

/// Adds the box of a subagent. `blocks` are the blocks of its content, which is
/// six columns narrower than the panel.
pub fn pushSubagent(
    page: &mut Page,
    agentType: &String,
    prompt: &String,
    toolLines: &Vec<(String, String)>,
    done: bool,
    turns: usize,
    content: &Option<String>,
    contentExpanded: bool,
    sessionId: &Option<String>,
    blocks: &Vec<Block>,
    subs: &Subagents,
    code: &CodeState,
    t: &Throbber,
    entry: usize,
    width: u16,
    now: u64,
)
    ensures
        final(page)@ == subagent_page(
            old(page)@,
            BlockV {
                agentType: agentType@,
                prompt: prompt@,
                toolLines: pair_views(toolLines@),
                done,
                turns,
                content: opt_text(*content),
                contentExpanded,
                sessionId: opt_text(*sessionId),
            },
            block_views(blocks@),
            subs@,
            code@,
            t@,
            entry,
            width as int,
            now,
        ),
{
    let inner: usize = innerWidth(width);
    page.header = Some(page.height());
    pushTop(page, agentType.as_str(), prompt.as_str(), inner);
    pushTools(page, toolLines, done, inner);
    if !done {
        let since: Option<u64> = match subs.currentSubagent() {
            Some(a) => Some(a.startTime),
            None => None,
        };
        let mut s = String::from_str(" ");
        s.append(t.glyph.text.as_str());
        s.append(" running (");
        s.append(decimal(secondsSince(since, now)).as_str());
        s.append("s) ");
        pushRule(page, "\u{2570}", "\u{256F}", s.as_str(), colored(Color::Yellow), inner);
        return;
    }
    let (label, color) = footerOf(agentType.as_str(), content, turns);
    match content {
        None => {
            pushRule(page, "\u{2570}", "\u{256F}", label.as_str(), colored(color), inner);
        },
        Some(_) => {
            pushRule(page, "\u{251C}", "\u{2524}", label.as_str(), colored(color), inner);
            let w: u16 = inner.saturating_sub(2) as u16;
            let c = contentOf(blocks, w, entry, code, now);
            let ghost cv = content_of(
                block_views(blocks@),
                blocks@.len() as int,
                w as int,
                entry,
                code@,
                now,
            );
            let ghost before = page@;
            pushContent(page, &c, contentExpanded, entry, inner);
            proof {
                assert(page@ == with_content(before, cv, contentExpanded, entry, inner as int));
            }
        },
    }
}

} // verus!
