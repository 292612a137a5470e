//! Selecting in the conversation: the message at a line, and the text of a
//! selection.

use vstd::prelude::*;
use vstd::string::*;
use crate::agent_panel::blocks::{RangeV, block_at, blockAt};
use crate::agent_panel::conversation::{
    EntryInput, InputV, entry_page, input_at, input_views,
};
use crate::agent_panel::entry::{EntryV, PanelEntry};
use crate::agent_panel::entry_rows::{Throbber, ThrobberV};
use crate::agent_panel::rows::{Block, BlockView, Page, PageV, RowV, block_views, row_views};
use crate::agent_panel::state::{AgentPanel, PanelV, StreamV};
use crate::draw::{Line, SpanV, addLine, copyLine, line_views, max, min, minus};
use crate::text::{lines_of, linesOf, texts, trimEnd, trim_end};
use crate::unicode::{columns, columnsOf, concat};
use crate::wrap::{between_columns, sliceByDisplayColumn};

verus! {

// ---- heights ----

/// The largest line number.
pub const LAST_LINE: u32 = 0x7FFF_FFFF;

/// A line number `n` lines further down.
pub open spec fn below(at: int, n: int) -> int {
    min(at + n, LAST_LINE as int)
}

fn lower(at: u32, n: usize) -> (r: u32)
    requires
        at <= LAST_LINE,
    ensures
        r == below(at as int, n as int),
        r <= LAST_LINE,
{
    let room: u32 = LAST_LINE - at;
    if n as u64 >= room as u64 {
        LAST_LINE
    } else {
        at + n as u32
    }
}

/// The columns of a line, of its first `n` spans.
pub open spec fn spans_width(l: Seq<SpanV>, n: int) -> int
    decreases n,
{
    if n <= 0 {
        0
    } else {
        min(spans_width(l, n - 1) + columns(l[n - 1].text), usize::MAX as int)
    }
}

/// The columns of a line.
pub open spec fn line_width(l: Seq<SpanV>) -> int {
    spans_width(l, l.len() as int)
}

/// The columns of a line.
pub fn lineWidth(l: &Line) -> (r: usize)
    ensures
        r == line_width(l@),
{
    let mut w: usize = 0;
    let mut i: usize = 0;
    while i < l.spans.len()
        invariant
            i <= l.spans@.len(),
            w == spans_width(l@, i as int),
        decreases l.spans@.len() - i,
    {
        proof {
            assert(l@[i as int] == l.spans@[i as int]@);
        }
        w = w.saturating_add(columnsOf(l.spans[i].text.as_str()));
        i = i + 1;
    }
    w
}

/// How many lines of `width` columns a line takes.
pub open spec fn height_of(cols: int, width: int) -> int {
    if cols == 0 {
        1
    } else {
        (cols - 1) / width + 1
    }
}

fn heightOf(cols: usize, width: usize) -> (r: usize)
    requires
        width > 0,
    ensures
        r == height_of(cols as int, width as int),
{
    if cols == 0 {
        1
    } else {
        proof {
            assert((cols - 1) / (width as int) <= cols - 1) by (nonlinear_arith)
                requires
                    cols >= 1,
                    width > 0,
            ;
        }
        (cols - 1) / width + 1
    }
}

/// Where the first `n` rows end that begin at line `at`.
pub open spec fn rows_end(rows: Seq<RowV>, n: int, width: int, at: int) -> int
    decreases n,
{
    if n <= 0 {
        at
    } else {
        below(rows_end(rows, n - 1, width, at), height_of(line_width(rows[n - 1].line), width))
    }
}

/// Where the first `n` lines end that begin at line `at`.
pub open spec fn lines_end(l: Seq<Seq<SpanV>>, n: int, width: int, at: int) -> int
    decreases n,
{
    if n <= 0 {
        at
    } else {
        below(lines_end(l, n - 1, width, at), height_of(line_width(l[n - 1]), width))
    }
}

/// Where the first `n` lines of reasoning end that begin at line `at`. They are
/// indented by two columns.
pub open spec fn reasoning_end(l: Seq<Seq<char>>, n: int, width: int, at: int) -> int
    decreases n,
{
    if n <= 0 {
        at
    } else {
        below(
            reasoning_end(l, n - 1, width, at),
            height_of(columns("  "@ + l[n - 1]) as int, width),
        )
    }
}

// ---- the message at a line ----

/// A page with nothing on it.
pub open spec fn blank_page() -> PageV {
    PageV { rows: Seq::empty(), ranges: Seq::empty(), header: None, toggle: None }
}

/// The first line and the end of the entry `i`, where entry 0 begins at line 0
/// and between two entries stands an empty line.
pub open spec fn entry_span(
    p: PanelV,
    inp: Seq<InputV>,
    t: ThrobberV,
    width: int,
    now: u64,
    i: int,
) -> (int, int)
    decreases i,
{
    let start = if i <= 0 {
        0
    } else {
        below(entry_span(p, inp, t, width, now, i - 1).1, 1)
    };
    let rows = entry_page(p, blank_page(), i, input_at(inp, i), t, width, now).rows;
    (start, rows_end(rows, rows.len() as int, width, start))
}

/// The first entry from `i` on that ends at `line` or below it.
pub open spec fn entry_at(
    p: PanelV,
    inp: Seq<InputV>,
    t: ThrobberV,
    width: int,
    now: u64,
    line: int,
    i: int,
) -> Option<int>
    decreases p.entries.len() - i,
{
    if i >= p.entries.len() {
        None
    } else if line <= entry_span(p, inp, t, width, now, i).1 {
        Some(i)
    } else {
        entry_at(p, inp, t, width, now, line, i + 1)
    }
}

/// The entries that make up the message of the entry `i`: a reasoning and the
/// answer behind it are one message.
pub open spec fn group_of(e: Seq<EntryV>, i: int) -> (int, int) {
    if e[i] is Assistant && i > 0 && e[i - 1] is Reasoning {
        (i - 1, i)
    } else if e[i] is Reasoning && i + 1 < e.len() && e[i + 1] is Assistant {
        (i, i + 1)
    } else {
        (i, i)
    }
}

/// The line behind the streamed message that begins at `at`; `flat` are the lines
/// of its content.
pub open spec fn stream_end(s: StreamV, flat: Seq<Seq<SpanV>>, width: int, at: int) -> int {
    let quiet = s.content.len() == 0 && s.pending.len() == 0 && s.reasoning.len() == 0;
    let l = lines_of(s.reasoning);
    let head = if quiet || s.reasoning.len() > 0 {
        let blob = below(at, 2);
        below(
            if s.thinkingExpanded {
                reasoning_end(l, l.len() as int, width, blob)
            } else {
                blob
            },
            1,
        )
    } else {
        at
    };
    if s.drawn().len() > 0 {
        lines_end(flat, flat.len() as int, width, head)
    } else {
        head
    }
}

/// Lines `start` to `end`, which is not included, as lines of the screen.
pub open spec fn on_grid(start: int, end: int, shift: int) -> Option<(int, int)> {
    if end - 1 < start {
        None
    } else {
        Some((start - shift, end - 1 - shift))
    }
}

/// The first and the last line of the message at a line of the screen.
pub open spec fn bounds_at(
    p: PanelV,
    inp: Seq<InputV>,
    flat: Seq<Seq<SpanV>>,
    t: ThrobberV,
    now: u64,
    grid: int,
) -> Option<(int, int)> {
    let width = max(p.scroll.chatWidth as int, 1);
    let shift = p.scroll.offset + p.scroll.lastY;
    let line = grid + shift;
    if line < 0 {
        None
    } else {
        match entry_at(p, inp, t, width, now, line, 0) {
            Some(i) => {
                let g = group_of(p.entries, i);
                on_grid(
                    entry_span(p, inp, t, width, now, g.0).0,
                    entry_span(p, inp, t, width, now, g.1).1,
                    shift,
                )
            },
            None => if p.stream.isStreaming {
                let n = p.entries.len() as int;
                let start = if n == 0 {
                    0
                } else {
                    below(entry_span(p, inp, t, width, now, n - 1).1, 1)
                };
                let end = stream_end(p.stream, flat, width, start);
                if start <= line < end {
                    on_grid(start, end, shift)
                } else {
                    None
                }
            } else {
                None
            },
        }
    }
}

fn rowsEnd(page: &Page, width: usize, at: u32) -> (r: u32)
    requires
        width > 0,
        at <= LAST_LINE,
    ensures
        r == rows_end(page@.rows, page@.rows.len() as int, width as int, at as int),
        r <= LAST_LINE,
{
    let ghost rows = page@.rows;
    let mut c: u32 = at;
    let mut i: usize = 0;
    while i < page.rows.len()
        invariant
            i <= page.rows@.len(),
            width > 0,
            c <= LAST_LINE,
            rows == row_views(page.rows@),
            c == rows_end(rows, i as int, width as int, at as int),
        decreases page.rows@.len() - i,
    {
        proof {
            assert(rows[i as int] == page.rows@[i as int]@);
        }
        let w: usize = lineWidth(&page.rows[i].line);
        c = lower(c, heightOf(w, width));
        i = i + 1;
    }
    c
}

fn linesEnd(l: &Vec<Line>, width: usize, at: u32) -> (r: u32)
    requires
        width > 0,
        at <= LAST_LINE,
    ensures
        r == lines_end(line_views(l@), l@.len() as int, width as int, at as int),
        r <= LAST_LINE,
{
    let ghost lv = line_views(l@);
    let mut c: u32 = at;
    let mut i: usize = 0;
    while i < l.len()
        invariant
            i <= l@.len(),
            width > 0,
            c <= LAST_LINE,
            lv == line_views(l@),
            c == lines_end(lv, i as int, width as int, at as int),
        decreases l@.len() - i,
    {
        proof {
            assert(lv[i as int] == l@[i as int]@);
        }
        c = lower(c, heightOf(lineWidth(&l[i]), width));
        i = i + 1;
    }
    c
}

fn reasoningEnd(text: &str, width: usize, at: u32) -> (r: u32)
    requires
        width > 0,
        at <= LAST_LINE,
    ensures
        r == reasoning_end(
            lines_of(text@),
            lines_of(text@).len() as int,
            width as int,
            at as int,
        ),
        r <= LAST_LINE,
{
    let v = linesOf(text);
    let ghost l = lines_of(text@);
    let mut c: u32 = at;
    let mut i: usize = 0;
    while i < v.len()
        invariant
            i <= v@.len(),
            width > 0,
            c <= LAST_LINE,
            l == texts(v@),
            c == reasoning_end(l, i as int, width as int, at as int),
        decreases v@.len() - i,
    {
        proof {
            assert(l[i as int] == v@[i as int]@);
        }
        let mut s = String::from_str("  ");
        s.append(v[i].as_str());
        c = lower(c, heightOf(columnsOf(s.as_str()), width));
        i = i + 1;
    }
    c
}

/// The lines of blocks, of the first `n`.
pub open spec fn flat_lines(b: Seq<BlockView>, n: int) -> Seq<Seq<SpanV>>
    decreases n,
{
    if n <= 0 {
        Seq::empty()
    } else {
        flat_lines(b, n - 1) + (match b[n - 1] {
            BlockView::Text(l) => l,
            BlockView::Code(c) => c.rendered,
        })
    }
}

/// The lines of blocks, one after another.
pub fn flattenRenderedBlocks(blocks: &Vec<Block>) -> (r: Vec<Line>)
    ensures
        line_views(r@) == flat_lines(block_views(blocks@), blocks@.len() as int),
{
    let ghost bv = block_views(blocks@);
    let mut out: Vec<Line> = Vec::new();
    let mut i: usize = 0;
    proof {
        assert(line_views(out@) =~= flat_lines(bv, 0));
    }
    while i < blocks.len()
        invariant
            i <= blocks@.len(),
            bv == block_views(blocks@),
            line_views(out@) == flat_lines(bv, i as int),
        decreases blocks@.len() - i,
    {
        proof {
            assert(bv[i as int] == blocks@[i as int]@);
        }
        match &blocks[i] {
            Block::Text(l) => {
                addLines(&mut out, l);
            },
            Block::Code { rendered, .. } => {
                addLines(&mut out, rendered);
            },
        }
        i = i + 1;
    }
    out
}

fn addLines(v: &mut Vec<Line>, l: &Vec<Line>)
    ensures
        line_views(final(v)@) == line_views(old(v)@) + line_views(l@),
{
    let ghost lv = line_views(l@);
    let mut i: usize = 0;
    proof {
        assert(line_views(v@) =~= line_views(old(v)@) + lv.take(0));
    }
    while i < l.len()
        invariant
            i <= l@.len(),
            lv == line_views(l@),
            line_views(v@) == line_views(old(v)@) + lv.take(i as int),
        decreases l@.len() - i,
    {
        addLine(v, copyLine(&l[i]));
        proof {
            assert(line_views(v@) =~= line_views(old(v)@) + lv.take(i + 1));
        }
        i = i + 1;
    }
    proof {
        assert(lv.take(lv.len() as int) =~= lv);
    }
}

fn onGrid(start: u32, end: u32, shift: i32) -> (r: Option<(i32, i32)>)
    requires
        start <= LAST_LINE,
        end <= LAST_LINE,
        0 <= shift <= 131_070,
    ensures
        match r {
            Some(b) => on_grid(start as int, end as int, shift as int) == Some(
                (b.0 as int, b.1 as int),
            ),
            None => on_grid(start as int, end as int, shift as int) is None,
        },
{
    if end <= start {
        None
    } else {
        Some((start as i32 - shift, end as i32 - 1 - shift))
    }
}

impl AgentPanel {
    /// The first and the last line of the message at a line of the screen. `blocks`
    /// are the blocks of the streamed message, with their code blocks in full.
    #[verifier::rlimit(40)]
    #[verifier::spinoff_prover]
    pub fn entryBoundsAtGridLine(
        &self,
        gridLine: i32,
        inputs: &Vec<EntryInput>,
        blocks: &Vec<Block>,
        t: &Throbber,
        now: u64,
    ) -> (r: Option<(i32, i32)>)
        ensures
            ({
                let b = bounds_at(
                    self@,
                    input_views(inputs@),
                    flat_lines(block_views(blocks@), blocks@.len() as int),
                    t@,
                    now,
                    gridLine as int,
                );
                match r {
                    Some(x) => b == Some((x.0 as int, x.1 as int)),
                    None => b is None,
                }
            }),
    {
        let width: u16 = if self.scroll.chatWidth == 0 {
            1
        } else {
            self.scroll.chatWidth
        };
        let shift: i32 = self.scroll.offset as i32 + self.scroll.lastY as i32;
        let line: i64 = gridLine as i64 + shift as i64;
        if line < 0 {
            return None;
        }
        let ghost p = self@;
        let ghost inp = input_views(inputs@);
        let ghost w = width as int;
        let n: usize = self.entries.len();
        proof {
            assert(p.entries.len() == n);
        }
        let mut starts: Vec<u32> = Vec::new();
        let mut ends: Vec<u32> = Vec::new();
        let mut cursor: u32 = 0;
        let none = EntryInput { blocks: Vec::new() };
        proof {
            assert(none@.blocks =~= Seq::empty());
        }
        let mut i: usize = 0;
        while i < n
            invariant
                i <= n,
                n == p.entries.len(),
                p == self@,
                inp == input_views(inputs@),
                none@ == (InputV { blocks: Seq::empty() }),
                w == width,
                width > 0,
                cursor <= LAST_LINE,
                starts@.len() == i,
                ends@.len() == i,
                forall|k: int|
                    #![trigger starts@[k]]
                    #![trigger ends@[k]]
                    0 <= k < i ==> starts@[k] == entry_span(p, inp, t@, w, now, k).0 && ends@[k]
                        == entry_span(p, inp, t@, w, now, k).1 && starts@[k] <= LAST_LINE && ends@[k]
                        <= LAST_LINE,
                i == 0 ==> cursor == 0,
                i > 0 ==> cursor == below(entry_span(p, inp, t@, w, now, i - 1).1, 1),
            decreases n - i,
        {
            let input: &EntryInput = if i < inputs.len() {
                &inputs[i]
            } else {
                &none
            };
            proof {
                assert(input@ == input_at(inp, i as int));
            }
            let mut page = Page::new();
            self.renderEntry(&mut page, i, input, t, width, now);
            let end: u32 = rowsEnd(&page, width as usize, cursor);
            starts.push(cursor);
            ends.push(end);
            cursor = lower(end, 1);
            i = i + 1;
        }
        let mut k: usize = 0;
        while k < n && (ends[k] as i64) < line
            invariant
                k <= n,
                n == p.entries.len(),
                ends@.len() == n,
                line >= 0,
                forall|j: int|
                    0 <= j < n ==> #[trigger] ends@[j] == entry_span(p, inp, t@, w, now, j).1,
                entry_at(p, inp, t@, w, now, line as int, 0) == entry_at(
                    p,
                    inp,
                    t@,
                    w,
                    now,
                    line as int,
                    k as int,
                ),
            decreases n - k,
        {
            k = k + 1;
        }
        if k < n {
            proof {
                assert(ends@[k as int] == entry_span(p, inp, t@, w, now, k as int).1);
            }
            let (a, b) = self.messageGroup(k);
            return onGrid(starts[a], ends[b], shift);
        }
        if !self.stream.isStreaming {
            return None;
        }
        let flat = flattenRenderedBlocks(blocks);
        let end: u32 = self.streamEnd(&flat, width as usize, cursor);
        if line >= cursor as i64 && line < end as i64 {
            onGrid(cursor, end, shift)
        } else {
            None
        }
    }

    /// The entries that make up the message of the entry `i`.
    pub fn messageGroup(&self, i: usize) -> (r: (usize, usize))
        requires
            i < self@.entries.len(),
        ensures
            (r.0 as int, r.1 as int) == group_of(self@.entries, i as int),
            r.0 < self@.entries.len(),
            r.1 < self@.entries.len(),
    {
        let n: usize = self.entries.len();
        proof {
            assert(self@.entries[i as int] == self.entries@[i as int]@);
        }
        let answer = match &self.entries[i] {
            PanelEntry::Assistant(_) => true,
            _ => false,
        };
        let reasoning = match &self.entries[i] {
            PanelEntry::Reasoning { .. } => true,
            _ => false,
        };
        if answer && i > 0 {
            proof {
                assert(self@.entries[i - 1] == self.entries@[i - 1]@);
            }
            let before = match &self.entries[i - 1] {
                PanelEntry::Reasoning { .. } => true,
                _ => false,
            };
            if before {
                return (i - 1, i);
            }
        }
        if reasoning && n - i > 1 {
            proof {
                assert(self@.entries[i + 1] == self.entries@[i + 1]@);
            }
            let behind = match &self.entries[i + 1] {
                PanelEntry::Assistant(_) => true,
                _ => false,
            };
            if behind {
                return (i, i + 1);
            }
        }
        (i, i)
    }

    fn streamEnd(&self, flat: &Vec<Line>, width: usize, at: u32) -> (r: u32)
        requires
            width > 0,
            at <= LAST_LINE,
        ensures
            r == stream_end(self@.stream, line_views(flat@), width as int, at as int),
            r <= LAST_LINE,
    {
        let reasoned = self.stream.reasoning.as_str().unicode_len() > 0;
        let quiet = self.stream.content.as_str().unicode_len() == 0
            && self.stream.pending.as_str().unicode_len() == 0 && !reasoned;
        let mut c: u32 = at;
        if quiet || reasoned {
            c = lower(c, 2);
            if self.stream.thinkingExpanded {
                c = reasoningEnd(self.stream.reasoning.as_str(), width, c);
            }
            c = lower(c, 1);
        }
        if self.displayContent().as_str().unicode_len() > 0 {
            c = linesEnd(flat, width, c);
        }
        c
    }
}

// ---- the text of a selection ----

/// A selection that is not empty, from its first place to its last. Lines are
/// those of the screen.
#[derive(Clone, Copy, Debug)]
pub struct Selection {
    pub startCol: u16,
    pub startLine: i32,
    pub endCol: u16,
    pub endLine: i32,
}

/// The symbols of the cells of each selected line, none where a line is not on
/// the screen.
pub open spec fn cell_views(v: Seq<Option<Vec<String>>>) -> Seq<Option<Seq<Seq<char>>>> {
    Seq::new(
        v.len(),
        |i: int|
            match v[i] {
                Some(c) => Some(texts(c@)),
                None => None,
            },
    )
}

/// A part of the text of a selection, and whether it continues the part before.
pub ghost struct SegmentV {
    pub text: Seq<char>,
    pub cont: bool,
}

/// The cells from `from` up to `to`.
pub open spec fn cells_text(c: Seq<Seq<char>>, from: int, to: int) -> Seq<char> {
    let end = min(to, c.len() as int);
    if from >= end {
        Seq::empty()
    } else {
        trim_end(concat(c.subrange(from, end)))
    }
}

/// The text of a selected line `k`, counted from the start of the selection.
/// Notices are not copied, and neither are the borders of code blocks; their
/// lines are copied in full. `width` is the width of the chat area.
pub open spec fn segment(
    p: PanelV,
    s: Selection,
    cells: Seq<Option<Seq<Seq<char>>>>,
    width: int,
    k: int,
) -> SegmentV {
    let line = p.line_at(s.startLine + k);
    let from = if k == 0 {
        s.startCol as int
    } else {
        0
    };
    let to = if s.startLine + k == s.endLine {
        s.endCol as int
    } else {
        width
    };
    if exists|j: int| 0 <= j < p.shown.notCopied.len() && #[trigger] p.shown.notCopied[j] == line {
        SegmentV { text: Seq::empty(), cont: false }
    } else {
        match block_at(p.shown.blocks, line, 0) {
            Some(i) => {
                let r = p.shown.blocks[i];
                let at = line - r.startLine - 1;
                SegmentV {
                    text: if line == r.startLine || line == r.endLine || at
                        >= r.contentLines.len() {
                        Seq::empty()
                    } else {
                        r.contentLines[at]
                    },
                    cont: false,
                }
            },
            None => SegmentV {
                text: if k < cells.len() && cells[k] is Some {
                    cells_text(cells[k]->0, from, min(to, width))
                } else if 0 <= line < p.shown.lineTexts.len() {
                    trim_end(
                        between_columns(
                            p.shown.lineTexts[line],
                            0,
                            min(from + 2, 65535),
                            min(to + 2, 65535),
                        ),
                    )
                } else {
                    Seq::empty()
                },
                cont: 0 <= line < p.shown.continuation.len() && p.shown.continuation[line],
            },
        }
    }
}

/// The segments of a selection.
pub open spec fn segments(
    p: PanelV,
    s: Selection,
    cells: Seq<Option<Seq<Seq<char>>>>,
    width: int,
) -> Seq<SegmentV> {
    Seq::new(
        minus(s.endLine + 1, s.startLine as int) as nat,
        |k: int| segment(p, s, cells, width, k),
    )
}

/// Segments without the empty ones at the end.
pub open spec fn without_tail(s: Seq<SegmentV>) -> Seq<SegmentV>
    decreases s.len(),
{
    if s.len() > 0 && s.last().text.len() == 0 {
        without_tail(s.drop_last())
    } else {
        s
    }
}

/// The first `n` segments joined. One that continues the one before follows
/// behind a space, any other behind a line break.
pub open spec fn rejoined(s: Seq<SegmentV>, n: int) -> Seq<char>
    decreases n,
{
    if n <= 0 {
        Seq::empty()
    } else {
        let r = rejoined(s, n - 1);
        let t = s[n - 1].text;
        if n == 1 {
            t
        } else if s[n - 1].cont {
            if r.len() > 0 && r.last() != ' ' && t.len() > 0 {
                r + " "@ + t
            } else {
                r + t
            }
        } else {
            r + "\n"@ + t
        }
    }
}

/// The text of a selection, with wrapped lines joined again.
pub open spec fn unwrapped_text(
    p: PanelV,
    s: Selection,
    cells: Seq<Option<Seq<Seq<char>>>>,
    width: int,
) -> Seq<char> {
    let v = without_tail(segments(p, s, cells, width));
    rejoined(v, v.len() as int)
}

struct Segment {
    text: String,
    cont: bool,
}

spec fn segment_views(v: Seq<Segment>) -> Seq<SegmentV> {
    Seq::new(v.len(), |i: int| SegmentV { text: v[i].text@, cont: v[i].cont })
}

pub(crate) fn cellsText(c: &Vec<String>, from: usize, to: usize) -> (r: String)
    ensures
        r@ == cells_text(texts(c@), from as int, to as int),
{
    let end: usize = if to < c.len() {
        to
    } else {
        c.len()
    };
    let ghost cv = texts(c@);
    if from >= end {
        return String::new();
    }
    let mut s = String::new();
    let mut i: usize = from;
    proof {
        assert(s@ =~= concat(cv.subrange(from as int, from as int)));
    }
    while i < end
        invariant
            from <= i <= end,
            end <= c@.len(),
            cv == texts(c@),
            s@ == concat(cv.subrange(from as int, i as int)),
        decreases end - i,
    {
        proof {
            assert(cv.subrange(from as int, i + 1).drop_last() =~= cv.subrange(
                from as int,
                i as int,
            ));
            assert(cv.subrange(from as int, i + 1).last() == c@[i as int]@);
        }
        s.append(c[i].as_str());
        i = i + 1;
    }
    trimEnd(s.as_str())
}

impl AgentPanel {
    fn isNotCopied(&self, line: i64) -> (r: bool)
        ensures
            r == (exists|j: int|
                0 <= j < self@.shown.notCopied.len() && #[trigger] self@.shown.notCopied[j]
                    == line as int),
    {
        if line < 0 {
            return false;
        }
        let mut i: usize = 0;
        while i < self.shown.notCopied.len()
            invariant
                i <= self.shown.notCopied@.len(),
                line >= 0,
                forall|j: int|
                    0 <= j < i ==> #[trigger] self.shown.notCopied@[j] as int != line as int,
            decreases self.shown.notCopied@.len() - i,
        {
            if self.shown.notCopied[i] as u64 == line as u64 {
                proof {
                    assert(self@.shown.notCopied[i as int] == line as int);
                }
                return true;
            }
            i = i + 1;
        }
        false
    }

    #[verifier::rlimit(40)]
    #[verifier::spinoff_prover]
    fn segmentAt(
        &self,
        s: Selection,
        cells: &Vec<Option<Vec<String>>>,
        width: u16,
        k: u32,
    ) -> (r: Segment)
        requires
            s.startLine + k <= s.endLine,
        ensures
            (SegmentV { text: r.text@, cont: r.cont }) == segment(
                self@,
                s,
                cell_views(cells@),
                width as int,
                k as int,
            ),
    {
        let ghost cv = cell_views(cells@);
        let grid: i64 = s.startLine as i64 + k as i64;
        let line: i64 = grid + self.scroll.offset as i64 + self.scroll.lastY as i64;
        let from: u16 = if k == 0 {
            s.startCol
        } else {
            0
        };
        let to: u16 = if grid == s.endLine as i64 {
            s.endCol
        } else {
            width
        };
        if self.isNotCopied(line) {
            return Segment { text: String::new(), cont: false };
        }
        match blockAt(&self.shown.blocks, line) {
            Some(i) => {
                proof {
                    assert(self@.shown.blocks[i as int] == self.shown.blocks@[i as int]@);
                    lemma_block_at(self@.shown.blocks, line as int, 0);
                }
                let r = &self.shown.blocks[i];
                let at: u64 = line as u64;
                if at == r.startLine as u64 || at == r.endLine as u64 {
                    return Segment { text: String::new(), cont: false };
                }
                let idx: u64 = at - r.startLine as u64 - 1;
                if idx >= r.contentLines.len() as u64 {
                    return Segment { text: String::new(), cont: false };
                }
                proof {
                    assert(texts(r.contentLines@)[idx as int] == r.contentLines@[idx as int]@);
                }
                Segment { text: r.contentLines[idx as usize].clone(), cont: false }
            },
            None => {
                let cont = line >= 0 && (line as u64) < self.shown.continuation.len() as u64
                    && self.shown.continuation[line as usize];
                if (k as u64) < cells.len() as u64 {
                    proof {
                        assert(cv[k as int] == (match cells@[k as int] {
                            Some(c) => Some(texts(c@)),
                            None => None,
                        }));
                    }
                    match &cells[k as usize] {
                        Some(c) => {
                            let end: u16 = if to < width {
                                to
                            } else {
                                width
                            };
                            return Segment {
                                text: cellsText(c, from as usize, end as usize),
                                cont,
                            };
                        },
                        None => {},
                    }
                }
                if line >= 0 && (line as u64) < self.shown.lineTexts.len() as u64 {
                    proof {
                        assert(self@.shown.lineTexts[line as int]
                            == self.shown.lineTexts@[line as int]@);
                    }
                    return Segment {
                        text: sliceByDisplayColumn(
                            self.shown.lineTexts[line as usize].as_str(),
                            from.saturating_add(2),
                            to.saturating_add(2),
                        ),
                        cont,
                    };
                }
                Segment { text: String::new(), cont }
            },
        }
    }

    /// The text of a selection, with wrapped lines joined again. `cells` are the
    /// symbols of the cells of each selected line, as far as it is on the screen.
    /// An empty selection has no text.
    pub fn extractUnwrappedText(
        &self,
        sel: Option<Selection>,
        cells: &Vec<Option<Vec<String>>>,
        width: u16,
    ) -> (r: String)
        ensures
            r@ == (match sel {
                Some(s) => unwrapped_text(self@, s, cell_views(cells@), width as int),
                None => Seq::empty(),
            }),
    {
        let s: Selection = match sel {
            Some(s) => s,
            None => {
                return String::new();
            },
        };
        let ghost p = self@;
        let ghost cv = cell_views(cells@);
        let ghost all = segments(p, s, cv, width as int);
        let count: i64 = if s.endLine < s.startLine {
            0
        } else {
            s.endLine as i64 - s.startLine as i64 + 1
        };
        let mut v: Vec<Segment> = Vec::new();
        let mut k: i64 = 0;
        proof {
            assert(segment_views(v@) =~= all.take(0));
        }
        while k < count
            invariant
                0 <= k <= count,
                count == all.len(),
                count <= 0x1_0000_0000,
                count > 0 ==> s.startLine + (count - 1) == s.endLine,
                p == self@,
                cv == cell_views(cells@),
                all == segments(p, s, cv, width as int),
                segment_views(v@) == all.take(k as int),
            decreases count - k,
        {
            let g = self.segmentAt(s, cells, width, k as u32);
            let ghost before = segment_views(v@);
            v.push(g);
            proof {
                assert(segment_views(v@) =~= before.push(
                    SegmentV { text: g.text@, cont: g.cont },
                ));
                assert(segment_views(v@) =~= all.take(k + 1));
            }
            k = k + 1;
        }
        proof {
            assert(all.take(count as int) =~= all);
        }
        joinSegments(v)
    }
}

fn joinSegments(segs: Vec<Segment>) -> (r: String)
    ensures
        r@ == rejoined(
            without_tail(segment_views(segs@)),
            without_tail(segment_views(segs@)).len() as int,
        ),
{
    let mut v = segs;
    let ghost all = segment_views(v@);
    while v.len() > 0 && v[v.len() - 1].text.as_str().unicode_len() == 0
        invariant
            without_tail(all) == without_tail(segment_views(v@)),
        decreases v@.len(),
    {
        let ghost before = segment_views(v@);
        proof {
            assert(before.last().text == v@[v@.len() - 1].text@);
        }
        let _ = v.pop();
        proof {
            assert(segment_views(v@) =~= before.drop_last());
        }
    }
    let ghost sv = segment_views(v@);
    proof {
        if v@.len() > 0 {
            assert(sv.last().text == v@[v@.len() - 1].text@);
        }
        assert(without_tail(all) == sv);
    }
    let mut s = String::new();
    let mut i: usize = 0;
    while i < v.len()
        invariant
            i <= v@.len(),
            sv == segment_views(v@),
            s@ == rejoined(sv, i as int),
        decreases v@.len() - i,
    {
        proof {
            assert(sv[i as int].text == v@[i as int].text@);
        }
        let t = v[i].text.as_str();
        if i > 0 {
            if v[i].cont {
                let n: usize = s.as_str().unicode_len();
                if n > 0 && s.as_str().get_char(n - 1) != ' ' && t.unicode_len() > 0 {
                    s.append(" ");
                }
            } else {
                s.append("\n");
            }
        }
        let ghost before = s@;
        s.append(t);
        proof {
            if i == 0 {
                assert(s@ =~= t@);
            }
        }
        i = i + 1;
    }
    s
}

proof fn lemma_block_at(r: Seq<RangeV>, line: int, i: int)
    requires
        0 <= i,
    ensures
        block_at(r, line, i) matches Some(k) ==> i <= k < r.len() && r[k].startLine <= line
            <= r[k].endLine,
    decreases r.len() - i,
{
    if i < r.len() {
        lemma_block_at(r, line, i + 1);
    }
}

} // verus!
