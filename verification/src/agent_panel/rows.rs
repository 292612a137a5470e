//! The visual lines of the conversation: wrapped text behind a symbol or an
//! indent, and code blocks with their ranges.

use vstd::prelude::*;
use vstd::string::*;
use crate::agent_panel::blocks::{
    BlockId, CodeBlockRange, MAX_CODE_BLOCK_LINES, RangeV, offset_in, range_views,
};
use crate::agent_panel::state::{CodeState, CodeV};
use crate::draw::{
    Line, Span, SpanV, Style, addSpan, copyLine, copySpan, line_views, min, minus, span, span_views,
    sv,
};
use crate::text::{charsOf, dec, decimal, opt_text, repeatChar, repeated, texts};
use crate::unicode::{width_of, widthOf};
use crate::wrap::{
    bar_count, clamped_width, stripBlockquoteBars, wrapSpannedLine, wrap_line,
};

verus! {

/// A visual line. `cont` tells that it continues the line before it.
pub struct Row {
    pub line: Line,
    pub cont: bool,
}

/// A visual line as a value.
pub ghost struct RowV {
    pub line: Seq<SpanV>,
    pub cont: bool,
}

impl View for Row {
    type V = RowV;

    open spec fn view(&self) -> RowV {
        RowV { line: self.line@, cont: self.cont }
    }
}

/// The rows of `v` as values.
pub open spec fn row_views(v: Seq<Row>) -> Seq<RowV> {
    Seq::new(v.len(), |i: int| v[i]@)
}

/// A row that begins a line.
pub open spec fn rv(line: Seq<SpanV>) -> RowV {
    RowV { line, cont: false }
}

/// The visual lines as they are built.
pub struct Page {
    pub rows: Vec<Row>,
    pub ranges: Vec<CodeBlockRange>,
    /// Visual line of the last subagent header.
    pub header: Option<usize>,
    /// Visual line and entry of the last subagent content border.
    pub toggle: Option<(usize, usize)>,
}

/// Visual lines as a value.
#[verifier::ext_equal]
pub ghost struct PageV {
    pub rows: Seq<RowV>,
    pub ranges: Seq<RangeV>,
    pub header: Option<usize>,
    pub toggle: Option<(usize, usize)>,
}

impl View for Page {
    type V = PageV;

    open spec fn view(&self) -> PageV {
        PageV {
            rows: row_views(self.rows@),
            ranges: range_views(self.ranges@),
            header: self.header,
            toggle: self.toggle,
        }
    }
}

impl PageV {
    pub open spec fn with_row(self, r: RowV) -> PageV {
        PageV { rows: self.rows.push(r), ..self }
    }

    pub open spec fn with_rows(self, r: Seq<RowV>) -> PageV {
        PageV { rows: self.rows + r, ..self }
    }

    pub open spec fn with_range(self, r: RangeV) -> PageV {
        PageV { ranges: self.ranges.push(r), ..self }
    }
}

impl Page {
    pub fn new() -> (r: Self)
        ensures
            r@ == (PageV { rows: Seq::empty(), ranges: Seq::empty(), header: None, toggle: None }),
    {
        let r = Page { rows: Vec::new(), ranges: Vec::new(), header: None, toggle: None };
        proof {
            assert(r@.rows =~= Seq::empty());
            assert(r@.ranges =~= Seq::empty());
        }
        r
    }

    /// Adds a row.
    pub fn push(&mut self, line: Line, cont: bool)
        ensures
            final(self)@ == old(self)@.with_row(RowV { line: line@, cont }),
    {
        self.rows.push(Row { line, cont });
        proof {
            assert(self@.rows =~= old(self)@.rows.push(RowV { line: line@, cont }));
        }
    }

    /// Adds the range of a code block.
    pub fn pushRange(&mut self, r: CodeBlockRange)
        ensures
            final(self)@ == old(self)@.with_range(r@),
    {
        self.ranges.push(r);
        proof {
            assert(self@.ranges =~= old(self)@.ranges.push(r@));
        }
    }

    /// The number of rows.
    pub fn height(&self) -> (r: usize)
        ensures
            r == self@.rows.len(),
    {
        self.rows.len()
    }
}

// ---- prefixes ----

/// The columns of a text, character by character.
pub open spec fn text_width(s: Seq<char>) -> int
    decreases s.len(),
{
    if s.len() == 0 {
        0
    } else {
        min(text_width(s.drop_last()) + width_of(s.last()), usize::MAX as int)
    }
}

/// The columns of a text, character by character.
pub fn textWidth(s: &str) -> (r: usize)
    ensures
        r == text_width(s@),
{
    let v = charsOf(s);
    let mut w: usize = 0;
    let mut i: usize = 0;
    while i < v.len()
        invariant
            i <= v@.len(),
            v@ == s@,
            w == text_width(s@.take(i as int)),
        decreases v@.len() - i,
    {
        proof {
            assert(s@.take(i + 1).drop_last() =~= s@.take(i as int));
        }
        w = w.saturating_add(widthOf(v[i]));
        i = i + 1;
    }
    proof {
        assert(s@.take(s@.len() as int) =~= s@);
    }
    w
}

/// A symbol before the first row, and an indent of the same width before the
/// others.
pub ghost struct PrefixV {
    pub symbol: Seq<char>,
    pub style: Style,
}

impl PrefixV {
    pub open spec fn width(self) -> int {
        text_width(self.symbol)
    }

    /// What stands before a row.
    pub open spec fn before(self, first: bool) -> SpanV {
        if first {
            sv(self.symbol, self.style)
        } else {
            sv(repeated(' ', self.width()), Style::plain())
        }
    }
}

/// A symbol and its style.
#[derive(Clone, Copy)]
pub struct Prefix {
    pub symbol: &'static str,
    pub style: Style,
}

impl View for Prefix {
    type V = PrefixV;

    open spec fn view(&self) -> PrefixV {
        PrefixV { symbol: self.symbol@, style: self.style }
    }
}

impl Prefix {
    fn before(&self, first: bool) -> (r: Span)
        ensures
            r@ == self@.before(first),
    {
        if first {
            span(self.symbol, self.style)
        } else {
            let pad = repeatChar(' ', textWidth(self.symbol));
            span(pad.as_str(), Style::plain())
        }
    }
}

/// A span, then spans, then a line.
pub fn joinSpans(first: Span, bars: &Vec<Span>, line: &Line) -> (r: Line)
    ensures
        r@ == seq![first@] + span_views(bars@) + line@,
{
    let mut out: Vec<Span> = Vec::new();
    out.push(first);
    proof {
        assert(span_views(out@) =~= seq![first@] + span_views(bars@.take(0)));
    }
    let mut i: usize = 0;
    while i < bars.len()
        invariant
            i <= bars@.len(),
            span_views(out@) == seq![first@] + span_views(bars@.take(i as int)),
        decreases bars@.len() - i,
    {
        addSpan(&mut out, copySpan(&bars[i]));
        proof {
            assert(span_views(bars@.take(i + 1)) =~= span_views(bars@.take(i as int)).push(
                bars@[i as int]@,
            ));
            assert(span_views(out@) =~= seq![first@] + span_views(bars@.take(i + 1)));
        }
        i = i + 1;
    }
    proof {
        assert(bars@.take(bars@.len() as int) =~= bars@);
    }
    let ghost head = span_views(out@);
    let mut j: usize = 0;
    proof {
        assert(span_views(out@) =~= head + line@.take(0));
    }
    while j < line.spans.len()
        invariant
            j <= line.spans@.len(),
            span_views(out@) == head + line@.take(j as int),
        decreases line.spans@.len() - j,
    {
        addSpan(&mut out, copySpan(&line.spans[j]));
        proof {
            assert(line@[j as int] == line.spans@[j as int]@);
            assert(span_views(out@) =~= head + line@.take(j + 1));
        }
        j = j + 1;
    }
    proof {
        assert(line@.take(line@.len() as int) =~= line@);
    }
    Line { spans: out }
}

// ---- wrapped text ----

/// The rows of one wrapped line. The prefix of the first one is `head` where
/// `first`.
pub open spec fn piece_rows(
    head: SpanV,
    rest: SpanV,
    bars: Seq<SpanV>,
    wrapped: Seq<Seq<SpanV>>,
) -> Seq<RowV> {
    Seq::new(
        wrapped.len(),
        |i: int|
            RowV {
                line: seq![if i == 0 {
                    head
                } else {
                    rest
                }] + bars + wrapped[i],
                cont: i > 0,
            },
    )
}

/// Adds one line, wrapped.
pub fn pushWrapped(
    page: &mut Page,
    head: &Span,
    rest: &Span,
    bars: &Vec<Span>,
    line: Line,
    width: usize,
) -> (n: usize)
    ensures
        final(page)@ == old(page)@.with_rows(
            piece_rows(head@, rest@, span_views(bars@), wrap_line(line@, width as int)),
        ),
        n == wrap_line(line@, width as int).len(),
{
    let ghost w = wrap_line(line@, width as int);
    let ghost all = piece_rows(head@, rest@, span_views(bars@), w);
    let wrapped = wrapSpannedLine(line, width);
    let n: usize = wrapped.len();
    proof {
        assert(line_views(wrapped@).len() == n);
        assert(page@.rows =~= old(page)@.rows + all.take(0));
    }
    let mut i: usize = 0;
    while i < n
        invariant
            i <= n,
            n == wrapped@.len(),
            w == line_views(wrapped@),
            all == piece_rows(head@, rest@, span_views(bars@), w),
            page@ == old(page)@.with_rows(all.take(i as int)),
        decreases n - i,
    {
        let first = if i == 0 {
            copySpan(head)
        } else {
            copySpan(rest)
        };
        let l = joinSpans(first, bars, &wrapped[i]);
        page.push(l, i > 0);
        proof {
            assert(w[i as int] == wrapped@[i as int]@);
            assert(page@.rows =~= old(page)@.rows + all.take(i + 1));
        }
        i = i + 1;
    }
    proof {
        assert(all.take(n as int) =~= all);
    }
    n
}

/// The rows of `n` lines behind a prefix. Where `quoted`, leading bars are put
/// before every row of their line. `first` tells that no row has the symbol yet.
pub open spec fn text_rows(
    lines: Seq<Seq<SpanV>>,
    n: int,
    p: PrefixV,
    first: bool,
    quoted: bool,
    width: int,
) -> Seq<RowV>
    decreases n,
{
    if n <= 0 {
        Seq::empty()
    } else {
        let r = text_rows(lines, n - 1, p, first, quoted, width);
        let l = lines[n - 1];
        let k = if quoted {
            bar_count(l)
        } else {
            0
        };
        let room = minus(minus(width, p.width()), clamped_width(2 * k));
        r + piece_rows(
            p.before(first && r.len() == 0),
            p.before(false),
            l.take(k),
            wrap_line(l.skip(k), room),
        )
    }
}

/// Adds lines behind a prefix. Returns whether the symbol still is to come.
pub fn pushText(
    page: &mut Page,
    lines: &Vec<Line>,
    p: Prefix,
    first: bool,
    quoted: bool,
    width: u16,
) -> (r: bool)
    ensures
        final(page)@ == old(page)@.with_rows(
            text_rows(
                line_views(lines@),
                lines@.len() as int,
                p@,
                first,
                quoted,
                width as int,
            ),
        ),
        r == (first && text_rows(
            line_views(lines@),
            lines@.len() as int,
            p@,
            first,
            quoted,
            width as int,
        ).len() == 0),
{
    let ghost lv = line_views(lines@);
    let room: usize = (width as usize).saturating_sub(textWidth(p.symbol));
    let rest = p.before(false);
    let mut left = first;
    let mut i: usize = 0;
    proof {
        assert(page@.rows =~= old(page)@.rows + text_rows(lv, 0, p@, first, quoted, width as int));
    }
    while i < lines.len()
        invariant
            i <= lines@.len(),
            lv == line_views(lines@),
            room == minus(width as int, p@.width()),
            rest@ == p@.before(false),
            page@ == old(page)@.with_rows(
                text_rows(lv, i as int, p@, first, quoted, width as int),
            ),
            left == (first && text_rows(lv, i as int, p@, first, quoted, width as int).len() == 0),
        decreases lines@.len() - i,
    {
        let ghost so_far = text_rows(lv, i as int, p@, first, quoted, width as int);
        let ghost before = page@.rows;
        let head = p.before(left);
        let l = copyLine(&lines[i]);
        let ghost view = l@;
        proof {
            assert(lv[i as int] == view);
        }
        let n: usize = if quoted {
            let (bars, content, barWidth) = stripBlockquoteBars(l);
            pushWrapped(page, &head, &rest, &bars, content, room.saturating_sub(barWidth))
        } else {
            let bars: Vec<Span> = Vec::new();
            proof {
                assert(span_views(bars@) =~= view.take(0));
                assert(view.skip(0) =~= view);
            }
            pushWrapped(page, &head, &rest, &bars, l, room)
        };
        proof {
            assert(page@.rows =~= old(page)@.rows + text_rows(
                lv,
                i + 1,
                p@,
                first,
                quoted,
                width as int,
            ));
        }
        left = left && n == 0;
        i = i + 1;
    }
    left
}

/// Adds lines behind a symbol; the symbol stands before the first row, and the
/// others are indented by its width.
pub fn prefixFirstLine(page: &mut Page, lines: &Vec<Line>, p: Prefix, width: u16)
    ensures
        final(page)@ == old(page)@.with_rows(
            text_rows(line_views(lines@), lines@.len() as int, p@, true, false, width as int),
        ),
{
    let _ = pushText(page, lines, p, true, false, width);
}

// ---- code blocks ----

/// How a code block is drawn.
pub ghost struct PlanV {
    /// How many of its lines are shown.
    pub visible: int,
    /// The mark on the top border.
    pub top: Option<Seq<char>>,
    /// The mark on the bottom border.
    pub bottom: Option<Seq<char>>,
    pub scrollX: int,
    pub copied: bool,
}

/// How a code block is drawn.
pub struct CodePlan {
    pub visible: usize,
    pub top: Option<String>,
    pub bottom: Option<String>,
    pub scrollX: u16,
    pub copied: bool,
}

impl View for CodePlan {
    type V = PlanV;

    open spec fn view(&self) -> PlanV {
        PlanV {
            visible: self.visible as int,
            top: opt_text(self.top),
            bottom: opt_text(self.bottom),
            scrollX: self.scrollX as int,
            copied: self.copied,
        }
    }
}

impl CodeV {
    /// Whether "copied" is shown on a block at `now`: for two seconds.
    pub open spec fn shows_copied(self, id: BlockId, now: u64) -> bool {
        self.copiedFlash matches Some(f) && f.0 == id && minus(now as int, f.1 as int) < 2000
    }

    /// How the block `id` of `total` lines is drawn. A long block shows its first
    /// lines and how many are hidden, unless it is expanded.
    pub open spec fn plan(self, id: BlockId, total: int, now: u64) -> PlanV {
        let long = total > MAX_CODE_BLOCK_LINES;
        let expanded = self.expanded.contains(id);
        PlanV {
            visible: if long && !expanded {
                MAX_CODE_BLOCK_LINES as int
            } else {
                total
            },
            top: if !long {
                None
            } else if expanded {
                Some("\u{25B4}"@)
            } else {
                Some("\u{25BE}"@ + dec((total - MAX_CODE_BLOCK_LINES) as nat))
            },
            bottom: if long && expanded {
                Some("\u{25B4}"@)
            } else {
                None
            },
            scrollX: offset_in(self.scrollX, id) as int,
            copied: self.shows_copied(id, now),
        }
    }
}

impl CodeState {
    /// Whether "copied" is shown on a block.
    pub fn showsCopied(&self, id: BlockId, now: u64) -> (r: bool)
        ensures
            r == self@.shows_copied(id, now),
    {
        match self.copiedFlash {
            Some((at, t)) => at.0 == id.0 && at.1 == id.1 && now.saturating_sub(t) < 2000,
            None => false,
        }
    }

    /// How a code block of `total` lines is drawn.
    pub fn codePlan(&self, id: BlockId, total: usize, now: u64) -> (r: CodePlan)
        ensures
            r@ == self@.plan(id, total as int, now),
    {
        let long = total > MAX_CODE_BLOCK_LINES;
        let expanded = self.expanded.contains(id);
        let top: Option<String> = if !long {
            None
        } else if expanded {
            Some(String::from_str("\u{25B4}"))
        } else {
            let mut s = String::from_str("\u{25BE}");
            s.append(decimal((total - MAX_CODE_BLOCK_LINES) as u64).as_str());
            Some(s)
        };
        let bottom: Option<String> = if long && expanded {
            Some(String::from_str("\u{25B4}"))
        } else {
            None
        };
        CodePlan {
            visible: if long && !expanded {
                MAX_CODE_BLOCK_LINES
            } else {
                total
            },
            top,
            bottom,
            scrollX: self.scrollX.offset(id),
            copied: self.showsCopied(id, now),
        }
    }
}

/// A block of a rendered message. A code block comes with the rows that its plan
/// gives.
pub enum Block {
    Text(Vec<Line>),
    Code {
        /// The text of each line.
        lines: Vec<String>,
        code: String,
        /// Columns of the widest line.
        maxWidth: usize,
        rendered: Vec<Line>,
    },
}

/// A code block as a value.
pub ghost struct CodeBlockV {
    pub lines: Seq<Seq<char>>,
    pub code: Seq<char>,
    pub maxWidth: int,
    pub rendered: Seq<Seq<SpanV>>,
}

/// A block as a value.
pub ghost enum BlockView {
    Text(Seq<Seq<SpanV>>),
    Code(CodeBlockV),
}

impl View for Block {
    type V = BlockView;

    open spec fn view(&self) -> BlockView {
        match *self {
            Block::Text(l) => BlockView::Text(line_views(l@)),
            Block::Code { lines, code, maxWidth, rendered } => BlockView::Code(
                CodeBlockV {
                    lines: texts(lines@),
                    code: code@,
                    maxWidth: maxWidth as int,
                    rendered: line_views(rendered@),
                },
            ),
        }
    }
}

/// The blocks of `v` as values.
pub open spec fn block_views(v: Seq<Block>) -> Seq<BlockView> {
    Seq::new(v.len(), |i: int| v[i]@)
}

/// Columns of the "copy" label, or of "copied".
pub open spec fn copy_width(copied: bool) -> int {
    if copied {
        6
    } else {
        4
    }
}

/// The range of a code block whose rows are `start` to `end`. It is `width`
/// columns wide and stands `indent` columns from the left.
pub open spec fn code_range(
    b: CodeBlockV,
    id: BlockId,
    start: int,
    end: int,
    width: int,
    indent: int,
    copied: bool,
) -> RangeV {
    RangeV {
        startLine: start,
        endLine: end,
        blockId: id,
        maxContentWidth: b.maxWidth,
        innerWidth: minus(width, 2),
        contentLines: b.lines,
        rawCode: b.code,
        copyLabelCol: minus(width, copy_width(copied) + 1) + indent,
        collapsible: b.lines.len() > MAX_CODE_BLOCK_LINES,
        totalLines: b.lines.len() as int,
    }
}

/// Copies texts.
pub fn copyTexts(v: &Vec<String>) -> (r: Vec<String>)
    ensures
        texts(r@) == texts(v@),
{
    let mut out: Vec<String> = Vec::new();
    let mut i: usize = 0;
    while i < v.len()
        invariant
            i <= v@.len(),
            texts(out@) == texts(v@).take(i as int),
        decreases v@.len() - i,
    {
        let ghost before = texts(out@);
        out.push(v[i].clone());
        proof {
            assert(texts(out@) =~= before.push(v@[i as int]@));
            assert(texts(out@) =~= texts(v@).take(i + 1));
        }
        i = i + 1;
    }
    proof {
        assert(texts(v@).take(v@.len() as int) =~= texts(v@));
    }
    out
}

/// The range of a code block.
pub fn codeRange(
    lines: &Vec<String>,
    code: &String,
    maxWidth: usize,
    id: BlockId,
    start: usize,
    end: usize,
    width: u16,
    indent: u16,
    copied: bool,
) -> (r: CodeBlockRange)
    requires
        width + indent <= u16::MAX || width == 0,
    ensures
        forall|rendered: Seq<Seq<SpanV>>|
            r@ == #[trigger] code_range(
                CodeBlockV { lines: texts(lines@), code: code@, maxWidth: maxWidth as int, rendered },
                id,
                start as int,
                end as int,
                width as int,
                indent as int,
                copied,
            ),
{
    let label: u16 = if copied {
        7
    } else {
        5
    };
    let n: usize = lines.len();
    CodeBlockRange {
        startLine: start,
        endLine: end,
        blockId: id,
        maxContentWidth: maxWidth,
        innerWidth: (width as usize).saturating_sub(2),
        contentLines: copyTexts(lines),
        rawCode: code.clone(),
        copyLabelCol: width.saturating_sub(label) + indent,
        collapsible: n > MAX_CODE_BLOCK_LINES,
        totalLines: n,
    }
}

// ---- blocks behind a prefix ----

/// What the blocks are drawn with.
pub ghost struct Setting {
    pub prefix: PrefixV,
    pub width: int,
    pub entry: usize,
    pub code: CodeV,
    pub now: u64,
}

/// The state of drawing blocks: whether the symbol still is to come, and the
/// ordinal of the next code block.
#[verifier::ext_equal]
pub ghost struct Flow {
    pub page: PageV,
    pub first: bool,
    pub ordinal: int,
}

/// The rows of a rendered code block behind a prefix.
pub open spec fn code_rows(rendered: Seq<Seq<SpanV>>, p: PrefixV, first: bool) -> Seq<RowV> {
    Seq::new(rendered.len(), |i: int| rv(seq![p.before(first && i == 0)] + rendered[i]))
}

/// After the first `n` blocks were drawn. Between two blocks stands an empty row.
pub open spec fn flow(s: Setting, start: PageV, b: Seq<BlockView>, n: int) -> Flow
    decreases n,
{
    if n <= 0 {
        Flow { page: start, first: true, ordinal: 0 }
    } else {
        let f = flow(s, start, b, n - 1);
        let q = if n > 1 {
            f.page.with_row(rv(seq![s.prefix.before(false)]))
        } else {
            f.page
        };
        match b[n - 1] {
            BlockView::Text(lines) => {
                let r = text_rows(lines, lines.len() as int, s.prefix, f.first, true, s.width);
                Flow {
                    page: q.with_rows(r),
                    first: f.first && r.len() == 0,
                    ordinal: f.ordinal,
                }
            },
            BlockView::Code(c) => {
                let r = q.with_rows(code_rows(c.rendered, s.prefix, f.first));
                let id = (s.entry, f.ordinal as usize);
                let indent = s.prefix.width() % 65536;
                Flow {
                    page: r.with_range(
                        code_range(
                            c,
                            id,
                            q.rows.len() as int,
                            minus(r.rows.len() as int, 1),
                            minus(s.width, indent),
                            indent,
                            s.code.shows_copied(id, s.now),
                        ),
                    ),
                    first: f.first && c.rendered.len() == 0,
                    ordinal: f.ordinal + 1,
                }
            },
        }
    }
}

/// Adds blocks behind a symbol. Text is wrapped; code blocks come with their rows
/// and leave a range behind.
pub fn prefixRenderedBlocks(
    page: &mut Page,
    blocks: &Vec<Block>,
    p: Prefix,
    width: u16,
    entryIndex: usize,
    code: &CodeState,
    now: u64,
)
    ensures
        final(page)@ == flow(
            Setting { prefix: p@, width: width as int, entry: entryIndex, code: code@, now },
            old(page)@,
            block_views(blocks@),
            blocks@.len() as int,
        ).page,
{
    let ghost s = Setting {
        prefix: p@,
        width: width as int,
        entry: entryIndex,
        code: code@,
        now,
    };
    let ghost start = page@;
    let ghost bv = block_views(blocks@);
    let pw: usize = textWidth(p.symbol);
    let indent: u16 = (pw % 65536) as u16;
    let codeWidth: u16 = width.saturating_sub(indent);
    let mut first = true;
    let mut ordinal: usize = 0;
    let mut i: usize = 0;
    while i < blocks.len()
        invariant
            i <= blocks@.len(),
            ordinal <= i,
            bv == block_views(blocks@),
            s == (Setting { prefix: p@, width: width as int, entry: entryIndex, code: code@, now }),
            indent == p@.width() % 65536,
            codeWidth == minus(width as int, indent as int),
            page@ == flow(s, start, bv, i as int).page,
            first == flow(s, start, bv, i as int).first,
            ordinal == flow(s, start, bv, i as int).ordinal,
        decreases blocks@.len() - i,
    {
        if i > 0 {
            let empty: Vec<Span> = Vec::new();
            let none = Line { spans: Vec::new() };
            let blank = joinSpans(p.before(false), &empty, &none);
            proof {
                assert(blank@ =~= seq![p@.before(false)]);
            }
            page.push(blank, false);
        }
        let ghost q = page@;
        proof {
            assert(bv[i as int] == blocks@[i as int]@);
        }
        match &blocks[i] {
            Block::Text(lines) => {
                first = pushText(page, lines, p, first, true, width);
            },
            Block::Code { lines, code: text, maxWidth, rendered } => {
                let id: BlockId = (entryIndex, ordinal);
                let at: usize = page.height();
                pushCode(page, rendered, p, first);
                let end: usize = page.height().saturating_sub(1);
                let copied = code.showsCopied(id, now);
                let r = codeRange(
                    lines,
                    text,
                    *maxWidth,
                    id,
                    at,
                    end,
                    codeWidth,
                    indent,
                    copied,
                );
                page.pushRange(r);
                first = first && rendered.len() == 0;
                ordinal = ordinal + 1;
                proof {
                    let c = bv[i as int]->Code_0;
                    assert(c.rendered.len() == rendered@.len());
                    assert(r@ == code_range(
                        c,
                        id,
                        at as int,
                        end as int,
                        codeWidth as int,
                        indent as int,
                        copied,
                    ));
                }
            },
        }
        i = i + 1;
    }
}

/// Adds the rows of a rendered code block.
fn pushCode(page: &mut Page, rendered: &Vec<Line>, p: Prefix, first: bool)
    ensures
        final(page)@ == old(page)@.with_rows(code_rows(line_views(rendered@), p@, first)),
{
    let ghost all = code_rows(line_views(rendered@), p@, first);
    let none: Vec<Span> = Vec::new();
    proof {
        assert(page@.rows =~= old(page)@.rows + all.take(0));
    }
    let mut i: usize = 0;
    while i < rendered.len()
        invariant
            i <= rendered@.len(),
            none@.len() == 0,
            all == code_rows(line_views(rendered@), p@, first),
            page@ == old(page)@.with_rows(all.take(i as int)),
        decreases rendered@.len() - i,
    {
        let l = joinSpans(p.before(first && i == 0), &none, &rendered[i]);
        proof {
            assert(span_views(none@) =~= Seq::empty());
            assert(l@ =~= seq![p@.before(first && i == 0)] + rendered@[i as int]@);
        }
        page.push(l, false);
        proof {
            assert(page@.rows =~= old(page)@.rows + all.take(i + 1));
        }
        i = i + 1;
    }
    proof {
        assert(all.take(all.len() as int) =~= all);
    }
}

} // verus!
