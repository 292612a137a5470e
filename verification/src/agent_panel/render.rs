//! The whole panel on the screen, and its scroll as the conversation grows.

use vstd::prelude::*;
use vstd::string::*;
use crate::agent_panel::blocks::{CodeBlockRange, range_views};
use crate::agent_panel::conversation::{
    Built, BuiltV, EntryInput, InputV, built, built_entries, entry_page, input_at, input_views,
    stream_page,
};
use crate::agent_panel::entry_rows::{Throbber, ThrobberV};
use crate::agent_panel::painting::{
    attachment_draws, heights, input_draws, menu_draws, prompt_draws, queue_draws, separator_draws,
    stackRows, stacked, text_rect,
};
use crate::agent_panel::permit_rows::{custom_line, header_line, pattern_line, permit_lines};
use crate::agent_panel::rows::{Block, BlockView, Page, Row, RowV, block_views, row_views};
use crate::agent_panel::state::{AgentPanel, CodeV, PanelV, PermitV, Scroll, ShownV};
use crate::agent_panel::subagent_rows::{placeRange, spansText, spans_text};
use crate::draw::{
    Color, Draw, DrawV, Line, Rect, SpanV, Style, colored, copyLine, draws, emit, insideBorders,
    inside_borders, line_views, min, minus, spanOf, sv,
};
use crate::text::{byte_len, bytesUpTo, texts};

verus! {

// ---- scrolling as the conversation grows ----

/// How far a conversation of `total` rows scrolls where `visible` are shown.
pub open spec fn scroll_limit(total: int, visible: int) -> int {
    minus(total % 65536, visible)
}

impl Scroll {
    /// The scroll once the conversation is drawn with `total` rows. Scrolled up, it
    /// stays at what it shows while rows come in below; at the bottom it follows
    /// them.
    pub open spec fn settled(self, total: int, visible: int, width: u16) -> Scroll {
        let limit = scroll_limit(total, visible);
        let kept = if self.offset > 0 && limit > self.maxScroll {
            min(self.offset + (limit - self.maxScroll), u16::MAX as int)
        } else {
            self.offset as int
        };
        let offset = min(kept, limit);
        Scroll {
            offset: offset as u16,
            newContent: self.newContent && offset != 0,
            idle: self.idle && offset != 0,
            lastY: (limit - offset) as u16,
            chatWidth: width,
            maxScroll: limit as u16,
        }
    }

    /// The scroll of a transcript that is only read.
    pub open spec fn clamped(self, total: int, visible: int, width: u16) -> Scroll {
        let limit = scroll_limit(total, visible);
        let offset = min(self.offset as int, limit);
        Scroll {
            offset: offset as u16,
            lastY: (limit - offset) as u16,
            chatWidth: width,
            ..self
        }
    }
}

/// The text of each row.
pub open spec fn row_texts(rows: Seq<RowV>) -> Seq<Seq<char>> {
    Seq::new(rows.len(), |i: int| spans_text(rows[i].line))
}

/// Which rows continue the one before.
pub open spec fn row_conts(rows: Seq<RowV>) -> Seq<bool> {
    Seq::new(rows.len(), |i: int| rows[i].cont)
}

/// What is shown once `b` is drawn.
pub open spec fn shown_with(s: ShownV, b: BuiltV) -> ShownV {
    ShownV {
        continuation: row_conts(b.page.rows),
        reasoningHeaders: b.headers,
        lineTexts: row_texts(b.page.rows),
        notCopied: b.notCopied,
        blocks: b.page.ranges,
        subagentHeader: match b.page.header {
            Some(h) => Some(h),
            None => s.subagentHeader,
        },
        subagentToggle: match b.page.toggle {
            Some(t) => Some(t),
            None => s.subagentToggle,
        },
        inputRect: s.inputRect,
    }
}

/// How many of `total` rows are shown from row `from` on.
pub open spec fn rows_shown(total: int, from: int, height: int) -> int {
    min(minus(total, from), height)
}

/// The conversation from row `from` on. The rows are `width` columns wide; what is
/// left of the area is blank.
pub open spec fn chat_draws(rows: Seq<RowV>, area: Rect, width: u16, from: int) -> Seq<DrawV> {
    let n = rows_shown(rows.len() as int, from, area.height as int);
    Seq::new(
        n as nat,
        |i: int|
            DrawV::Row {
                x: area.x,
                y: (area.y + i) as u16,
                line: rows[from + i].line,
                width,
                until: (area.x + area.width) as u16,
            },
    ) + (if n < area.height {
        seq![
            DrawV::Fill {
                rect: Rect {
                    x: area.x,
                    y: (area.y + n) as u16,
                    width: area.width,
                    height: (area.height - n) as u16,
                },
                style: Style::plain(),
            },
        ]
    } else {
        Seq::empty()
    })
}

fn drawRows(out: &mut Vec<Draw>, page: &Page, area: Rect, width: u16, from: u16)
    requires
        area.wf(),
    ensures
        draws(final(out)@) == draws(old(out)@) + chat_draws(
            page@.rows,
            area,
            width,
            from as int,
        ),
{
    let ghost rows = page@.rows;
    let ghost all = chat_draws(rows, area, width, from as int);
    let total: usize = page.rows.len();
    proof {
        assert(rows.len() == total);
    }
    let rest: usize = total.saturating_sub(from as usize);
    let n: u16 = if rest < area.height as usize {
        rest as u16
    } else {
        area.height
    };
    let mut i: u16 = 0;
    proof {
        assert(draws(out@) =~= draws(old(out)@) + all.take(0));
    }
    while i < n
        invariant
            i <= n,
            n == rows_shown(rows.len() as int, from as int, area.height as int),
            n <= all.len(),
            rows == row_views(page.rows@),
            area.wf(),
            all == chat_draws(rows, area, width, from as int),
            draws(out@) == draws(old(out)@) + all.take(i as int),
        decreases n - i,
    {
        let k: usize = from as usize + i as usize;
        proof {
            assert(rows[k as int] == page.rows@[k as int]@);
        }
        emit(
            out,
            Draw::Row {
                x: area.x,
                y: area.y + i,
                line: copyLine(&page.rows[k].line),
                width,
                until: area.x + area.width,
            },
        );
        proof {
            assert(draws(out@) =~= draws(old(out)@) + all.take(i + 1));
        }
        i = i + 1;
    }
    if n < area.height {
        emit(
            out,
            Draw::Fill {
                rect: Rect {
                    x: area.x,
                    y: area.y + n,
                    width: area.width,
                    height: area.height - n,
                },
                style: Style::plain(),
            },
        );
    }
    proof {
        assert(draws(out@) =~= draws(old(out)@) + all);
    }
}

impl AgentPanel {
    /// Remembers what is drawn.
    fn remember(&mut self, b: &Built)
        ensures
            final(self)@ == (PanelV { shown: shown_with(old(self)@.shown, b@), ..old(self)@ }),
    {
        let ghost rows = b.page@.rows;
        let mut lines: Vec<String> = Vec::new();
        let mut conts: Vec<bool> = Vec::new();
        let mut i: usize = 0;
        proof {
            assert(texts(lines@) =~= row_texts(rows).take(0));
            assert(conts@ =~= row_conts(rows).take(0));
        }
        while i < b.page.rows.len()
            invariant
                i <= b.page.rows@.len(),
                *self == *old(self),
                rows == row_views(b.page.rows@),
                texts(lines@) == row_texts(rows).take(i as int),
                conts@ == row_conts(rows).take(i as int),
            decreases b.page.rows@.len() - i,
        {
            let ghost before = texts(lines@);
            let s = spansText(&b.page.rows[i].line.spans);
            proof {
                assert(rows[i as int] == b.page.rows@[i as int]@);
            }
            lines.push(s);
            conts.push(b.page.rows[i].cont);
            proof {
                assert(texts(lines@) =~= before.push(s@));
                assert(texts(lines@) =~= row_texts(rows).take(i + 1));
                assert(conts@ =~= row_conts(rows).take(i + 1));
            }
            i = i + 1;
        }
        proof {
            assert(row_texts(rows).take(rows.len() as int) =~= row_texts(rows));
            assert(row_conts(rows).take(rows.len() as int) =~= row_conts(rows));
        }
        self.shown.continuation = conts;
        self.shown.lineTexts = lines;
        self.shown.reasoningHeaders = copyHeaders(&b.headers);
        self.shown.notCopied = copyNumbers(&b.notCopied);
        self.shown.blocks = copyRanges(&b.page.ranges);
        match b.page.header {
            Some(h) => {
                self.shown.subagentHeader = Some(h);
            },
            None => {},
        }
        match b.page.toggle {
            Some(t) => {
                self.shown.subagentToggle = Some(t);
            },
            None => {},
        }
    }

    fn settle(&mut self, total: usize, visible: u16, width: u16)
        ensures
            final(self)@ == (PanelV {
                scroll: old(self)@.scroll.settled(total as int, visible as int, width),
                ..old(self)@
            }),
    {
        let rows: u16 = (total % 65536) as u16;
        let limit: u16 = rows.saturating_sub(visible);
        if self.scroll.offset > 0 && limit > self.scroll.maxScroll {
            self.scroll.offset = self.scroll.offset.saturating_add(
                limit - self.scroll.maxScroll,
            );
        }
        self.scroll.maxScroll = limit;
        if self.scroll.offset > limit {
            self.scroll.offset = limit;
        }
        if self.scroll.offset == 0 {
            self.scroll.newContent = false;
            self.scroll.idle = false;
        }
        self.scroll.lastY = limit - self.scroll.offset;
        self.scroll.chatWidth = width;
    }
}

fn copyHeaders(v: &Vec<(Option<usize>, usize)>) -> (r: Vec<(Option<usize>, usize)>)
    ensures
        r@ == v@,
{
    let mut out: Vec<(Option<usize>, usize)> = Vec::new();
    let mut i: usize = 0;
    while i < v.len()
        invariant
            i <= v@.len(),
            out@ == v@.take(i as int),
        decreases v@.len() - i,
    {
        out.push((v[i].0, v[i].1));
        i = i + 1;
        proof {
            assert(out@ =~= v@.take(i as int));
        }
    }
    proof {
        assert(v@.take(v@.len() as int) =~= v@);
    }
    out
}

fn copyNumbers(v: &Vec<usize>) -> (r: Vec<usize>)
    ensures
        r@ == v@,
{
    let mut out: Vec<usize> = Vec::new();
    let mut i: usize = 0;
    while i < v.len()
        invariant
            i <= v@.len(),
            out@ == v@.take(i as int),
        decreases v@.len() - i,
    {
        out.push(v[i]);
        i = i + 1;
        proof {
            assert(out@ =~= v@.take(i as int));
        }
    }
    proof {
        assert(v@.take(v@.len() as int) =~= v@);
    }
    out
}

fn copyRanges(v: &Vec<CodeBlockRange>) -> (r: Vec<
    CodeBlockRange,
>)
    ensures
        range_views(r@) == range_views(v@),
{
    let mut out: Vec<CodeBlockRange> = Vec::new();
    let ghost rv = range_views(v@);
    let mut i: usize = 0;
    proof {
        assert(range_views(out@) =~= rv.take(0));
    }
    while i < v.len()
        invariant
            i <= v@.len(),
            rv == range_views(v@),
            range_views(out@) == rv.take(i as int),
        decreases v@.len() - i,
    {
        let ghost before = range_views(out@);
        let c = placeRange(
            &v[i],
            v[i].startLine,
            v[i].endLine,
        );
        out.push(c);
        proof {
            assert(c@ == v@[i as int]@);
            assert(range_views(out@) =~= before.push(c@));
            assert(range_views(out@) =~= rv.take(i + 1));
        }
        i = i + 1;
    }
    proof {
        assert(rv.take(rv.len() as int) =~= rv);
    }
    out
}

// ---- the panel ----

/// What the panel is drawn with besides itself: the inputs of its entries, the
/// blocks of the streamed message, the rows of the command that waits for
/// permission and how many columns it takes, and a frame of the throbber.
pub struct Material {
    pub inputs: Vec<EntryInput>,
    pub stream: Vec<Block>,
    pub command: Vec<Line>,
    pub commandWidth: usize,
    pub throbber: Throbber,
}

/// What the panel is drawn with, as a value.
pub ghost struct MaterialV {
    pub inputs: Seq<InputV>,
    pub stream: Seq<BlockView>,
    pub command: Seq<Seq<SpanV>>,
    pub commandWidth: int,
    pub throbber: ThrobberV,
}

impl View for Material {
    type V = MaterialV;

    open spec fn view(&self) -> MaterialV {
        MaterialV {
            inputs: input_views(self.inputs@),
            stream: block_views(self.stream@),
            command: line_views(self.command@),
            commandWidth: self.commandWidth as int,
            throbber: self.throbber@,
        }
    }
}

/// The drawn panel: the steps before the text of the input, where that text
/// stands, the steps behind it, and the areas of the conversation and the input.
pub struct Painted {
    pub under: Vec<Draw>,
    pub text: Option<Rect>,
    pub over: Vec<Draw>,
    pub chat: Rect,
    pub input: Rect,
}

/// The drawn panel as a value.
#[verifier::ext_equal]
pub ghost struct PaintedV {
    pub under: Seq<DrawV>,
    pub text: Option<Rect>,
    pub over: Seq<DrawV>,
    pub chat: Rect,
    pub input: Rect,
}

impl View for Painted {
    type V = PaintedV;

    open spec fn view(&self) -> PaintedV {
        PaintedV {
            under: draws(self.under@),
            text: self.text,
            over: draws(self.over@),
            chat: self.chat,
            input: self.input,
        }
    }
}

/// A rectangle without its last `n` columns.
pub open spec fn narrowed(r: Rect, n: int) -> Rect {
    Rect { width: minus(r.width as int, n) as u16, ..r }
}

/// The frame of the panel.
pub open spec fn panel_frame(p: PanelV, area: Rect, focused: bool) -> DrawV {
    DrawV::Frame {
        rect: area,
        title: sv(p.title(), Style::plain()),
        border: colored(
            if focused {
                Color::Cyan
            } else {
                Color::DarkGray
            },
        ),
        fill: Style::plain(),
    }
}

/// The area of the input in a panel that is divided into `parts`.
pub open spec fn input_area(p: PanelV, parts: Seq<Rect>) -> Rect {
    narrowed(
        parts.last(),
        if p.permit_shown() {
            1
        } else {
            2
        },
    )
}

/// The panel once it is drawn in `parts`.
pub open spec fn drawn_panel(p: PanelV, parts: Seq<Rect>, m: MaterialV, now: u64) -> PanelV {
    let chat = narrowed(parts[0], 2);
    let b = built(p, m.inputs, m.stream, m.throbber, chat.width as int, now);
    PanelV {
        shown: ShownV { inputRect: input_area(p, parts), ..shown_with(p.shown, b) },
        permit: if p.permit_shown() {
            p.prompt_held(m.commandWidth, input_area(p, parts).width as int).permit
        } else {
            p.permit
        },
        scroll: p.scroll.settled(b.page.rows.len() as int, chat.height as int, chat.width),
        code: CodeV {
            copiedFlash: match p.code.copiedFlash {
                Some(f) => if minus(now as int, f.1 as int) >= 2000 {
                    None
                } else {
                    Some(f)
                },
                None => None,
            },
            ..p.code
        },
        ..p
    }
}

/// What the panel shows in `parts`.
pub open spec fn painted(
    p: PanelV,
    area: Rect,
    focused: bool,
    parts: Seq<Rect>,
    m: MaterialV,
    now: u64,
) -> PaintedV {
    let chat = narrowed(parts[0], 2);
    let input = input_area(p, parts);
    let b = built(p, m.inputs, m.stream, m.throbber, chat.width as int, now);
    PaintedV {
        under: seq![panel_frame(p, area, focused)] + separator_draws(p, parts[1]) + (if parts.len()
            > 3 {
            queue_draws(p.compose.queue, parts[2])
        } else {
            Seq::empty()
        }) + input_draws(p, m.command, input),
        text: if p.permit_shown() {
            None
        } else {
            Some(text_rect(p, input))
        },
        over: chat_draws(
            b.page.rows,
            parts[0],
            chat.width,
            drawn_panel(p, parts, m, now).scroll.lastY as int,
        ) + menu_draws(p.compose.completion, input),
        chat,
        input,
    }
}

/// Whether drawing the panel in `area` leads to the panel `q` and shows `r`. The text of
/// the input wants `wanted` lines. A panel that is too low is only framed; any other one
/// is drawn in parts that divide what the frame leaves.
pub open spec fn rendered(
    p: PanelV,
    area: Rect,
    focused: bool,
    wanted: u16,
    m: MaterialV,
    now: u64,
    q: PanelV,
    r: PaintedV,
) -> bool {
    let inner = inside_borders(area);
    if inner.height < 3 {
        q == p && r == bare(p, area, focused)
    } else {
        exists|parts: Seq<Rect>| #[trigger]
            stacked(inner, p.lower_heights(inner, wanted as int), parts) && q == drawn_panel(
                p,
                parts,
                m,
                now,
            ) && r == painted(p, area, focused, parts, m, now)
    }
}

/// What a panel that is too low shows: its frame.
pub open spec fn bare(p: PanelV, area: Rect, focused: bool) -> PaintedV {
    let none = Rect { x: 0, y: 0, width: 0, height: 0 };
    PaintedV {
        under: seq![panel_frame(p, area, focused)],
        text: None,
        over: Seq::empty(),
        chat: none,
        input: none,
    }
}

impl AgentPanel {
    fn explanationHeight(&self, width: u16) -> (r: u32)
        ensures
            r == self@.explanation_height(width as int),
            r <= 65536,
    {
        match &self.permit.explanation {
            None => 0,
            Some(e) => {
                if width <= 6 {
                    return 1;
                }
                let w: usize = width as usize - 6;
                let n: usize = bytesUpTo(e.as_str(), 4_294_836_225);
                proof {
                    let a = byte_len(e@) as int;
                    let d = w as int;
                    if a > 4_294_836_225 {
                        assert(a / d >= 65535 && 4_294_836_225int / d >= 65535)
                            by (nonlinear_arith)
                            requires
                                0 < d <= 65535,
                                a > 4_294_836_225,
                        ;
                    }
                    assert(0 <= n as int / d <= n as int) by (nonlinear_arith)
                        requires
                            d > 0,
                            n >= 0,
                    ;
                }
                let lines: usize = n / w;
                if lines >= 65535 {
                    65536
                } else {
                    lines as u32 + 1
                }
            },
        }
    }

    fn inputHeight(&self, inner: Rect, wanted: u16) -> (r: u16)
        ensures
            r == self@.input_height(inner, wanted as int),
    {
        if self.permitVisible() {
            let head: u64 = if self.pendingCommand().is_some() {
                3
            } else {
                0
            };
            let patterns: usize = self.permit.patterns.len();
            proof {
                assert(self@.permit.patterns.len() == patterns);
            }
            let most: u64 = inner.height as u64 * 2 / 3;
            let fixed: u64 = head + self.explanationHeight(inner.width) as u64 + 5;
            let all: u64 = if patterns as u64 > 65536 {
                65536
            } else {
                fixed + patterns as u64
            };
            let h: u64 = if all < most {
                all
            } else {
                most
            };
            if h > 5 {
                h as u16
            } else {
                5
            }
        } else {
            let base: u16 = if wanted > 8 {
                8
            } else if wanted < 1 {
                1
            } else {
                wanted
            };
            let images: usize = self.compose.attachments.len();
            if images == 0 {
                base
            } else if images > 65535 {
                65535
            } else {
                (images as u16).saturating_add(1).saturating_add(base)
            }
        }
    }

    fn lowerHeights(&self, inner: Rect, wanted: u16) -> (r: Vec<u16>)
        ensures
            r@ == self@.lower_heights(inner, wanted as int),
    {
        let input: u16 = self.inputHeight(inner, wanted);
        let n: usize = self.compose.queue.len();
        let mut v: Vec<u16> = Vec::new();
        v.push(1);
        if n > 0 {
            v.push(
                if n < 4 {
                    n as u16
                } else {
                    4
                },
            );
        }
        v.push(input);
        proof {
            assert(v@ =~= self@.lower_heights(inner, wanted as int));
        }
        v
    }

    fn frame(&self, area: Rect, focused: bool) -> (r: Draw)
        ensures
            r@ == panel_frame(self@, area, focused),
    {
        let color = if focused {
            Color::Cyan
        } else {
            Color::DarkGray
        };
        Draw::Frame {
            rect: area,
            title: spanOf(self.agentTitle(), Style::plain()),
            border: colored(color),
            fill: Style::plain(),
        }
    }

    /// Draws the panel in the parts that its area is divided into: the conversation,
    /// the separator, the queue where there is one, and the input.
    #[verifier::rlimit(60)]
    #[verifier::spinoff_prover]
    pub fn renderIn(
        &mut self,
        area: Rect,
        focused: bool,
        parts: &Vec<Rect>,
        m: &Material,
        now: u64,
    ) -> (r: Painted)
        requires
            3 <= parts@.len() <= 4,
            forall|i: int| 0 <= i < parts@.len() ==> (#[trigger] parts@[i]).wf(),
        ensures
            final(self)@ == drawn_panel(old(self)@, parts@, m@, now),
            r@ == painted(old(self)@, area, focused, parts@, m@, now),
    {
        let ghost p = self@;
        let n: usize = parts.len();
        let mut under: Vec<Draw> = Vec::new();
        emit(&mut under, self.frame(area, focused));
        self.drawSeparatorIn(&mut under, parts[1]);
        if n > 3 {
            self.renderQueueZone(&mut under, parts[2]);
        }
        let last = parts[n - 1];
        let cut: u16 = if self.permitVisible() {
            1
        } else {
            2
        };
        let input = Rect {
            x: last.x,
            y: last.y,
            width: last.width.saturating_sub(cut),
            height: last.height,
        };
        let text = self.drawInput(&mut under, &m.command, input);
        let chat = Rect {
            x: parts[0].x,
            y: parts[0].y,
            width: parts[0].width.saturating_sub(2),
            height: parts[0].height,
        };
        let b = self.buildLines(&m.inputs, &m.stream, &m.throbber, chat.width, now);
        self.remember(&b);
        self.shown.inputRect = input;
        match self.code.copiedFlash {
            Some(f) => {
                if now.saturating_sub(f.1) >= 2000 {
                    self.code.copiedFlash = None;
                }
            },
            None => {},
        }
        let total: usize = b.page.height();
        self.settle(total, chat.height, chat.width);
        let mut over: Vec<Draw> = Vec::new();
        drawRows(&mut over, &b.page, parts[0], chat.width, self.scroll.lastY);
        self.renderCompletionDropdown(&mut over, input);
        if self.permitVisible() {
            self.holdPermitScroll(m.commandWidth, input.width);
        }
        let r = Painted { under, text, over, chat, input };
        proof {
            assert(input == input_area(p, parts@));
            assert(self@ =~= drawn_panel(p, parts@, m@, now));
            assert(r@.under =~= painted(p, area, focused, parts@, m@, now).under);
            assert(r@.over =~= painted(p, area, focused, parts@, m@, now).over);
        }
        r
    }

    /// Draws the panel. The text of the input wants `wanted` lines. How the rows are
    /// shared where there are too few of them is left to the layout solver; the
    /// panel is drawn in whatever parts it gives.
    pub fn render(
        &mut self,
        area: Rect,
        focused: bool,
        wanted: u16,
        m: &Material,
        now: u64,
    ) -> (r: Painted)
        requires
            area.wf(),
        ensures
            rendered(old(self)@, area, focused, wanted, m@, now, final(self)@, r@),
    {
        let inner = insideBorders(area);
        if inner.height < 3 {
            let mut under: Vec<Draw> = Vec::new();
            emit(&mut under, self.frame(area, focused));
            let none = Rect { x: 0, y: 0, width: 0, height: 0 };
            let r = Painted { under, text: None, over: Vec::new(), chat: none, input: none };
            proof {
                assert(r@ =~= bare(old(self)@, area, focused));
            }
            return r;
        }
        let lens = self.lowerHeights(inner, wanted);
        let parts = stackRows(inner, &lens);
        let ghost all = parts@;
        proof {
            assert(stacked(inner, lens@, all));
            assert forall|i: int| 0 <= i < all.len() implies (#[trigger] all[i]).wf() by {
                assert(all[i].x == inner.x);
            }
        }
        self.renderIn(area, focused, &parts, m, now)
    }

    /// Draws the conversation alone, as the popup of a subagent does.
    pub fn renderChatOnly(&mut self, area: Rect, m: &Material, now: u64) -> (r: Vec<Draw>)
        requires
            area.wf(),
        ensures
            ({
                let w = minus(area.width as int, 2) as u16;
                let p = old(self)@;
                if w < 4 || area.height < 1 {
                    draws(r@) == Seq::<DrawV>::empty() && final(self)@ == p
                } else {
                    let b = built(p, m@.inputs, m@.stream, m@.throbber, w as int, now);
                    let s = p.scroll.clamped(b.page.rows.len() as int, area.height as int, w);
                    draws(r@) == chat_draws(b.page.rows, area, w, s.lastY as int)
                        && final(self)@ == (PanelV {
                        shown: shown_with(p.shown, b),
                        scroll: s,
                        ..p
                    })
                }
            }),
    {
        let mut out: Vec<Draw> = Vec::new();
        let w: u16 = area.width.saturating_sub(2);
        proof {
            assert(draws(out@) =~= Seq::empty());
        }
        if w < 4 || area.height < 1 {
            return out;
        }
        let b = self.buildLines(&m.inputs, &m.stream, &m.throbber, w, now);
        self.remember(&b);
        let rows: u16 = (b.page.height() % 65536) as u16;
        let limit: u16 = rows.saturating_sub(area.height);
        if self.scroll.offset > limit {
            self.scroll.offset = limit;
        }
        self.scroll.lastY = limit - self.scroll.offset;
        self.scroll.chatWidth = w;
        drawRows(&mut out, &b.page, area, w, self.scroll.lastY);
        proof {
            let bv = built(old(self)@, m@.inputs, m@.stream, m@.throbber, w as int, now);
            assert(draws(out@) =~= chat_draws(bv.page.rows, area, w, self.scroll.lastY as int));
        }
        out
    }
}

// ---- laws ----

/// While the conversation is read further up, rows that come in below do not move
/// what is shown: the first row on the screen stays the same.
pub proof fn law_reading_position_is_kept(
    s: Scroll,
    before: int,
    after: int,
    visible: int,
    width: u16,
)
    requires
        0 <= before <= after < 65536,
        0 <= visible,
        s.settled(before, visible, width).offset > 0,
        after - before + s.settled(before, visible, width).offset <= u16::MAX,
    ensures
        s.settled(before, visible, width).settled(after, visible, width).lastY == s.settled(
            before,
            visible,
            width,
        ).lastY,
{
}

/// At the bottom the conversation follows what comes in: its last row is shown.
pub proof fn law_the_bottom_is_followed(s: Scroll, total: int, visible: int, width: u16)
    requires
        0 <= total < 65536,
        0 <= visible <= u16::MAX,
        s.offset == 0,
    ensures
        s.settled(total, visible, width).offset == 0,
        s.settled(total, visible, width).lastY + visible >= total,
        !s.settled(total, visible, width).newContent,
{
}

/// The conversation never scrolls past its first row or its last one.
pub proof fn law_scroll_stays_in_range(s: Scroll, total: int, visible: int, width: u16)
    requires
        0 <= total,
        0 <= visible,
    ensures
        s.settled(total, visible, width).offset <= scroll_limit(total, visible),
        s.settled(total, visible, width).lastY + s.settled(total, visible, width).offset
            == scroll_limit(total, visible),
{
    assert(0 <= total % 65536 < 65536);
}

/// Drawing the same conversation again changes nothing of the scroll.
pub proof fn law_drawing_again_keeps_the_scroll(s: Scroll, total: int, visible: int, width: u16)
    requires
        0 <= total,
        0 <= visible,
    ensures
        s.settled(total, visible, width).settled(total, visible, width) == s.settled(
            total,
            visible,
            width,
        ),
{
    assert(0 <= total % 65536 < 65536);
}

/// Whether nothing differs but what was drawn last, the scroll of the conversation and
/// that of the command in the prompt.
pub open spec fn same_but_view(p: PanelV, q: PanelV) -> bool {
    q == (PanelV {
        scroll: q.scroll,
        shown: q.shown,
        permit: PermitV { scrollX: q.permit.scrollX, ..p.permit },
        ..p
    })
}

/// What the conversation is built from does not depend on what was drawn before.
proof fn lemma_built_afresh(
    p: PanelV,
    q: PanelV,
    inp: Seq<InputV>,
    t: ThrobberV,
    width: int,
    now: u64,
    n: int,
)
    requires
        same_but_view(p, q),
    ensures
        built_entries(q, inp, t, width, now, n) == built_entries(p, inp, t, width, now, n),
    decreases n,
{
    if n > 0 {
        lemma_built_afresh(p, q, inp, t, width, now, n - 1);
        let b = built_entries(p, inp, t, width, now, n - 1);
        assert(entry_page(q, b.page, n - 1, input_at(inp, n - 1), t, width, now) == entry_page(
            p,
            b.page,
            n - 1,
            input_at(inp, n - 1),
            t,
            width,
            now,
        ));
    }
}

/// The lines of a prompt are given the rows of its command, so that they do not depend on
/// how far that is scrolled.
proof fn lemma_prompt_afresh(p: PanelV, q: PanelV, code: Seq<Seq<SpanV>>, width: int)
    requires
        same_but_view(p, q),
    ensures
        permit_lines(q, code, width, false) == permit_lines(p, code, width, false),
{
    let (a, b) = (p.permit, q.permit);
    let x = Seq::new(a.patterns.len(), |i: int| pattern_line(a, i));
    let y = Seq::new(b.patterns.len(), |i: int| pattern_line(b, i));
    assert forall|i: int| 0 <= i < x.len() implies x[i] == y[i] by {
        assert(pattern_line(a, i) == pattern_line(b, i));
    }
    assert(x =~= y);
    assert(custom_line(a) == custom_line(b));
    assert(header_line(p, width) == header_line(q, width));
}

proof fn lemma_under_afresh(p: PanelV, q: PanelV, code: Seq<Seq<SpanV>>, r: Rect, input: Rect)
    requires
        same_but_view(p, q),
    ensures
        separator_draws(q, r) == separator_draws(p, r),
        input_draws(q, code, input) == input_draws(p, code, input),
        q.permit_shown() == p.permit_shown(),
        text_rect(q, input) == text_rect(p, input),
{
    lemma_prompt_afresh(p, q, code, input.width as int);
    assert(attachment_draws(q, input) == attachment_draws(p, input));
    assert(prompt_draws(q, code, input) == prompt_draws(p, code, input));
}

/// Coming back to the bottom shows the same as before, however far the conversation
/// was scrolled in between: nothing of what was drawn meanwhile is left.
pub proof fn law_coming_back_shows_the_same(
    p: PanelV,
    q: PanelV,
    area: Rect,
    focused: bool,
    parts: Seq<Rect>,
    m: MaterialV,
    now: u64,
)
    requires
        same_but_view(p, q),
        p.scroll.offset == 0,
        q.scroll.offset == 0,
    ensures
        painted(q, area, focused, parts, m, now) == painted(p, area, focused, parts, m, now),
{
    let width = narrowed(parts[0], 2).width as int;
    lemma_under_afresh(p, q, m.command, parts[1], input_area(p, parts));
    lemma_built_afresh(p, q, m.inputs, m.throbber, width, now, p.entries.len() as int);
    let b = built_entries(p, m.inputs, m.throbber, width, now, p.entries.len() as int);
    assert(stream_page(q, b.page, m.stream, m.throbber, width, now) == stream_page(
        p,
        b.page,
        m.stream,
        m.throbber,
        width,
        now,
    ));
}

/// Whether a step of drawing writes row `y` of the area from edge to edge.
pub open spec fn covers_row(d: DrawV, area: Rect, y: int) -> bool {
    match d {
        DrawV::Row { x, y: at, until, .. } => at == y && x == area.x && until == area.x
            + area.width,
        DrawV::Fill { rect, .. } => rect.x == area.x && rect.width == area.width && rect.y <= y
            < rect.y + rect.height,
        _ => false,
    }
}

/// Whether row `y` of the area is written from edge to edge.
pub open spec fn is_covered(d: Seq<DrawV>, area: Rect, y: int) -> bool {
    exists|i: int| 0 <= i < d.len() && covers_row(#[trigger] d[i], area, y)
}

/// Every row of the conversation's area is written from edge to edge, so that nothing
/// of an earlier drawing shows through.
pub proof fn law_the_whole_area_is_drawn(rows: Seq<RowV>, area: Rect, width: u16, from: int, y: int)
    requires
        area.wf(),
        0 <= from,
        area.y <= y < area.y + area.height,
    ensures
        is_covered(chat_draws(rows, area, width, from), area, y),
{
    let d = chat_draws(rows, area, width, from);
    let n = rows_shown(rows.len() as int, from, area.height as int);
    let i = if y - area.y < n {
        y - area.y
    } else {
        n
    };
    assert(covers_row(d[i], area, y));
}

// ---- scrolling away and back ----

/// Whether the panel has the rows that it asks for in `area`, or is only framed there.
pub open spec fn has_room(p: PanelV, area: Rect, wanted: u16) -> bool {
    let inner = inside_borders(area);
    let lens = p.lower_heights(inner, wanted as int);
    inner.height < 3 || 1 + heights(lens, lens.len() as int) <= inner.height
}

/// Whether nothing else differs, but that the note that something was copied may have
/// passed.
pub open spec fn same_but_passing(p: PanelV, q: PanelV) -> bool {
    let c = CodeV { copiedFlash: q.code.copiedFlash, ..p.code };
    &&& q.code == c
    &&& q.code.copiedFlash is None || q.code.copiedFlash == p.code.copiedFlash
    &&& same_but_view(PanelV { code: c, ..p }, q)
}

/// Whether `q` follows on `p` by scrolling, or by drawing the panel anywhere.
pub open spec fn scrolls_or_draws(p: PanelV, q: PanelV) -> bool {
    ||| exists|n: int| q == #[trigger] p.scrolled_up(n)
    ||| exists|n: int| q == #[trigger] p.scrolled_down(n)
    ||| exists|area: Rect, focused: bool, wanted: u16, m: MaterialV, now: u64, r: PaintedV|
        #[trigger] rendered(p, area, focused, wanted, m, now, q, r)
}

/// Whether each panel of `s` follows on the one before it by scrolling or drawing.
pub open spec fn is_reading(s: Seq<PanelV>) -> bool {
    forall|i: int| 0 <= i && i + 1 < s.len() ==> scrolls_or_draws(#[trigger] s[i], s[i + 1])
}

proof fn lemma_step_keeps(p: PanelV, q: PanelV)
    requires
        scrolls_or_draws(p, q),
    ensures
        same_but_passing(p, q),
{
    if exists|area: Rect, focused: bool, wanted: u16, m: MaterialV, now: u64, r: PaintedV|
        #[trigger] rendered(p, area, focused, wanted, m, now, q, r) {
        let (area, focused, wanted, m, now, r) = choose|
            area: Rect,
            focused: bool,
            wanted: u16,
            m: MaterialV,
            now: u64,
            r: PaintedV,
        | #[trigger] rendered(p, area, focused, wanted, m, now, q, r);
        let inner = inside_borders(area);
        if inner.height >= 3 {
            let parts = choose|parts: Seq<Rect>| #[trigger]
                stacked(inner, p.lower_heights(inner, wanted as int), parts) && q == drawn_panel(
                    p,
                    parts,
                    m,
                    now,
                ) && r == painted(p, area, focused, parts, m, now);
        }
    }
}

proof fn lemma_reading_keeps(s: Seq<PanelV>, k: int)
    requires
        0 <= k < s.len(),
        is_reading(s),
    ensures
        same_but_passing(s[0], s[k]),
    decreases k,
{
    if k > 0 {
        lemma_reading_keeps(s, k - 1);
        assert(scrolls_or_draws(s[k - 1], s[k - 1 + 1]));
        lemma_step_keeps(s[k - 1], s[k]);
    }
}

proof fn lemma_one_division(area: Rect, lens: Seq<u16>, a: Seq<Rect>, b: Seq<Rect>)
    requires
        stacked(area, lens, a),
        stacked(area, lens, b),
        1 + heights(lens, lens.len() as int) <= area.height,
    ensures
        a == b,
{
    assert forall|i: int| 0 <= i < a.len() implies a[i] == b[i] by {
        if i == 0 {
            assert(a[0].x == area.x && b[0].x == area.x);
        } else {
            assert(a[i].height == lens[i - 1] && b[i].height == lens[i - 1]);
        }
    }
    assert(a =~= b);
}

/// Two drawings at the bottom show the same, where the panel has the rows that it
/// asks for.
proof fn lemma_one_picture(
    p: PanelV,
    q: PanelV,
    area: Rect,
    focused: bool,
    wanted: u16,
    m: MaterialV,
    now: u64,
    p2: PanelV,
    first: PaintedV,
    q2: PanelV,
    again: PaintedV,
)
    requires
        same_but_view(p, q),
        p.scroll.offset == 0,
        q.scroll.offset == 0,
        has_room(p, area, wanted),
        rendered(p, area, focused, wanted, m, now, p2, first),
        rendered(q, area, focused, wanted, m, now, q2, again),
    ensures
        again == first,
{
    let inner = inside_borders(area);
    if inner.height >= 3 {
        let lens = p.lower_heights(inner, wanted as int);
        assert(q.lower_heights(inner, wanted as int) == lens);
        let a = choose|parts: Seq<Rect>| #[trigger]
            stacked(inner, lens, parts) && p2 == drawn_panel(p, parts, m, now) && first
                == painted(p, area, focused, parts, m, now);
        let b = choose|parts: Seq<Rect>| #[trigger]
            stacked(inner, lens, parts) && q2 == drawn_panel(q, parts, m, now) && again
                == painted(q, area, focused, parts, m, now);
        lemma_one_division(inner, lens, a, b);
        law_coming_back_shows_the_same(p, q, area, focused, a, m, now);
    }
}

/// A drawing of the panel writes every row of the conversation from edge to edge.
pub proof fn law_a_drawing_covers_the_conversation(
    p: PanelV,
    area: Rect,
    focused: bool,
    wanted: u16,
    m: MaterialV,
    now: u64,
    q: PanelV,
    r: PaintedV,
    y: int,
)
    requires
        area.wf(),
        rendered(p, area, focused, wanted, m, now, q, r),
        r.chat.y <= y < r.chat.y + r.chat.height,
    ensures
        is_covered(r.over, Rect { width: inside_borders(area).width, ..r.chat }, y),
{
    let inner = inside_borders(area);
    let chat = Rect { width: inner.width, ..r.chat };
    let a = choose|parts: Seq<Rect>| #[trigger]
        stacked(inner, p.lower_heights(inner, wanted as int), parts) && q == drawn_panel(
            p,
            parts,
            m,
            now,
        ) && r == painted(p, area, focused, parts, m, now);
    assert(a[0].x == inner.x);
    assert(chat == a[0]);
    let width = narrowed(a[0], 2).width;
    let from = q.scroll.lastY as int;
    let rows = built(p, m.inputs, m.stream, m.throbber, width as int, now).page.rows;
    let d = chat_draws(rows, a[0], width, from);
    law_the_whole_area_is_drawn(rows, a[0], width, from, y);
    let i = choose|i: int| 0 <= i < d.len() && covers_row(#[trigger] d[i], a[0], y);
    assert(r.over[i] == d[i]);
    assert(covers_row(r.over[i], chat, y));
}

/// A panel that was drawn, scrolled and drawn any number of times, and brought back to
/// the bottom, is the one before but for its view, unless a note has passed.
proof fn lemma_back_again(
    p: PanelV,
    between: Seq<PanelV>,
    back: PanelV,
    area: Rect,
    focused: bool,
    wanted: u16,
    m: MaterialV,
    now: u64,
    first: PaintedV,
)
    requires
        between.len() > 0,
        rendered(p, area, focused, wanted, m, now, between[0], first),
        is_reading(between),
        between.last().code.copiedFlash == p.code.copiedFlash,
        back == (PanelV {
            scroll: Scroll { offset: 0, ..between.last().scroll },
            ..between.last()
        }),
    ensures
        same_but_view(p, back),
{
    assert(scrolls_or_draws(p, between[0]));
    lemma_step_keeps(p, between[0]);
    lemma_reading_keeps(between, between.len() - 1);
}

/// Scrolling leaves nothing behind. A panel is drawn at the bottom of the conversation;
/// then it is scrolled and drawn any number of times; then it goes back to the bottom
/// and is drawn as before. It shows the same, with a prompt or without one, and every
/// row of the conversation is written from edge to edge. A note that something was
/// copied may not have passed meanwhile, and the panel has the rows that it asks for.
pub proof fn law_scrolling_leaves_nothing_behind(
    p: PanelV,
    between: Seq<PanelV>,
    back: PanelV,
    area: Rect,
    focused: bool,
    wanted: u16,
    m: MaterialV,
    now: u64,
    first: PaintedV,
    after: PanelV,
    again: PaintedV,
)
    requires
        area.wf(),
        p.scroll.offset == 0,
        has_room(p, area, wanted),
        between.len() > 0,
        rendered(p, area, focused, wanted, m, now, between[0], first),
        is_reading(between),
        between.last().code.copiedFlash == p.code.copiedFlash,
        back == (PanelV {
            scroll: Scroll { offset: 0, ..between.last().scroll },
            ..between.last()
        }),
        rendered(back, area, focused, wanted, m, now, after, again),
    ensures
        again == first,
        forall|y: int|
            again.chat.y <= y < again.chat.y + again.chat.height ==> #[trigger] is_covered(
                again.over,
                Rect { width: inside_borders(area).width, ..again.chat },
                y,
            ),
{
    lemma_back_again(p, between, back, area, focused, wanted, m, now, first);
    lemma_one_picture(p, back, area, focused, wanted, m, now, between[0], first, after, again);
    assert forall|y: int|
        again.chat.y <= y < again.chat.y + again.chat.height implies #[trigger] is_covered(
        again.over,
        Rect { width: inside_borders(area).width, ..again.chat },
        y,
    ) by {
        law_a_drawing_covers_the_conversation(
            back,
            area,
            focused,
            wanted,
            m,
            now,
            after,
            again,
            y,
        );
    }
}

} // verus!
