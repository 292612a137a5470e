//! The visual lines of the whole conversation.

use vstd::prelude::*;
use vstd::string::*;
use crate::agent_panel::blocks::STREAMING;
use crate::agent_panel::boxes::{context_rows, pushContextRows};
use crate::agent_panel::entry::{EntryV, PanelEntry};
use crate::agent_panel::entry_rows::{
    Throbber, ThrobberV, active_rows, fold_icon, indented_rows, marker_row, notice_row, pushActive,
    pushIndented, pushMarkerRow, pushNoticeRow, pushReasoningHeader, pushReasoningRows, pushSymbol,
    pushUserRows, pushWakeRows, reasoningStyle, reasoning_header, reasoning_rows, secondsSince,
    seconds_since, symbol_rows, user_rows, wake_rows,
};
use crate::agent_panel::fade::{applyFadeToLastChar, faded_rows};
use crate::agent_panel::labels::{
    added_lines, diffStats, removed_lines, formatBytes, format_bytes,
};
use crate::agent_panel::rows::{
    Block, BlockView, Page, PageV, Prefix, PrefixV, RowV, Setting, block_views, copyTexts, flow,
    prefixRenderedBlocks, rv,
};
use crate::agent_panel::state::{
    AgentPanel, CallV, FULL_FADE, PanelV, PendingToolCall, StreamV, call_views,
};
use crate::agent_panel::subagent_rows::{pushSubagent, subagent_page};
use crate::draw::{
    Color, Line, Span, SpanV, Style, addLine, addSpan, colored, copyLine, copySpan, emptyLine,
    lineOf, lineOf2, line_views, min, minus, span, spanOf, span_views, sv,
};
use crate::text::{dec, decimal, joinWith, joined, lines_of, texts};

verus! {

/// What an entry is drawn with besides itself: the blocks of its rendered text.
pub struct EntryInput {
    pub blocks: Vec<Block>,
}

/// What an entry is drawn with, as a value.
pub ghost struct InputV {
    pub blocks: Seq<BlockView>,
}

impl View for EntryInput {
    type V = InputV;

    open spec fn view(&self) -> InputV {
        InputV { blocks: block_views(self.blocks@) }
    }
}

/// The inputs of `v` as values.
pub open spec fn input_views(v: Seq<EntryInput>) -> Seq<InputV> {
    Seq::new(v.len(), |i: int| v[i]@)
}

// ---- one entry ----

/// The line above a diff: the summary and how many lines come and go.
pub open spec fn diff_line(summary: Seq<char>, diff: Seq<char>) -> Seq<SpanV> {
    let l = lines_of(diff);
    seq![
        sv(summary, colored(Color::Yellow)),
        sv(" "@, Style::plain()),
        sv("+"@ + dec(added_lines(l, l.len() as int) as nat), colored(Color::Green)),
        sv(" "@, Style::plain()),
        sv("-"@ + dec(removed_lines(l, l.len() as int) as nat), colored(Color::Red)),
    ]
}

/// The page with blocks behind a symbol.
pub open spec fn block_page(
    p: PanelV,
    q: PageV,
    b: Seq<BlockView>,
    symbol: Seq<char>,
    color: Color,
    entry: usize,
    width: int,
    now: u64,
) -> PageV {
    flow(
        Setting {
            prefix: PrefixV { symbol, style: colored(color) },
            width,
            entry,
            code: p.code,
            now,
        },
        q,
        b,
        b.len() as int,
    ).page
}

/// The page with the entry `i`.
pub open spec fn entry_page(
    p: PanelV,
    q: PageV,
    i: int,
    inp: InputV,
    t: ThrobberV,
    width: int,
    now: u64,
) -> PageV {
    let at = i as usize;
    match p.entries[i] {
        EntryV::User(text) => q.with_rows(user_rows(text, width)),
        EntryV::Assistant(_) => block_page(
            p,
            q,
            inp.blocks,
            "\u{25C6} "@,
            Color::White,
            at,
            width,
            now,
        ),
        EntryV::Reasoning { text, expanded } => q.with_rows(reasoning_rows(text, expanded, width)),
        EntryV::ToolRequest { summary, diff, command } => match diff {
            Some(d) => block_page(
                p,
                q,
                seq![BlockView::Text(seq![diff_line(summary, d)])] + inp.blocks,
                "\u{2699}\u{FE0E} "@,
                Color::Yellow,
                at,
                width,
                now,
            ),
            None => if command is Some && p.permit.pending && i == p.entries.len() - 1 {
                // The prompt shows the command.
                q
            } else {
                q.with_rows(
                    symbol_rows(summary, "\u{2699}\u{FE0E} "@, colored(Color::Yellow), width),
                )
            },
        },
        EntryV::ToolApproved(name) => q.with_rows(
            symbol_rows(name, "\u{2713}\u{FE0E} "@, colored(Color::Green), width),
        ),
        EntryV::ToolDenied(name) => q.with_rows(
            symbol_rows(
                name + " (denied)"@,
                "\u{2717}\u{FE0E} "@,
                colored(Color::Red),
                width,
            ),
        ),
        EntryV::ToolAutoDenied { name, summary } => q.with_rows(
            symbol_rows(
                name + ": "@ + summary + " (blocked by rule)"@,
                "\u{2717}\u{FE0E} "@,
                colored(Color::Red).bg(Color::Rgb(60, 20, 20)),
                width,
            ),
        ),
        EntryV::ToolActive(summary) => q.with_rows(
            active_rows(summary, p.tools.startTime, t, now),
        ),
        EntryV::WakeSchedule(w) => q.with_rows(wake_rows(w, width, now)),
        EntryV::SubagentBlock(b) => subagent_page(
            q,
            b,
            inp.blocks,
            p.subs,
            p.code,
            t,
            at,
            width,
            now,
        ),
        EntryV::ToolResult { .. } => block_page(
            p,
            q,
            inp.blocks,
            "\u{25C7} "@,
            Color::DarkGray,
            at,
            width,
            now,
        ),
        EntryV::CommandResult(_) => block_page(
            p,
            q,
            inp.blocks,
            "\u{2139}\u{FE0E} "@,
            Color::DarkGray,
            at,
            width,
            now,
        ),
        EntryV::ContextDisplay(c) => q.with_rows(context_rows(c, width)),
        EntryV::Error(msg) => q.with_rows(
            symbol_rows(msg, "\u{26A0}\u{FE0E} "@, colored(Color::Red), width),
        ),
        EntryV::SessionNotice(text) => q.with_row(notice_row(text)),
        EntryV::CompactionMarker(stage) => q.with_row(marker_row(stage, width)),
        EntryV::Cancelled => q.with_row(
            rv(seq![sv("\u{2500} cancelled"@, colored(Color::DarkGray))]),
        ),
    }
}

fn copyLines(v: &Vec<Line>) -> (r: Vec<Line>)
    ensures
        line_views(r@) == line_views(v@),
{
    let mut out: Vec<Line> = Vec::new();
    let ghost lv = line_views(v@);
    let mut i: usize = 0;
    proof {
        assert(line_views(out@) =~= lv.take(0));
    }
    while i < v.len()
        invariant
            i <= v@.len(),
            lv == line_views(v@),
            line_views(out@) == lv.take(i as int),
        decreases v@.len() - i,
    {
        addLine(&mut out, copyLine(&v[i]));
        proof {
            assert(line_views(out@) =~= lv.take(i + 1));
        }
        i = i + 1;
    }
    proof {
        assert(lv.take(lv.len() as int) =~= lv);
    }
    out
}

fn copyBlock(b: &Block) -> (r: Block)
    ensures
        r@ == b@,
{
    match b {
        Block::Text(l) => Block::Text(copyLines(l)),
        Block::Code { lines, code, maxWidth, rendered } => Block::Code {
            lines: copyTexts(lines),
            code: code.clone(),
            maxWidth: *maxWidth,
            rendered: copyLines(rendered),
        },
    }
}

fn diffBlocks(summary: &str, diff: &str, blocks: &Vec<Block>) -> (r: Vec<Block>)
    ensures
        block_views(r@) == seq![BlockView::Text(seq![diff_line(summary@, diff@)])] + block_views(
            blocks@,
        ),
{
    let stats = diffStats(diff);
    let mut added = String::from_str("+");
    added.append(decimal(stats.0 as u64).as_str());
    let mut removed = String::from_str("-");
    removed.append(decimal(stats.1 as u64).as_str());
    let mut spans: Vec<Span> = Vec::new();
    spans.push(span(summary, colored(Color::Yellow)));
    spans.push(span(" ", Style::plain()));
    spans.push(spanOf(added, colored(Color::Green)));
    spans.push(span(" ", Style::plain()));
    spans.push(spanOf(removed, colored(Color::Red)));
    proof {
        assert(span_views(spans@) =~= diff_line(summary@, diff@));
    }
    let mut lines: Vec<Line> = Vec::new();
    lines.push(Line { spans });
    proof {
        assert(line_views(lines@) =~= seq![diff_line(summary@, diff@)]);
    }
    let mut out: Vec<Block> = Vec::new();
    out.push(Block::Text(lines));
    let ghost head = seq![BlockView::Text(seq![diff_line(summary@, diff@)])];
    let ghost bv = block_views(blocks@);
    let mut i: usize = 0;
    proof {
        assert(block_views(out@) =~= head + bv.take(0));
    }
    while i < blocks.len()
        invariant
            i <= blocks@.len(),
            bv == block_views(blocks@),
            block_views(out@) == head + bv.take(i as int),
        decreases blocks@.len() - i,
    {
        let ghost before = block_views(out@);
        let b = copyBlock(&blocks[i]);
        out.push(b);
        proof {
            assert(bv[i as int] == blocks@[i as int]@);
            assert(block_views(out@) =~= before.push(b@));
            assert(block_views(out@) =~= head + bv.take(i + 1));
        }
        i = i + 1;
    }
    proof {
        assert(bv.take(bv.len() as int) =~= bv);
    }
    out
}

impl AgentPanel {
    fn pushBlocks(
        &self,
        page: &mut Page,
        blocks: &Vec<Block>,
        symbol: &'static str,
        color: Color,
        entry: usize,
        width: u16,
        now: u64,
    )
        ensures
            final(page)@ == block_page(
                self@,
                old(page)@,
                block_views(blocks@),
                symbol@,
                color,
                entry,
                width as int,
                now,
            ),
    {
        prefixRenderedBlocks(
            page,
            blocks,
            Prefix { symbol, style: colored(color) },
            width,
            entry,
            &self.code,
            now,
        );
    }

    /// Adds an entry to the page.
    #[verifier::rlimit(60)]
    #[verifier::spinoff_prover]
    pub fn renderEntry(
        &self,
        page: &mut Page,
        i: usize,
        input: &EntryInput,
        t: &Throbber,
        width: u16,
        now: u64,
    )
        requires
            i < self@.entries.len(),
        ensures
            final(page)@ == entry_page(
                self@,
                old(page)@,
                i as int,
                input@,
                t@,
                width as int,
                now,
            ),
    {
        proof {
            assert(self@.entries[i as int] == self.entries@[i as int]@);
        }
        match &self.entries[i] {
            PanelEntry::User(text) => {
                pushUserRows(page, text.as_str(), width);
            },
            PanelEntry::Assistant(_) => {
                self.pushBlocks(page, &input.blocks, "\u{25C6} ", Color::White, i, width, now);
            },
            PanelEntry::Reasoning { text, expanded } => {
                pushReasoningRows(page, text.as_str(), *expanded, width);
            },
            PanelEntry::ToolRequest { summary, diff, command } => {
                match diff {
                    Some(d) => {
                        let blocks = diffBlocks(summary.as_str(), d.as_str(), &input.blocks);
                        self.pushBlocks(
                            page,
                            &blocks,
                            "\u{2699}\u{FE0E} ",
                            Color::Yellow,
                            i,
                            width,
                            now,
                        );
                    },
                    None => {
                        let asked = command.is_some() && self.permit.pending && i
                            == self.entries.len() - 1;
                        if !asked {
                            pushSymbol(
                                page,
                                summary.as_str(),
                                "\u{2699}\u{FE0E} ",
                                colored(Color::Yellow),
                                width,
                            );
                        }
                    },
                }
            },
            PanelEntry::ToolApproved { name } => {
                pushSymbol(
                    page,
                    name.as_str(),
                    "\u{2713}\u{FE0E} ",
                    colored(Color::Green),
                    width,
                );
            },
            PanelEntry::ToolDenied { name } => {
                let mut s = name.clone();
                s.append(" (denied)");
                pushSymbol(page, s.as_str(), "\u{2717}\u{FE0E} ", colored(Color::Red), width);
            },
            PanelEntry::ToolAutoDenied { name, summary } => {
                let mut s = name.clone();
                s.append(": ");
                s.append(summary.as_str());
                s.append(" (blocked by rule)");
                pushSymbol(
                    page,
                    s.as_str(),
                    "\u{2717}\u{FE0E} ",
                    colored(Color::Red).bg(Color::Rgb(60, 20, 20)),
                    width,
                );
            },
            PanelEntry::ToolActive { summary } => {
                pushActive(page, summary.as_str(), self.tools.startTime, t, now);
            },
            PanelEntry::WakeSchedule {
                id,
                kind,
                summary,
                prompt,
                status,
                armed,
                nextFireAt,
                firesSoFar,
                registeredAt,
            } => {
                pushWakeRows(
                    page,
                    *id,
                    *kind,
                    summary,
                    prompt,
                    *status,
                    *armed,
                    *nextFireAt,
                    *firesSoFar,
                    *registeredAt,
                    width,
                    now,
                );
            },
            PanelEntry::SubagentBlock {
                agentType,
                prompt,
                toolLines,
                done,
                turns,
                content,
                contentExpanded,
                sessionId,
            } => {
                pushSubagent(
                    page,
                    agentType,
                    prompt,
                    toolLines,
                    *done,
                    *turns,
                    content,
                    *contentExpanded,
                    sessionId,
                    &input.blocks,
                    &self.subs,
                    &self.code,
                    t,
                    i,
                    width,
                    now,
                );
            },
            PanelEntry::ToolResult { .. } => {
                self.pushBlocks(page, &input.blocks, "\u{25C7} ", Color::DarkGray, i, width, now);
            },
            PanelEntry::CommandResult(_) => {
                self.pushBlocks(
                    page,
                    &input.blocks,
                    "\u{2139}\u{FE0E} ",
                    Color::DarkGray,
                    i,
                    width,
                    now,
                );
            },
            PanelEntry::ContextDisplay(c) => {
                pushContextRows(page, c, width);
            },
            PanelEntry::Error(msg) => {
                pushSymbol(page, msg.as_str(), "\u{26A0}\u{FE0E} ", colored(Color::Red), width);
            },
            PanelEntry::SessionNotice(text) => {
                pushNoticeRow(page, text.as_str());
            },
            PanelEntry::CompactionMarker { stage } => {
                pushMarkerRow(page, stage.as_str(), width);
            },
            PanelEntry::Cancelled => {
                page.push(
                    lineOf(span("\u{2500} cancelled", colored(Color::DarkGray))),
                    false,
                );
            },
        }
    }
}

// ---- the message that streams in ----

/// The tool calls whose names are known, of the first `n`.
pub open spec fn named_calls(c: Seq<CallV>, n: int) -> Seq<CallV>
    decreases n,
{
    if n <= 0 {
        Seq::empty()
    } else if c[n - 1].name.len() > 0 {
        named_calls(c, n - 1).push(c[n - 1])
    } else {
        named_calls(c, n - 1)
    }
}

/// What a tool call that streams in is shown as.
pub open spec fn preparing_text(c: CallV, secs: nat) -> Seq<char> {
    "preparing "@ + c.name + "  ("@ + format_bytes(c.bytes as int) + " \u{00B7} "@ + dec(secs)
        + "s)"@
}

fn preparingText(c: &PendingToolCall, secs: u64) -> (r: String)
    ensures
        r@ == preparing_text(c@, secs as nat),
{
    let mut s = String::from_str("preparing ");
    s.append(c.name.as_str());
    s.append("  (");
    s.append(formatBytes(c.bytes as u64).as_str());
    s.append(" \u{00B7} ");
    s.append(decimal(secs).as_str());
    s.append("s)");
    s
}

/// What stands behind the throbber.
pub open spec fn throbber_text(p: PanelV, now: u64) -> Seq<char> {
    let named = named_calls(p.tools.calls, p.tools.calls.len() as int);
    let secs = dec(seconds_since(p.stream.thinkingStart, now));
    if p.stream.retryStatus is Some {
        " "@ + p.stream.retryStatus->0
    } else if !p.stream.reasoningActive && named.len() > 0 {
        " "@ + preparing_text(named[0], seconds_since(p.tools.callsStart, now)) + (
        match named[0].preview {
            Some(v) => "  \u{2192} "@ + v,
            None => Seq::empty(),
        })
    } else if p.stream.reasoning.len() > 0 {
        " thinking ("@ + secs + "s)  "@ + fold_icon(p.stream.thinkingExpanded)
    } else {
        " thinking ("@ + secs + "s)"@
    }
}

/// The names of calls.
pub open spec fn call_names(c: Seq<CallV>) -> Seq<Seq<char>> {
    Seq::new(c.len(), |i: int| c[i].name)
}

/// The bytes of the first `n` calls together.
pub open spec fn call_bytes(c: Seq<CallV>, n: int) -> int
    decreases n,
{
    if n <= 0 {
        0
    } else {
        min(call_bytes(c, n - 1) + c[n - 1].bytes, usize::MAX as int)
    }
}

/// What the second row of the throbber says of the calls behind the first.
pub open spec fn siblings_text(named: Seq<CallV>) -> Seq<char> {
    let rest = named.skip(1);
    "  +"@ + dec(rest.len()) + " more: "@ + joined(call_names(rest), ", "@) + "  ("@ + format_bytes(
        call_bytes(rest, rest.len() as int),
    ) + ")"@
}

/// The two rows of the throbber.
pub open spec fn throbber_rows(p: PanelV, t: ThrobberV, now: u64) -> Seq<RowV> {
    let named = named_calls(p.tools.calls, p.tools.calls.len() as int);
    seq![
        rv(seq![t.glyph, sv(throbber_text(p, now), colored(Color::DarkGray))]),
        rv(
            if !p.stream.reasoningActive && named.len() > 1 {
                t.second.push(sv(siblings_text(named), colored(Color::DarkGray)))
            } else {
                t.second
            },
        ),
    ]
}

/// Whether the throbber is shown before the streamed message.
pub open spec fn shows_throbber(s: StreamV) -> bool {
    s.reasoningActive || (s.content.len() == 0 && s.pending.len() == 0 && s.reasoning.len() == 0)
}

/// The page with what comes before the content of the streamed message: the
/// throbber, or the header of its reasoning, and the reasoning where it is shown.
pub open spec fn thinking_page(p: PanelV, q: PageV, t: ThrobberV, width: int, now: u64) -> PageV {
    let s = p.stream;
    let head = if shows_throbber(s) {
        q.with_rows(throbber_rows(p, t, now))
    } else if s.reasoning.len() > 0 {
        q.with_row(reasoning_header(s.thinkingExpanded))
    } else {
        q
    };
    let body = if s.thinkingExpanded && s.reasoning.len() > 0 {
        head.with_rows(indented_rows(s.reasoning, reasoningStyle(), width))
    } else {
        head
    };
    if shows_throbber(s) || s.reasoning.len() > 0 {
        body.with_row(rv(Seq::empty()))
    } else {
        body
    }
}

/// The page with the content of the streamed message, its last character faded.
pub open spec fn content_page(
    p: PanelV,
    q: PageV,
    b: Seq<BlockView>,
    width: int,
    now: u64,
) -> PageV {
    let s = p.stream;
    if s.drawn().len() == 0 {
        q
    } else {
        let r = block_page(p, q, b, "\u{25C6} "@, Color::White, STREAMING, width, now);
        if s.pending.len() > 0 && s.fade < FULL_FADE {
            PageV { rows: faded_rows(r.rows, q.rows.len() as int, s.fade as int), ..r }
        } else {
            r
        }
    }
}

/// The rows of a tool call that streams in.
pub open spec fn call_rows(c: CallV, secs: nat) -> Seq<RowV> {
    seq![
        rv(seq![sv("\u{25C6} "@ + preparing_text(c, secs), colored(Color::DarkGray))]),
    ] + (match c.preview {
        Some(v) => seq![
            rv(
                seq![
                    sv(
                        "    \u{2192} "@ + v,
                        colored(Color::DarkGray).italic(),
                    ),
                ],
            ),
        ],
        None => Seq::empty(),
    })
}

/// The rows of the first `n` tool calls that stream in.
pub open spec fn calls_rows(c: Seq<CallV>, n: int, secs: nat) -> Seq<RowV>
    decreases n,
{
    if n <= 0 {
        Seq::empty()
    } else {
        calls_rows(c, n - 1, secs) + call_rows(c[n - 1], secs)
    }
}

/// The page with the tool calls that stream in. They wait until the content is
/// revealed, and are not shown below the throbber, which names them itself.
pub open spec fn calls_page(p: PanelV, q: PageV, now: u64) -> PageV {
    let s = p.stream;
    let named = named_calls(p.tools.calls, p.tools.calls.len() as int);
    if !shows_throbber(s) && s.pending.len() == 0 && s.fade >= FULL_FADE {
        q.with_rows(
            calls_rows(named, named.len() as int, seconds_since(p.tools.callsStart, now)),
        )
    } else {
        q
    }
}

/// The page with the streamed message.
pub open spec fn stream_page(
    p: PanelV,
    q: PageV,
    b: Seq<BlockView>,
    t: ThrobberV,
    width: int,
    now: u64,
) -> PageV {
    if !p.stream.isStreaming {
        q
    } else {
        calls_page(p, content_page(p, thinking_page(p, q, t, width, now), b, width, now), now)
    }
}

impl PendingToolCall {
    fn copy(&self) -> (r: PendingToolCall)
        ensures
            r@ == self@,
    {
        let preview: Option<String> = match &self.preview {
            Some(s) => Some(s.clone()),
            None => None,
        };
        PendingToolCall { name: self.name.clone(), bytes: self.bytes, preview }
    }
}

impl AgentPanel {
    fn namedCalls(&self) -> (r: Vec<PendingToolCall>)
        ensures
            call_views(r@) == named_calls(self@.tools.calls, self@.tools.calls.len() as int),
    {
        let ghost c = self@.tools.calls;
        let mut out: Vec<PendingToolCall> = Vec::new();
        let mut i: usize = 0;
        proof {
            assert(call_views(out@) =~= named_calls(c, 0));
        }
        while i < self.tools.calls.len()
            invariant
                i <= self.tools.calls@.len(),
                c == call_views(self.tools.calls@),
                call_views(out@) == named_calls(c, i as int),
            decreases self.tools.calls@.len() - i,
        {
            proof {
                assert(c[i as int] == self.tools.calls@[i as int]@);
            }
            if self.tools.calls[i].name.as_str().unicode_len() > 0 {
                let ghost before = call_views(out@);
                let k = self.tools.calls[i].copy();
                out.push(k);
                proof {
                    assert(call_views(out@) =~= before.push(k@));
                }
            }
            i = i + 1;
        }
        out
    }

    fn throbberText(&self, named: &Vec<PendingToolCall>, now: u64) -> (r: String)
        requires
            call_views(named@) == named_calls(self@.tools.calls, self@.tools.calls.len() as int),
        ensures
            r@ == throbber_text(self@, now),
    {
        proof {
            assert(call_views(named@).len() == named@.len());
            if named@.len() > 0 {
                assert(call_views(named@)[0] == named@[0]@);
            }
        }
        match &self.stream.retryStatus {
            Some(status) => {
                let mut s = String::from_str(" ");
                s.append(status.as_str());
                return s;
            },
            None => {},
        }
        if !self.stream.reasoningActive && named.len() > 0 {
            let mut s = String::from_str(" ");
            s.append(
                preparingText(&named[0], secondsSince(self.tools.callsStart, now)).as_str(),
            );
            match &named[0].preview {
                Some(v) => {
                    let mut tail = String::from_str("  \u{2192} ");
                    tail.append(v.as_str());
                    s.append(tail.as_str());
                },
                None => {
                    proof {
                        assert(s@ + Seq::<char>::empty() =~= s@);
                    }
                },
            }
            return s;
        }
        let mut s = String::from_str(" thinking (");
        s.append(decimal(secondsSince(self.stream.thinkingStart, now)).as_str());
        if self.stream.reasoning.as_str().unicode_len() > 0 {
            s.append("s)  ");
            if self.stream.thinkingExpanded {
                s.append("\u{25BE}");
            } else {
                s.append("\u{25B8}");
            }
        } else {
            s.append("s)");
        }
        s
    }

    fn pushThrobber(
        &self,
        page: &mut Page,
        named: &Vec<PendingToolCall>,
        t: &Throbber,
        now: u64,
    )
        requires
            call_views(named@) == named_calls(self@.tools.calls, self@.tools.calls.len() as int),
        ensures
            final(page)@ == old(page)@.with_rows(throbber_rows(self@, t@, now)),
    {
        let text = self.throbberText(named, now);
        page.push(lineOf2(copySpan(&t.glyph), spanOf(text, colored(Color::DarkGray))), false);
        let mut second = copyLine(&t.second);
        proof {
            assert(call_views(named@).len() == named@.len());
            assert(span_views(second.spans@) =~= t@.second);
        }
        if !self.stream.reasoningActive && named.len() > 1 {
            let s = siblingsText(named);
            addSpan(&mut second.spans, spanOf(s, colored(Color::DarkGray)));
        }
        page.push(second, false);
        proof {
            assert(page@.rows =~= old(page)@.rows + throbber_rows(self@, t@, now));
        }
    }

    fn pushThinking(
        &self,
        page: &mut Page,
        named: &Vec<PendingToolCall>,
        t: &Throbber,
        width: u16,
        now: u64,
    )
        requires
            call_views(named@) == named_calls(self@.tools.calls, self@.tools.calls.len() as int),
        ensures
            final(page)@ == thinking_page(self@, old(page)@, t@, width as int, now),
    {
        let throbs = self.showsThrobber();
        let reasoned = self.stream.reasoning.as_str().unicode_len() > 0;
        if throbs {
            self.pushThrobber(page, named, t, now);
        } else if reasoned {
            pushReasoningHeader(page, self.stream.thinkingExpanded);
        }
        if self.stream.thinkingExpanded && reasoned {
            pushIndented(page, self.stream.reasoning.as_str(), reasoningStyle(), width);
        }
        if throbs || reasoned {
            page.push(emptyLine(), false);
        }
    }

    fn showsThrobber(&self) -> (r: bool)
        ensures
            r == shows_throbber(self@.stream),
    {
        self.stream.reasoningActive || (self.stream.content.as_str().unicode_len() == 0
            && self.stream.pending.as_str().unicode_len() == 0
            && self.stream.reasoning.as_str().unicode_len() == 0)
    }

    fn pushContent(&self, page: &mut Page, blocks: &Vec<Block>, width: u16, now: u64)
        ensures
            final(page)@ == content_page(
                self@,
                old(page)@,
                block_views(blocks@),
                width as int,
                now,
            ),
    {
        if self.displayContent().as_str().unicode_len() == 0 {
            return;
        }
        let from: usize = page.height();
        self.pushBlocks(page, blocks, "\u{25C6} ", Color::White, STREAMING, width, now);
        if self.stream.pending.as_str().unicode_len() > 0 && self.stream.fade < FULL_FADE {
            applyFadeToLastChar(page, from, self.stream.fade as u32);
        }
    }

    fn pushCalls(&self, page: &mut Page, named: &Vec<PendingToolCall>, now: u64)
        requires
            call_views(named@) == named_calls(self@.tools.calls, self@.tools.calls.len() as int),
        ensures
            final(page)@ == calls_page(self@, old(page)@, now),
    {
        if self.showsThrobber() || self.stream.pending.as_str().unicode_len() > 0
            || self.stream.fade < FULL_FADE {
            return;
        }
        let secs: u64 = secondsSince(self.tools.callsStart, now);
        let ghost c = call_views(named@);
        let mut i: usize = 0;
        proof {
            assert(page@.rows =~= old(page)@.rows + calls_rows(c, 0, secs as nat));
        }
        while i < named.len()
            invariant
                i <= named@.len(),
                c == call_views(named@),
                page@ == old(page)@.with_rows(calls_rows(c, i as int, secs as nat)),
            decreases named@.len() - i,
        {
            proof {
                assert(c[i as int] == named@[i as int]@);
            }
            let mut s = String::from_str("\u{25C6} ");
            s.append(preparingText(&named[i], secs).as_str());
            page.push(lineOf(spanOf(s, colored(Color::DarkGray))), false);
            match &named[i].preview {
                Some(v) => {
                    let mut a = String::from_str("    \u{2192} ");
                    a.append(v.as_str());
                    page.push(
                        lineOf(spanOf(a, colored(Color::DarkGray).italic())),
                        false,
                    );
                },
                None => {},
            }
            proof {
                assert(page@.rows =~= old(page)@.rows + calls_rows(c, i + 1, secs as nat));
            }
            i = i + 1;
        }
    }

    /// Adds the streamed message. `blocks` are the blocks of what is drawn of it.
    pub fn renderStream(
        &self,
        page: &mut Page,
        blocks: &Vec<Block>,
        t: &Throbber,
        width: u16,
        now: u64,
    )
        ensures
            final(page)@ == stream_page(
                self@,
                old(page)@,
                block_views(blocks@),
                t@,
                width as int,
                now,
            ),
    {
        if !self.stream.isStreaming {
            return;
        }
        let named = self.namedCalls();
        self.pushThinking(page, &named, t, width, now);
        self.pushContent(page, blocks, width, now);
        self.pushCalls(page, &named, now);
    }
}

fn siblingsText(named: &Vec<PendingToolCall>) -> (r: String)
    requires
        named@.len() > 1,
    ensures
        r@ == siblings_text(call_views(named@)),
{
    let ghost c = call_views(named@);
    let ghost rest = c.skip(1);
    let mut names: Vec<String> = Vec::new();
    let mut bytes: usize = 0;
    let mut i: usize = 1;
    proof {
        assert(texts(names@) =~= call_names(rest).take(0));
    }
    while i < named.len()
        invariant
            1 <= i <= named@.len(),
            c == call_views(named@),
            rest == c.skip(1),
            texts(names@) == call_names(rest).take(i - 1),
            bytes == call_bytes(rest, i - 1),
        decreases named@.len() - i,
    {
        let ghost before = texts(names@);
        names.push(named[i].name.clone());
        bytes = bytes.saturating_add(named[i].bytes);
        proof {
            assert(rest[i - 1] == named@[i as int]@);
            assert(texts(names@) =~= before.push(named@[i as int].name@));
            assert(texts(names@) =~= call_names(rest).take(i as int));
        }
        i = i + 1;
    }
    proof {
        assert(call_names(rest).take(rest.len() as int) =~= call_names(rest));
    }
    let mut s = String::from_str("  +");
    s.append(decimal((named.len() - 1) as u64).as_str());
    s.append(" more: ");
    s.append(joinWith(&names, ", ").as_str());
    s.append("  (");
    s.append(formatBytes(bytes as u64).as_str());
    s.append(")");
    s
}

// ---- the whole ----

/// The conversation as it is built: the page, the reasoning headers on it and the
/// rows that are not copied.
#[verifier::ext_equal]
pub ghost struct BuiltV {
    pub page: PageV,
    pub headers: Seq<(Option<usize>, usize)>,
    pub notCopied: Seq<usize>,
}

/// The conversation as it is built.
pub struct Built {
    pub page: Page,
    pub headers: Vec<(Option<usize>, usize)>,
    pub notCopied: Vec<usize>,
}

impl View for Built {
    type V = BuiltV;

    open spec fn view(&self) -> BuiltV {
        BuiltV { page: self.page@, headers: self.headers@, notCopied: self.notCopied@ }
    }
}

/// The input of the entry `i`; where there is none, one without blocks.
pub open spec fn input_at(v: Seq<InputV>, i: int) -> InputV {
    if i < v.len() {
        v[i]
    } else {
        InputV { blocks: Seq::empty() }
    }
}

/// The numbers `from` to `to`.
pub open spec fn numbers(from: int, to: int) -> Seq<usize> {
    Seq::new(minus(to, from) as nat, |i: int| (from + i) as usize)
}

/// The first `n` entries, each with an empty row behind it.
pub open spec fn built_entries(
    p: PanelV,
    inp: Seq<InputV>,
    t: ThrobberV,
    width: int,
    now: u64,
    n: int,
) -> BuiltV
    decreases n,
{
    if n <= 0 {
        BuiltV {
            page: PageV {
                rows: Seq::empty(),
                ranges: Seq::empty(),
                header: None,
                toggle: None,
            },
            headers: Seq::empty(),
            notCopied: Seq::empty(),
        }
    } else {
        let b = built_entries(p, inp, t, width, now, n - 1);
        let e = p.entries[n - 1];
        let at = b.page.rows.len() as int;
        let q = entry_page(p, b.page, n - 1, input_at(inp, n - 1), t, width, now);
        BuiltV {
            page: q.with_row(rv(Seq::empty())),
            headers: if e is Reasoning {
                b.headers.push((Some((n - 1) as usize), at as usize))
            } else {
                b.headers
            },
            notCopied: if e is SessionNotice || e is CompactionMarker {
                b.notCopied + numbers(at, q.rows.len() as int)
            } else {
                b.notCopied
            },
        }
    }
}

/// The whole conversation. `blocks` are the blocks of the streamed message.
pub open spec fn built(
    p: PanelV,
    inp: Seq<InputV>,
    blocks: Seq<BlockView>,
    t: ThrobberV,
    width: int,
    now: u64,
) -> BuiltV {
    let b = built_entries(p, inp, t, width, now, p.entries.len() as int);
    BuiltV {
        page: stream_page(p, b.page, blocks, t, width, now),
        headers: if p.stream.isStreaming && p.stream.reasoning.len() > 0 {
            b.headers.push((None, b.page.rows.len() as usize))
        } else {
            b.headers
        },
        notCopied: b.notCopied,
    }
}

impl AgentPanel {
    /// Builds the visual lines of the conversation.
    pub fn buildLines(
        &self,
        inputs: &Vec<EntryInput>,
        blocks: &Vec<Block>,
        t: &Throbber,
        width: u16,
        now: u64,
    ) -> (r: Built)
        ensures
            r@ == built(
                self@,
                input_views(inputs@),
                block_views(blocks@),
                t@,
                width as int,
                now,
            ),
    {
        let ghost p = self@;
        let ghost inp = input_views(inputs@);
        let none = EntryInput { blocks: Vec::new() };
        proof {
            assert(none@.blocks =~= Seq::empty());
        }
        let mut b = Built { page: Page::new(), headers: Vec::new(), notCopied: Vec::new() };
        let mut i: usize = 0;
        proof {
            assert(b@ =~= built_entries(p, inp, t@, width as int, now, 0));
        }
        while i < self.entries.len()
            invariant
                i <= self.entries@.len(),
                p == self@,
                inp == input_views(inputs@),
                none@ == (InputV { blocks: Seq::empty() }),
                b@ == built_entries(p, inp, t@, width as int, now, i as int),
            decreases self.entries@.len() - i,
        {
            let at: usize = b.page.height();
            let ghost was = b@;
            proof {
                assert(p.entries[i as int] == self.entries@[i as int]@);
            }
            let mut notice = false;
            match &self.entries[i] {
                PanelEntry::Reasoning { .. } => {
                    b.headers.push((Some(i), at));
                },
                PanelEntry::SessionNotice(_) => {
                    notice = true;
                },
                PanelEntry::CompactionMarker { .. } => {
                    notice = true;
                },
                _ => {},
            }
            let input: &EntryInput = if i < inputs.len() {
                &inputs[i]
            } else {
                &none
            };
            proof {
                assert(input@ == input_at(inp, i as int));
            }
            self.renderEntry(&mut b.page, i, input, t, width, now);
            if notice {
                let end: usize = b.page.height();
                addNumbers(&mut b.notCopied, at, end);
            }
            b.page.push(emptyLine(), false);
            proof {
                assert(b@ =~= built_entries(p, inp, t@, width as int, now, i + 1));
            }
            i = i + 1;
        }
        if self.stream.isStreaming && self.stream.reasoning.as_str().unicode_len() > 0 {
            b.headers.push((None, b.page.height()));
        }
        self.renderStream(&mut b.page, blocks, t, width, now);
        proof {
            assert(b@ =~= built(p, inp, block_views(blocks@), t@, width as int, now));
        }
        b
    }
}

fn addNumbers(v: &mut Vec<usize>, from: usize, to: usize)
    ensures
        final(v)@ == old(v)@ + numbers(from as int, to as int),
{
    let mut i: usize = from;
    proof {
        if from <= to {
            assert(v@ =~= old(v)@ + numbers(from as int, from as int));
        } else {
            assert(v@ =~= old(v)@ + numbers(from as int, to as int));
        }
    }
    while i < to
        invariant
            from <= i,
            from <= to ==> i <= to,
            from <= to ==> v@ == old(v)@ + numbers(from as int, i as int),
            from > to ==> v@ == old(v)@ + numbers(from as int, to as int),
        decreases to - i,
    {
        v.push(i);
        proof {
            assert(v@ =~= old(v)@ + numbers(from as int, i + 1));
        }
        i = i + 1;
    }
}

} // verus!
