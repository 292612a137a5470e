//! Scrolling, hit tests on what was drawn, and the animations.

use vstd::prelude::*;
use vstd::string::*;
use crate::agent_panel::blocks::{
    BlockId, MAX_CODE_BLOCK_LINES, RangeV, block_at, block_named, blockAt, blockNamed, range_views,
    scroll_block, scrollBlock,
};
use crate::agent_panel::entry::{
    EntryV, PanelEntry, entry_views, findLastReasoning, last_reasoning, toggleReasoning,
    with_reasoning_toggled,
};
use crate::agent_panel::state::{
    AgentPanel, CodeV, FULL_FADE, PanelV, Scroll, StreamV, Ticks,
};
use crate::draw::{Style, lineOf, line_views, max, min, minus, span, sv};
use crate::text::{decimal, dec, lines_of, linesOf, opt_text, texts};
use crate::wrap::{wrapSpannedLine, wrap_line};

verus! {

/// How long content is buffered before it is revealed, in milliseconds.
pub const SPOOL_DELAY: u64 = 150;

/// The time between two steps of the throbber, in milliseconds.
pub const THROBBER_STEP: u64 = 125;

// ---- scrolling ----

impl PanelV {
    /// The visual line that stands at a line of the screen, which is counted from
    /// the bottom of the conversation.
    pub open spec fn line_at(self, grid: int) -> int {
        grid + self.scroll.offset + self.scroll.lastY
    }

    /// The title of the panel, with what there is below when it is scrolled up.
    pub open spec fn title(self) -> Seq<char> {
        if self.scroll.offset == 0 {
            " agent "@
        } else if self.scroll.newContent {
            " agent [\u{2193} new] "@
        } else if self.scroll.idle && !self.turnActive {
            " agent [\u{22EF} waiting] "@
        } else {
            " agent [\u{2191}"@ + dec(self.scroll.offset as nat) + "] "@
        }
    }
}

/// The scroll after `n` lines appeared above what is shown (or went, where
/// `!more`), so that what is shown stays in place.
pub open spec fn shifted(s: Scroll, n: int, more: bool) -> Scroll {
    if more {
        Scroll {
            offset: min(s.offset + n, u16::MAX as int) as u16,
            maxScroll: min(s.maxScroll + n, u16::MAX as int) as u16,
            ..s
        }
    } else {
        Scroll {
            offset: minus(s.offset as int, n) as u16,
            maxScroll: minus(s.maxScroll as int, n) as u16,
            ..s
        }
    }
}

impl AgentPanel {
    /// The title of the panel.
    pub fn agentTitle(&self) -> (r: String)
        ensures
            r@ == self@.title(),
    {
        if self.scroll.offset == 0 {
            String::from_str(" agent ")
        } else if self.scroll.newContent {
            String::from_str(" agent [\u{2193} new] ")
        } else if self.scroll.idle && !self.turnActive {
            String::from_str(" agent [\u{22EF} waiting] ")
        } else {
            let mut s = String::from_str(" agent [\u{2191}");
            s.append(decimal(self.scroll.offset as u64).as_str());
            s.append("] ");
            s
        }
    }

    /// Scrolls towards the top.
    pub fn scrollUp(&mut self, amount: u16)
        ensures
            final(self)@ == old(self)@.scrolled_up(amount as int),
    {
        self.scroll.offset = self.scroll.offset.saturating_add(amount);
    }

    /// Scrolls towards the bottom.
    pub fn scrollDown(&mut self, amount: u16)
        ensures
            final(self)@ == old(self)@.scrolled_down(amount as int),
    {
        self.scroll.offset = self.scroll.offset.saturating_sub(amount);
    }

    /// Visual lines from the bottom.
    pub fn displayOffset(&self) -> (r: u16)
        ensures
            r == self@.scroll.offset,
    {
        self.scroll.offset
    }

    fn lineAt(&self, gridLine: i32) -> (r: i64)
        ensures
            r == self@.line_at(gridLine as int),
    {
        gridLine as i64 + self.scroll.offset as i64 + self.scroll.lastY as i64
    }

    fn shift(&mut self, n: u16, more: bool)
        ensures
            final(self)@ == (PanelV {
                scroll: shifted(old(self)@.scroll, n as int, more),
                ..old(self)@
            }),
    {
        if more {
            self.scroll.offset = self.scroll.offset.saturating_add(n);
            self.scroll.maxScroll = self.scroll.maxScroll.saturating_add(n);
        } else {
            self.scroll.offset = self.scroll.offset.saturating_sub(n);
            self.scroll.maxScroll = self.scroll.maxScroll.saturating_sub(n);
        }
    }

    // ---- code blocks ----

    /// Scrolls a code block sideways. A block that was not drawn stays as it is.
    pub fn scrollCodeBlockH(&mut self, blockId: BlockId, delta: i16)
        ensures
            final(self)@ == old(self)@.code_scrolled(blockId, delta as int),
    {
        match blockNamed(&self.shown.blocks, blockId) {
            Some(i) => {
                proof {
                    assert(self@.shown.blocks[i as int] == self.shown.blocks@[i as int]@);
                }
                scrollBlock(&mut self.code.scrollX, &self.shown.blocks[i], delta);
            },
            None => {},
        }
    }

    /// The code block at a line of the screen.
    pub fn codeBlockAtGridLine(&self, gridLine: i32) -> (r: Option<BlockId>)
        ensures
            r == (match block_at(self@.shown.blocks, self@.line_at(gridLine as int), 0) {
                Some(i) => Some(self@.shown.blocks[i].blockId),
                None => None,
            }),
    {
        let line: i64 = self.lineAt(gridLine);
        match blockAt(&self.shown.blocks, line) {
            Some(i) => {
                proof {
                    assert(self@.shown.blocks[i as int] == self.shown.blocks@[i as int]@);
                }
                Some(self.shown.blocks[i].blockId)
            },
            None => None,
        }
    }

    /// The code to copy where the "copy" label of a block stands at a place of the
    /// screen. `col` does not count the prefix of two columns.
    pub fn tryCopyCodeBlock(&mut self, gridLine: i32, col: u16, now: u64) -> (r: Option<String>)
        ensures
            match copy_hit(old(self)@.shown.blocks, old(self)@.line_at(gridLine as int), col as int, 0) {
                Some(i) => opt_text(r) == Some(old(self)@.shown.blocks[i].rawCode) && final(self)@
                    == (PanelV {
                    code: CodeV {
                        copiedFlash: Some((old(self)@.shown.blocks[i].blockId, now)),
                        ..old(self)@.code
                    },
                    ..old(self)@
                }),
                None => r is None && final(self)@ == old(self)@,
            },
    {
        let line: i64 = self.lineAt(gridLine);
        let ghost rv = self@.shown.blocks;
        let ghost at = self@.line_at(gridLine as int);
        let mut i: usize = 0;
        while i < self.shown.blocks.len()
            invariant
                i <= self.shown.blocks@.len(),
                *self == *old(self),
                rv == range_views(self.shown.blocks@),
                line == at,
                at == old(self)@.line_at(gridLine as int),
                copy_hit(rv, at, col as int, 0) == copy_hit(rv, at, col as int, i as int),
            decreases self.shown.blocks@.len() - i,
        {
            proof {
                assert(rv[i as int] == self.shown.blocks@[i as int]@);
            }
            let start: usize = self.shown.blocks[i].startLine;
            let label: u16 = self.shown.blocks[i].copyLabelCol;
            if line >= 0 && line as u64 == start as u64 && col as u32 + 2 >= label as u32 {
                let code = self.shown.blocks[i].rawCode.clone();
                let id: BlockId = self.shown.blocks[i].blockId;
                self.code.copiedFlash = Some((id, now));
                return Some(code);
            }
            i = i + 1;
        }
        None
    }

    /// Expands a collapsed code block whose top border stands at a line of the
    /// screen, or collapses an expanded one whose border does. The scroll follows,
    /// so that the border stays where it is. Returns whether there was one.
    pub fn tryToggleCodeBlock(&mut self, gridLine: i32) -> (r: bool)
        ensures
            match toggle_hit(
                old(self)@.shown.blocks,
                old(self)@.code.expanded,
                old(self)@.line_at(gridLine as int),
                0,
            ) {
                Some(i) => r && final(self)@ == old(self)@.code_toggled(old(self)@.shown.blocks[i]),
                None => !r && final(self)@ == old(self)@,
            },
    {
        let line: i64 = self.lineAt(gridLine);
        let ghost rv = self@.shown.blocks;
        let ghost ex = self@.code.expanded;
        let ghost at = self@.line_at(gridLine as int);
        let mut i: usize = 0;
        while i < self.shown.blocks.len()
            invariant
                i <= self.shown.blocks@.len(),
                *self == *old(self),
                rv == range_views(self.shown.blocks@),
                ex == self@.code.expanded,
                line == at,
                at == old(self)@.line_at(gridLine as int),
                toggle_hit(rv, ex, at, 0) == toggle_hit(rv, ex, at, i as int),
            decreases self.shown.blocks@.len() - i,
        {
            proof {
                assert(rv[i as int] == self.shown.blocks@[i as int]@);
            }
            let id: BlockId = self.shown.blocks[i].blockId;
            let total: usize = self.shown.blocks[i].totalLines;
            let start: usize = self.shown.blocks[i].startLine;
            let end: usize = self.shown.blocks[i].endLine;
            let expanded = self.code.expanded.contains(id);
            let top = line >= 0 && line as u64 == start as u64;
            let bottom = line >= 0 && line as u64 == end as u64;
            if self.shown.blocks[i].collapsible && (top || (expanded && bottom)) {
                let hidden: u16 = (total.saturating_sub(MAX_CODE_BLOCK_LINES) % 65536) as u16;
                if expanded {
                    self.code.expanded.remove(id);
                } else {
                    self.code.expanded.insert(id);
                }
                self.shift(hidden, !expanded);
                return true;
            }
            i = i + 1;
        }
        false
    }

    // ---- subagent blocks ----

    /// Shows or hides the content of the subagent block whose border stands at a
    /// line of the screen. Returns whether there was one.
    pub fn tryToggleSubagentContent(&mut self, gridLine: i32) -> (r: bool)
        ensures
            r == (old(self)@.shown.subagentToggle matches Some(t) && t.0 == old(self)@.line_at(
                gridLine as int,
            )),
            final(self)@ == (if r {
                old(self)@.block_toggled((old(self)@.shown.subagentToggle->0).1 as int)
            } else {
                old(self)@
            }),
    {
        let line: i64 = self.lineAt(gridLine);
        match self.shown.subagentToggle {
            Some(t) => {
                if line >= 0 && line as u64 == t.0 as u64 {
                    self.toggleSubagentContent(t.1);
                    return true;
                }
            },
            None => {},
        }
        false
    }

    /// Whether a subagent header stands at a line of the screen.
    pub fn isSubagentHeaderLine(&self, gridLine: i32) -> (r: bool)
        ensures
            r == (self@.shown.subagentHeader matches Some(h) && h == self@.line_at(
                gridLine as int,
            )),
    {
        let line: i64 = self.lineAt(gridLine);
        match self.shown.subagentHeader {
            Some(h) => line >= 0 && line as u64 == h as u64,
            None => false,
        }
    }

    // ---- reasoning ----

    /// Shows or hides the latest reasoning, streaming or finished.
    pub fn toggleThinking(&mut self)
        ensures
            final(self)@ == old(self)@.thinking_toggled(),
    {
        if self.stream.isStreaming && self.stream.reasoning.as_str().unicode_len() > 0 {
            self.stream.thinkingExpanded = !self.stream.thinkingExpanded;
        } else {
            match findLastReasoning(&self.entries) {
                Some(i) => {
                    let _ = toggleReasoning(&mut self.entries, i);
                },
                None => {},
            }
        }
    }

    /// Shows or hides the reasoning whose header stands at a line of the screen.
    /// Where the conversation is scrolled up, it follows, so that the header stays
    /// where it is. Returns whether there was one.
    pub fn toggleReasoningAtGridLine(&mut self, gridLine: i32) -> (r: bool)
        ensures
            match header_hit(
                old(self)@.shown.reasoningHeaders,
                old(self)@.line_at(gridLine as int),
                0,
            ) {
                Some(i) => r && final(self)@ == old(self)@.reasoning_toggled(
                    old(self)@.shown.reasoningHeaders[i].0,
                ),
                None => !r && final(self)@ == old(self)@,
            },
    {
        let line: i64 = self.lineAt(gridLine);
        let ghost h = self.shown.reasoningHeaders@;
        let ghost at = self@.line_at(gridLine as int);
        let mut i: usize = 0;
        while i < self.shown.reasoningHeaders.len()
            invariant
                i <= self.shown.reasoningHeaders@.len(),
                *self == *old(self),
                h == self.shown.reasoningHeaders@,
                line == at,
                at == old(self)@.line_at(gridLine as int),
                header_hit(h, at, 0) == header_hit(h, at, i as int),
            decreases self.shown.reasoningHeaders@.len() - i,
        {
            let entry: Option<usize> = self.shown.reasoningHeaders[i].0;
            let header: usize = self.shown.reasoningHeaders[i].1;
            if line >= 0 && line as u64 == header as u64 {
                self.toggleReasoningOf(entry);
                return true;
            }
            i = i + 1;
        }
        false
    }

    fn toggleReasoningOf(&mut self, entry: Option<usize>)
        ensures
            final(self)@ == old(self)@.reasoning_toggled(entry),
    {
        let w: u16 = if self.scroll.chatWidth == 0 {
            1
        } else {
            self.scroll.chatWidth
        };
        match entry {
            Some(k) => {
                if k >= self.entries.len() {
                    return;
                }
                let ghost e = self@.entries;
                proof {
                    assert(e[k as int] == self.entries@[k as int]@);
                }
                let mut delta: u16 = 0;
                let mut is = false;
                match &self.entries[k] {
                    PanelEntry::Reasoning { text, .. } => {
                        is = true;
                        delta = countReasoningLines(text.as_str(), w);
                    },
                    _ => {},
                }
                if is {
                    let shown = toggleReasoning(&mut self.entries, k);
                    if self.scroll.offset > 0 {
                        self.shift(delta, shown);
                    }
                }
            },
            None => {
                let delta: u16 = countReasoningLines(self.stream.reasoning.as_str(), w);
                self.stream.thinkingExpanded = !self.stream.thinkingExpanded;
                if self.scroll.offset > 0 {
                    let shown = self.stream.thinkingExpanded;
                    self.shift(delta, shown);
                }
            },
        }
    }

    // ---- animations ----

    /// Whether the throbber steps now. It does so while the panel waits for the
    /// model, a tool or a subagent.
    pub fn tickThrobber(&mut self, now: u64) -> (r: bool)
        ensures
            r == (old(self)@.waiting() && now >= old(self)@.ticks.throbber + THROBBER_STEP),
            final(self)@ == (if r {
                PanelV { ticks: Ticks { throbber: now, ..old(self)@.ticks }, ..old(self)@ }
            } else {
                old(self)@
            }),
    {
        proof {
            assert(self@.subs.active.len() == self.subs.active@.len());
            assert(self@.tools.calls.len() == self.tools.calls@.len());
        }
        let silent = self.stream.isStreaming && self.stream.content.as_str().unicode_len() == 0
            && self.stream.pending.as_str().unicode_len() == 0
            && self.stream.reasoning.as_str().unicode_len() == 0;
        let waits = silent || self.stream.reasoningActive || self.tools.active
            || self.subs.active.len() > 0 || self.tools.calls.len() > 0;
        if waits && now.saturating_sub(self.ticks.throbber) >= THROBBER_STEP {
            self.ticks.throbber = now;
            true
        } else {
            false
        }
    }

    /// Whether the countdowns of wake receipts are drawn anew now: once a second
    /// while there is one.
    pub fn tickWakeSchedules(&mut self, now: u64) -> (r: bool)
        ensures
            r == (has_countdown(old(self)@.entries) && now >= old(self)@.ticks.wakeSchedules
                + 1000),
            final(self)@ == (if r {
                PanelV { ticks: Ticks { wakeSchedules: now, ..old(self)@.ticks }, ..old(self)@ }
            } else {
                old(self)@
            }),
    {
        let ghost e = self@.entries;
        let mut found = false;
        let mut i: usize = 0;
        while i < self.entries.len() && !found
            invariant
                i <= self.entries@.len(),
                *self == *old(self),
                e == entry_views(self.entries@),
                found ==> has_countdown(e),
                !found ==> forall|j: int| 0 <= j < i ==> !counts_down(#[trigger] e[j]),
            decreases self.entries@.len() - i,
        {
            proof {
                assert(e[i as int] == self.entries@[i as int]@);
            }
            match &self.entries[i] {
                PanelEntry::WakeSchedule { armed, nextFireAt, .. } => {
                    if *armed && nextFireAt.is_some() {
                        proof {
                            assert(counts_down(e[i as int]));
                        }
                        found = true;
                    }
                },
                _ => {},
            }
            i = i + 1;
        }
        if found && now.saturating_sub(self.ticks.wakeSchedules) >= 1000 {
            self.ticks.wakeSchedules = now;
            true
        } else {
            false
        }
    }

    /// Reveals the characters that are due. Returns whether anything changed.
    pub fn tickReveal(&mut self, now: u64) -> (r: bool)
        ensures
            (final(self)@, r) == old(self)@.revealed(now),
    {
        let empty = self.stream.pending.as_str().unicode_len() == 0;
        if empty && self.stream.fade >= FULL_FADE {
            if self.stream.deferredFinalize {
                self.doFinalize();
                return true;
            }
            return false;
        }
        let start: u64 = match self.stream.revealStart {
            Some(start) => {
                if now.saturating_sub(start) < SPOOL_DELAY {
                    return false;
                }
                start
            },
            None => now,
        };
        let passed: u64 = now.saturating_sub(self.stream.lastRevealTick);
        let elapsed: u64 = if passed < 50 {
            passed
        } else {
            50
        };
        self.stream.lastRevealTick = now;
        let end: u64 = if self.stream.deferredFinalize {
            self.stream.lastReceiveTime
        } else {
            now
        };
        let whole: u64 = end.saturating_sub(start);
        let span: u64 = if whole > 100 {
            whole
        } else {
            100
        };
        proof {
            let total = self.stream.totalChars as int;
            assert(0 <= elapsed as int * total <= 50 * total) by (nonlinear_arith)
                requires
                    elapsed <= 50,
                    total >= 0,
            ;
            let n = elapsed as int * total * 1_000_000;
            assert(0 <= n / (span as int) <= n) by (nonlinear_arith)
                requires
                    span >= 1,
                    n >= 0,
            ;
        }
        let arrived: u128 = elapsed as u128 * self.stream.totalChars as u128 * 1_000_000
            / span as u128;
        let least: u128 = elapsed as u128 * 15_000;
        let step: u128 = if arrived > least {
            arrived
        } else {
            least
        };
        let fade: u128 = self.stream.fade.saturating_add(step);
        let due: u128 = fade / FULL_FADE;
        let n: usize = self.stream.pending.as_str().unicode_len();
        let k: usize = if due < n as u128 {
            due as usize
        } else {
            n
        };
        let ghost pending = self.stream.pending@;
        let head = String::from_str(self.stream.pending.as_str().substring_char(0, k));
        let tail = String::from_str(self.stream.pending.as_str().substring_char(k, n));
        proof {
            assert(head@ =~= pending.take(k as int));
            assert(tail@ =~= pending.skip(k as int));
        }
        self.stream.content.append(head.as_str());
        self.stream.pending = tail;
        let left: u128 = fade - k as u128 * FULL_FADE;
        self.stream.fade = if k == n && left < FULL_FADE {
            FULL_FADE
        } else {
            left
        };
        true
    }

    /// The part of the streamed message that is drawn: what was revealed, and the
    /// character that fades in.
    pub fn displayContent(&self) -> (r: String)
        ensures
            r@ == self@.stream.drawn(),
    {
        let mut s = self.stream.content.clone();
        if self.stream.pending.as_str().unicode_len() > 0 && self.stream.fade > 0 {
            s.push(self.stream.pending.as_str().get_char(0));
        }
        s
    }
}

/// The place of the first block whose "copy" label stands at line `line` and at
/// column `col` or left of it.
pub open spec fn copy_hit(r: Seq<RangeV>, line: int, col: int, i: int) -> Option<int>
    decreases r.len() - i,
{
    if i >= r.len() {
        None
    } else if r[i].startLine == line && col + 2 >= r[i].copyLabelCol {
        Some(i)
    } else {
        copy_hit(r, line, col, i + 1)
    }
}

/// The place of the first block that a click at `line` expands or collapses.
pub open spec fn toggle_hit(r: Seq<RangeV>, ex: Set<BlockId>, line: int, i: int) -> Option<int>
    decreases r.len() - i,
{
    if i >= r.len() {
        None
    } else if r[i].collapsible && (r[i].startLine == line || (ex.contains(r[i].blockId)
        && r[i].endLine == line)) {
        Some(i)
    } else {
        toggle_hit(r, ex, line, i + 1)
    }
}

/// The place of the first reasoning header at `line`.
pub open spec fn header_hit(h: Seq<(Option<usize>, usize)>, line: int, i: int) -> Option<int>
    decreases h.len() - i,
{
    if i >= h.len() {
        None
    } else if h[i].1 == line {
        Some(i)
    } else {
        header_hit(h, line, i + 1)
    }
}

/// How many visual lines a reasoning takes, of its first `n` lines.
pub open spec fn reasoning_lines(l: Seq<Seq<char>>, width: int, n: int) -> int
    decreases n,
{
    if n <= 0 {
        0
    } else {
        reasoning_lines(l, width, n - 1) + wrap_line(
            seq![sv(l[n - 1], Style::plain())],
            width,
        ).len()
    }
}

/// How many visual lines a reasoning takes when it is shown.
pub open spec fn reasoning_height(text: Seq<char>, width: int) -> int {
    let l = lines_of(text);
    min(reasoning_lines(l, minus(width, 2), l.len() as int), u16::MAX as int)
}

/// How many visual lines a reasoning takes when it is shown.
pub fn countReasoningLines(text: &str, width: u16) -> (r: u16)
    ensures
        r == reasoning_height(text@, width as int),
{
    let room: usize = (width as usize).saturating_sub(2);
    let v = linesOf(text);
    let ghost l = lines_of(text@);
    let mut count: u16 = 0;
    let mut i: usize = 0;
    while i < v.len()
        invariant
            i <= v@.len(),
            l == texts(v@),
            room == minus(width as int, 2),
            count == min(reasoning_lines(l, room as int, i as int), u16::MAX as int),
            reasoning_lines(l, room as int, i as int) >= 0,
        decreases v@.len() - i,
    {
        proof {
            assert(l[i as int] == v@[i as int]@);
        }
        let rows = wrapSpannedLine(lineOf(span(v[i].as_str(), Style::plain())), room);
        let n: usize = rows.len();
        proof {
            assert(line_views(rows@).len() == n);
        }
        count = if n > 65535 {
            65535
        } else {
            count.saturating_add(n as u16)
        };
        i = i + 1;
    }
    count
}

/// Whether an entry shows a countdown.
pub open spec fn counts_down(e: EntryV) -> bool {
    e matches EntryV::WakeSchedule(w) && w.armed && w.nextFireAt is Some
}

/// Whether an entry shows a countdown.
pub open spec fn has_countdown(e: Seq<EntryV>) -> bool {
    exists|i: int| 0 <= i < e.len() && counts_down(#[trigger] e[i])
}

impl StreamV {
    pub open spec fn drawn(self) -> Seq<char> {
        if self.pending.len() > 0 && self.fade > 0 {
            self.content.push(self.pending[0])
        } else {
            self.content
        }
    }

    /// How far the fade comes between the last tick and `now`, in millionths of a
    /// character: characters are revealed as fast as they arrived, and 15 in a second at
    /// least. A tick counts 50 milliseconds at most. Once the message is complete, the
    /// time that it took to arrive counts.
    pub open spec fn gained(self, now: u64) -> int {
        let start = match self.revealStart {
            Some(s) => s,
            None => now,
        };
        let end = if self.deferredFinalize {
            self.lastReceiveTime
        } else {
            now
        };
        let elapsed = min(minus(now as int, self.lastRevealTick as int), 50);
        max(
            elapsed * self.totalChars * 1_000_000 / max(minus(end as int, start as int), 100),
            elapsed * 15_000,
        )
    }

    /// How far the fade has come at `now`.
    pub open spec fn faded(self, now: u64) -> int {
        min(self.fade + self.gained(now), u128::MAX as int)
    }

    /// How many characters are due at `now`.
    pub open spec fn due(self, now: u64) -> int {
        min(self.faded(now) / FULL_FADE as int, self.pending.len() as int)
    }

    /// The stream with the characters revealed that are due.
    pub open spec fn ticked(self, now: u64) -> StreamV {
        let k = self.due(now);
        let left = self.faded(now) - k * FULL_FADE;
        StreamV {
            content: self.content + self.pending.take(k),
            pending: self.pending.skip(k),
            fade: (if k == self.pending.len() {
                max(left, FULL_FADE as int)
            } else {
                left
            }) as u128,
            lastRevealTick: now,
            ..self
        }
    }
}

impl PanelV {
    /// A code block scrolled sideways; an unknown one changes nothing.
    pub open spec fn code_scrolled(self, blockId: BlockId, delta: int) -> PanelV {
        match block_named(self.shown.blocks, blockId, 0) {
            Some(i) => PanelV {
                code: CodeV {
                    scrollX: scroll_block(
                        self.code.scrollX,
                        self.shown.blocks[i],
                        delta,
                    ),
                    ..self.code
                },
                ..self
            },
            None => self,
        }
    }

    /// The conversation scrolled up.
    pub open spec fn scrolled_up(self, amount: int) -> PanelV {
        PanelV {
            scroll: Scroll {
                offset: min(self.scroll.offset + amount, u16::MAX as int) as u16,
                ..self.scroll
            },
            ..self
        }
    }

    /// The conversation scrolled down.
    pub open spec fn scrolled_down(self, amount: int) -> PanelV {
        PanelV {
            scroll: Scroll {
                offset: minus(self.scroll.offset as int, amount) as u16,
                ..self.scroll
            },
            ..self
        }
    }

    /// A tick of the reveal, and whether it changed anything.
    pub open spec fn revealed(self, now: u64) -> (PanelV, bool) {
        let s = self.stream;
        if s.pending.len() == 0 && s.fade >= FULL_FADE {
            if s.deferredFinalize {
                (self.committed(), true)
            } else {
                (self, false)
            }
        } else if s.revealStart matches Some(start) && minus(now as int, start as int)
            < SPOOL_DELAY {
            (self, false)
        } else {
            (PanelV { stream: s.ticked(now), ..self }, true)
        }
    }

    /// Whether the panel waits for something.
    pub open spec fn waiting(self) -> bool {
        ||| self.stream.isStreaming && self.stream.content.len() == 0 && self.stream.pending.len()
            == 0 && self.stream.reasoning.len() == 0
        ||| self.stream.reasoningActive
        ||| self.tools.active
        ||| self.subs.active.len() > 0
        ||| self.tools.calls.len() > 0
    }

    pub open spec fn thinking_toggled(self) -> PanelV {
        if self.stream.isStreaming && self.stream.reasoning.len() > 0 {
            PanelV {
                stream: StreamV {
                    thinkingExpanded: !self.stream.thinkingExpanded,
                    ..self.stream
                },
                ..self
            }
        } else {
            match last_reasoning(self.entries, self.entries.len() as int) {
                Some(i) => PanelV {
                    entries: with_reasoning_toggled(self.entries, i),
                    ..self
                },
                None => self,
            }
        }
    }

    /// The reasoning of an entry, or of the streamed message, is shown or hidden.
    pub open spec fn reasoning_toggled(self, entry: Option<usize>) -> PanelV {
        let w = max(self.scroll.chatWidth as int, 1);
        match entry {
            Some(k) => if k < self.entries.len() && self.entries[k as int] is Reasoning {
                let text = self.entries[k as int]->Reasoning_text;
                PanelV {
                    entries: with_reasoning_toggled(self.entries, k as int),
                    scroll: if self.scroll.offset > 0 {
                        shifted(
                            self.scroll,
                            reasoning_height(text, w),
                            !self.entries[k as int]->Reasoning_expanded,
                        )
                    } else {
                        self.scroll
                    },
                    ..self
                }
            } else {
                self
            },
            None => PanelV {
                stream: StreamV {
                    thinkingExpanded: !self.stream.thinkingExpanded,
                    ..self.stream
                },
                scroll: if self.scroll.offset > 0 {
                    shifted(
                        self.scroll,
                        reasoning_height(self.stream.reasoning, w),
                        !self.stream.thinkingExpanded,
                    )
                } else {
                    self.scroll
                },
                ..self
            },
        }
    }

    /// The code block of `r` is expanded or collapsed.
    pub open spec fn code_toggled(self, r: RangeV) -> PanelV {
        let expanded = self.code.expanded.contains(r.blockId);
        let hidden = minus(r.totalLines, MAX_CODE_BLOCK_LINES as int) % 65536;
        PanelV {
            code: CodeV {
                expanded: if expanded {
                    self.code.expanded.remove(r.blockId)
                } else {
                    self.code.expanded.insert(r.blockId)
                },
                ..self.code
            },
            scroll: shifted(self.scroll, hidden, !expanded),
            ..self
        }
    }
}

// ---- laws ----

/// Nothing that streams in is lost or reordered: what was revealed and what is
/// still to come make up what was there before the tick.
pub proof fn law_reveal_keeps_the_message(s: StreamV, now: u64)
    ensures
        s.ticked(now).content + s.ticked(now).pending == s.content + s.pending,
{
    lemma_due(s, now);
    assert(s.ticked(now).content + s.ticked(now).pending =~= s.content + s.pending);
}

proof fn lemma_due(s: StreamV, now: u64)
    ensures
        0 <= s.due(now) <= s.pending.len(),
{
    assert(s.gained(now) >= min(minus(now as int, s.lastRevealTick as int), 50) * 15_000);
}

/// Expanding a code block and collapsing it again restores the panel, as long as
/// the scroll position stays in range.
pub proof fn law_code_toggle_twice_restores(p: PanelV, r: RangeV)
    requires
        !p.code.expanded.contains(r.blockId),
        p.scroll.offset + minus(r.totalLines, MAX_CODE_BLOCK_LINES as int) <= u16::MAX,
        p.scroll.maxScroll + minus(r.totalLines, MAX_CODE_BLOCK_LINES as int) <= u16::MAX,
    ensures
        p.code_toggled(r).code_toggled(r) == p,
{
    let q = p.code_toggled(r).code_toggled(r);
    assert(q.code.expanded =~= p.code.expanded);
    assert(q =~= p);
}

/// Showing a reasoning and hiding it again restores the panel, as long as the
/// scroll position stays in range.
pub proof fn law_reasoning_toggle_twice_restores(p: PanelV, k: usize)
    requires
        k < p.entries.len(),
        p.entries[k as int] is Reasoning,
        !p.entries[k as int]->Reasoning_expanded,
        p.scroll.offset + reasoning_height(
            p.entries[k as int]->Reasoning_text,
            max(p.scroll.chatWidth as int, 1),
        ) <= u16::MAX,
        p.scroll.maxScroll + reasoning_height(
            p.entries[k as int]->Reasoning_text,
            max(p.scroll.chatWidth as int, 1),
        ) <= u16::MAX,
    ensures
        p.reasoning_toggled(Some(k)).reasoning_toggled(Some(k)) == p,
{
    let text = p.entries[k as int]->Reasoning_text;
    let q = p.reasoning_toggled(Some(k));
    let l = lines_of(text);
    let w = max(p.scroll.chatWidth as int, 1);
    lemma_reasoning_lines(l, minus(w, 2), l.len() as int);
    assert(q.entries[k as int] == EntryV::Reasoning { text, expanded: true });
    assert(q.reasoning_toggled(Some(k)).entries =~= p.entries);
}

proof fn lemma_reasoning_lines(l: Seq<Seq<char>>, width: int, n: int)
    ensures
        reasoning_lines(l, width, n) >= 0,
    decreases n,
{
    if n > 0 {
        lemma_reasoning_lines(l, width, n - 1);
    }
}

} // verus!
