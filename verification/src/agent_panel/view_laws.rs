//! What holds of how the panel is drawn, scrolled and labelled.

use vstd::prelude::*;
use crate::agent_panel::blocks::{BlockId, STREAMING, handed_over, offset_in, scroll_block};
use crate::agent_panel::blocks::{RangeV, block_at};
use crate::agent_panel::entry::{EntryV, block_start, with_marker, without_marker};
use crate::agent_panel::labels::{
    added_lines, elapsed_compact, format_bytes, one_line, removed_lines, time_until, words,
};
use crate::agent_panel::painting::{
    attachment_line, error_hint, ghost_text, input_draws, queue_draws, queued_line, separator_draws,
    text_rect,
};
use crate::agent_panel::permit_rows::permit_lines;
use crate::agent_panel::render::{MaterialV, chat_draws, painted};
use crate::agent_panel::rows::RowV;
use crate::agent_panel::state::{Attachment, CompletionV, PanelV, UserInput};
use crate::draw::{Color, Rect};
use crate::impact::{ShellImpact, TerminalRunImpact, impact_look};
use crate::text::{byte_len, dec, has_prefix, is_white, joined, trim_start};

verus! {

// ---- drawing ----

/// The row of the conversation that is shown at a height is the one that far below the
/// first that is in view.
pub proof fn law_rows_are_shown_in_their_order(
    rows: Seq<RowV>,
    area: Rect,
    width: u16,
    from: int,
    i: int,
)
    requires
        area.wf(),
        0 <= from,
        0 <= i < area.height,
        from + i < rows.len(),
    ensures
        i < chat_draws(rows, area, width, from).len(),
        chat_draws(rows, area, width, from)[i] is Row,
        chat_draws(rows, area, width, from)[i]->Row_y == area.y + i,
        chat_draws(rows, area, width, from)[i]->Row_x == area.x,
        chat_draws(rows, area, width, from)[i]->Row_line == rows[from + i].line,
{
}

/// While a prompt is shown it takes the place of the input; else the input is there to be
/// typed into.
pub proof fn law_the_prompt_takes_the_place_of_the_input(
    p: PanelV,
    area: Rect,
    focused: bool,
    parts: Seq<Rect>,
    m: MaterialV,
    now: u64,
    r: Rect,
)
    requires
        r.wf(),
    ensures
        p.permit.pending && !p.permit.suppressed ==> painted(
            p,
            area,
            focused,
            parts,
            m,
            now,
        ).text is None,
        !p.permit.pending || p.permit.suppressed ==> painted(
            p,
            area,
            focused,
            parts,
            m,
            now,
        ).text is Some,
        p.permit.pending && !p.permit.suppressed ==> input_draws(p, m.command, r).len() > 0
            && input_draws(p, m.command, r)[0] is Para && input_draws(p, m.command, r)[0]->Para_lines
            == permit_lines(p, m.command, r.width as int, false),
        !p.permit.pending && p.compose.attachments.len() == 0 ==> input_draws(
            p,
            m.command,
            r,
        ).len() == 0 && text_rect(p, r) == r,
{
}

/// The hint how to take up a failed turn is shown above the input.
pub proof fn law_the_hint_is_shown(p: PanelV, r: Rect)
    requires
        p.compose.errorHint,
        !p.permit.pending,
        r.width == error_hint().len(),
    ensures
        separator_draws(p, r).len() == 1,
        separator_draws(p, r)[0] is Para,
        (separator_draws(p, r)[0]->Para_lines)[0][0].text == error_hint(),
{
}

/// Messages that wait are shown with how many images they have, whole where they fit, and
/// the latest where there is no room for all.
pub proof fn law_waiting_messages_are_listed(q: Seq<UserInput>, r: Rect, i: int)
    requires
        0 <= i < q.len(),
        i >= q.len() - r.height,
        r.wf(),
    ensures
        ({
            let d = queue_draws(q, r);
            let skip = if q.len() > r.height {
                q.len() - r.height
            } else {
                0
            };
            let n = q[i].attachments@.len();
            let l = queued_line(q[i], r.width as int);
            &&& d.len() == q.len() - skip
            &&& d[i - skip] is Para
            &&& (d[i - skip]->Para_rect).y == r.y + (i - skip)
            &&& d[i - skip]->Para_lines == seq![l]
            &&& n == 0 && byte_len(q[i].text@) + 3 <= r.width ==> l.len() == 2 && l[1].text
                == q[i].text@
            &&& n == 1 ==> l.len() == 3 && l[2].text == "  [+1 image]"@
            &&& n > 1 ==> l.len() == 3 && l[2].text == "  [+"@ + dec(n) + " images]"@
        }),
{
    reveal_strlit("  [+1 image]");
    reveal_strlit("  [+");
    reveal_strlit(" images]");
}

/// Each image is shown with its label and its size, and the last one with the key that
/// takes it away.
pub proof fn law_images_are_listed(a: Attachment, width: int)
    ensures
        attachment_line(a, false, width).len() == 3,
        attachment_line(a, false, width)[1].text == a.label@,
        attachment_line(a, false, width)[2].text == "  "@ + format_bytes(a.data@.len() as int),
        attachment_line(a, true, width)[1].text == a.label@,
        attachment_line(a, true, width).last().text == "[Ctrl+D]"@,
{
}

/// What is typed and the hint behind it spell the name of the command that is chosen.
pub proof fn law_the_hint_completes_the_name(c: CompletionV, typed: Seq<char>)
    requires
        c.selected < c.matches.len(),
        has_prefix(c.matches[c.selected as int].name, typed),
    ensures
        typed + ghost_text(Some(c), seq!['/'] + typed) == c.matches[c.selected as int].name,
        ghost_text(None, seq!['/'] + typed).len() == 0,
{
    let t = seq!['/'] + typed;
    assert(t[0] == '/');
    assert(trim_start(t) == t);
    assert(t.skip(1) =~= typed);
    let name = c.matches[c.selected as int].name;
    assert(typed + name.skip(typed.len() as int) =~= name);
}

// ---- scrolling ----

/// Scrolling up and down by as much ends where it began; it never goes below the end, and
/// moves nothing but the view.
pub proof fn law_scrolling_back_undoes_scrolling(p: PanelV, n: int)
    requires
        0 <= n,
        p.scroll.offset + n <= u16::MAX,
    ensures
        p.scrolled_up(n).scroll.offset == p.scroll.offset + n,
        p.scrolled_up(n).scrolled_down(n) == p,
        n >= p.scroll.offset ==> p.scrolled_down(n).scroll.offset == 0,
        n < p.scroll.offset ==> p.scrolled_down(n).scroll.offset == p.scroll.offset - n,
        p.scrolled_up(n).entries == p.entries,
{
}

/// The frame of the panel tells whether the end is in view, whether something new came
/// since, and whether the agent waits.
pub proof fn law_the_frame_tells_what_is_out_of_view(p: PanelV)
    ensures
        p.scroll.offset == 0 ==> p.title() == " agent "@,
        p.scroll.offset > 0 && p.scroll.newContent ==> p.title() == " agent [\u{2193} new] "@,
        p.scroll.offset > 0 && !p.scroll.newContent && p.scroll.idle && !p.turnActive ==> p.title()
            == " agent [\u{22EF} waiting] "@,
        p.scroll.offset > 0 && !p.scroll.newContent && (!p.scroll.idle || p.turnActive) ==> p.title()
            == " agent [\u{2191}"@ + dec(p.scroll.offset as nat) + "] "@,
{
}

/// How far a streaming block was scrolled goes over to the entry that it becomes, and
/// what others were scrolled stays.
pub proof fn law_scrolled_code_stays_scrolled(
    m: Map<BlockId, u16>,
    to: usize,
    k: usize,
    other: BlockId,
)
    requires
        to != STREAMING,
        m.dom().contains((STREAMING, k)),
        other.0 != STREAMING,
        other.0 != to,
    ensures
        handed_over(m, STREAMING, to).dom().contains((to, k)),
        handed_over(m, STREAMING, to)[(to, k)] == m[(STREAMING, k)],
        !handed_over(m, STREAMING, to).dom().contains((STREAMING, k)),
        handed_over(m, STREAMING, to).dom().contains(other) == m.dom().contains(other),
        m.dom().contains(other) ==> handed_over(m, STREAMING, to)[other] == m[other],
{
}

/// Code is scrolled sideways by as much as asked, between its beginning and its end, and
/// other blocks stay.
pub proof fn law_code_is_scrolled_within_its_width(
    m: Map<BlockId, u16>,
    r: RangeV,
    delta: int,
    other: BlockId,
)
    requires
        0 <= r.innerWidth <= r.maxContentWidth <= r.innerWidth + 65535,
        -65536 < delta < 65536,
        other != r.blockId,
    ensures
        ({
            let limit = r.maxContentWidth - r.innerWidth;
            let (a, b) = (
                offset_in(m, r.blockId) as int,
                offset_in(scroll_block(m, r, delta), r.blockId) as int,
            );
            &&& 0 < limit && 0 <= a + delta <= limit ==> b == a + delta
            &&& 0 < limit && a <= limit && a + delta > limit && delta > 0 ==> b == limit
            &&& 0 < limit && a + delta < 0 ==> b == 0
            &&& limit == 0 ==> b == a
            &&& offset_in(scroll_block(m, r, delta), other) == offset_in(m, other)
        }),
{
}

/// The block at a line is the first that covers it.
pub proof fn law_the_block_at_a_line(r: Seq<RangeV>, line: int, from: int)
    requires
        0 <= from,
    ensures
        match block_at(r, line, from) {
            Some(i) => from <= i < r.len() && r[i].startLine <= line <= r[i].endLine,
            None => forall|i: int|
                from <= i < r.len() ==> !((#[trigger] r[i]).startLine <= line <= r[i].endLine),
        },
    decreases r.len() - from,
{
    if from < r.len() {
        law_the_block_at_a_line(r, line, from + 1);
    }
}

// ---- markers ----

/// How many messages of the user there are among the first `n` entries.
pub open spec fn messages_before(e: Seq<EntryV>, n: int) -> int
    decreases n,
{
    if n <= 0 {
        0
    } else {
        messages_before(e, n - 1) + (if e[n - 1] is User {
            1int
        } else {
            0
        })
    }
}

proof fn lemma_no_marker(e: Seq<EntryV>, stage: Seq<char>, n: int)
    requires
        0 <= n <= e.len(),
        forall|j: int| 0 <= j < e.len() ==> #[trigger] e[j] != EntryV::CompactionMarker(stage),
    ensures
        without_marker(e, stage, n) == e.take(n),
    decreases n,
{
    if n > 0 {
        lemma_no_marker(e, stage, n - 1);
        assert(e[n - 1] != EntryV::CompactionMarker(stage));
        assert(e.take(n) =~= e.take(n - 1).push(e[n - 1]));
    } else {
        assert(e.take(0) =~= Seq::<EntryV>::empty());
    }
}

proof fn lemma_start(e: Seq<EntryV>, k: int, i: int, from: int)
    requires
        0 <= from <= i < e.len(),
        e[i] is User,
        messages_before(e, i) - messages_before(e, from) == k,
    ensures
        block_start(e, k, from) == i,
    decreases i - from,
{
    if from < i {
        lemma_counts(e, from + 1, i);
        if e[from] is User {
            lemma_start(e, k - 1, i, from + 1);
        } else {
            lemma_start(e, k, i, from + 1);
        }
    }
}

proof fn lemma_counts(e: Seq<EntryV>, a: int, b: int)
    requires
        0 <= a <= b,
    ensures
        messages_before(e, a) <= messages_before(e, b),
    decreases b - a,
{
    if a < b {
        lemma_counts(e, a, b - 1);
    }
}

/// The marker of a compaction stands before the message that it names, counted from the
/// first, and every entry stays in its order.
pub proof fn law_a_marker_stands_before_its_message(
    e: Seq<EntryV>,
    stage: Seq<char>,
    k: int,
    i: int,
)
    requires
        0 <= i < e.len(),
        e[i] is User,
        messages_before(e, i) == k,
        forall|j: int| 0 <= j < e.len() ==> #[trigger] e[j] != EntryV::CompactionMarker(stage),
    ensures
        with_marker(e, stage, k) == e.insert(i, EntryV::CompactionMarker(stage)),
{
    lemma_no_marker(e, stage, e.len() as int);
    assert(e.take(e.len() as int) =~= e);
    lemma_start(e, k, i, 0);
}

// ---- labels ----

/// Sizes are told in bytes up to a kilobyte, then in whole kilobytes, to the nearest.
pub proof fn law_sizes_are_told_to_the_nearest(n: int, k: nat)
    requires
        0 <= n,
    ensures
        n < 1024 ==> format_bytes(n) == dec(n as nat) + " B"@,
        1024 <= n < 1_048_576 && 1024 * k - 512 < n < 1024 * k + 512 ==> format_bytes(n) == dec(k)
            + " KB"@,
{
}

/// A span of time is told in its largest unit, rounded down, and hours with their minutes.
pub proof fn law_spans_are_told_in_whole_units(s: nat, n: nat, m: nat)
    ensures
        s < 60 ==> elapsed_compact(s) == dec(s) + "s"@,
        1 <= n < 60 && 60 * n <= s < 60 * n + 60 ==> elapsed_compact(s) == dec(n) + "m"@,
        1 <= n < 24 && m == 0 && 3600 * n <= s < 3600 * n + 60 ==> elapsed_compact(s) == dec(n)
            + "h"@,
        1 <= n < 24 && 1 <= m < 60 && 3600 * n + 60 * m <= s < 3600 * n + 60 * m + 60
            ==> elapsed_compact(s) == dec(n) + "h"@ + dec(m) + "m"@,
        1 <= n && 86_400 * n <= s < 86_400 * n + 86_400 ==> elapsed_compact(s) == dec(n) + "d"@,
{
}

/// What is due is told as due, and else how long it takes.
pub proof fn law_the_time_until_is_told(at: u64, now: u64)
    ensures
        at <= now ==> time_until(at, now) == "due"@,
        now < at < now + 60_000 ==> time_until(at, now) == "in "@ + dec(
            ((at - now) / 1000) as nat,
        ) + "s"@,
{
    reveal_strlit("in ");
    if now < at < now + 60_000 {
        let n = ((at - now) / 1000) as nat;
        assert(time_until(at, now) =~= "in "@ + dec(n) + "s"@);
    }
}

/// A line that a change adds begins with a plus, one that it takes away with a minus; the
/// heads of files count as neither.
pub proof fn law_changed_lines_are_counted(l: Seq<Seq<char>>, n: int)
    requires
        0 <= n < l.len(),
    ensures
        added_lines(l, 0) == 0,
        removed_lines(l, 0) == 0,
        ({
            let t = l[n];
            let plus = t.len() > 0 && t[0] == '+' && !(t.len() > 2 && t[1] == '+' && t[2] == '+');
            let less = t.len() > 0 && t[0] == '-' && !(t.len() > 2 && t[1] == '-' && t[2] == '-');
            &&& plus ==> added_lines(l, n + 1) == added_lines(l, n) + 1
            &&& !plus ==> added_lines(l, n + 1) == added_lines(l, n)
            &&& less ==> removed_lines(l, n + 1) == removed_lines(l, n) + 1
            &&& !less ==> removed_lines(l, n + 1) == removed_lines(l, n)
        }),
{
    reveal_strlit("+");
    reveal_strlit("-");
    reveal_strlit("+++");
    reveal_strlit("---");
    let t = l[n];
    if t.len() > 0 {
        assert(t.take(1)[0] == t[0]);
        assert("+"@[0] == '+' && "-"@[0] == '-');
        if t[0] == '+' {
            assert(t.take(1) =~= "+"@);
        }
        if t[0] == '-' {
            assert(t.take(1) =~= "-"@);
        }
    }
    if t.len() > 2 {
        let h = t.take(3);
        assert(h[0] == t[0] && h[1] == t[1] && h[2] == t[2]);
        assert("+++"@[0] == '+' && "+++"@[1] == '+' && "+++"@[2] == '+');
        assert("---"@[0] == '-' && "---"@[1] == '-' && "---"@[2] == '-');
        if t[0] == '+' && t[1] == '+' && t[2] == '+' {
            assert(h =~= "+++"@);
        }
        if t[0] == '-' && t[1] == '-' && t[2] == '-' {
            assert(h =~= "---"@);
        }
    }
}

/// White space parts words: a character that is not white lengthens the word before it,
/// or begins a new one behind white space.
pub proof fn law_words_are_parted_by_white_space(s: Seq<char>, c: char)
    ensures
        is_white(c) ==> words(s.push(c)).0 == words(s).0,
        !is_white(c) && (s.len() == 0 || is_white(s.last())) ==> words(s.push(c)).0 == words(
            s,
        ).0.push(seq![c]),
        !is_white(c) && s.len() > 0 && !is_white(s.last()) ==> words(s.push(c)).0 == words(
            s,
        ).0.drop_last().push(words(s).0.last().push(c)),
        byte_len(joined(words(s).0, " "@)) <= 96 ==> one_line(s, 96) == joined(words(s).0, " "@),
{
    assert(s.push(c).drop_last() =~= s);
}

// ---- impact ----

/// What a command may do has a sign and a colour of its own, and what deletes is red.
pub proof fn law_impacts_look_different(a: TerminalRunImpact, b: TerminalRunImpact)
    ensures
        impact_look(a) == impact_look(b) ==> a == b,
        impact_look(TerminalRunImpact::Delete).1 == Color::Red,
        a != TerminalRunImpact::Delete ==> impact_look(a).1 != Color::Red,
        ShellImpact::Delete.asRun() == TerminalRunImpact::Delete,
        ShellImpact::MajorMod.asRun() == TerminalRunImpact::MajorMod,
        ShellImpact::MinorMod.asRun() == TerminalRunImpact::MinorMod,
        ShellImpact::Read.asRun() == TerminalRunImpact::Read,
{
}

} // verus!
