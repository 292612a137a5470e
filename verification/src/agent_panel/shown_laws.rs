//! What the conversation shows of its entries.

use vstd::prelude::*;
use crate::agent_panel::conversation::{
    InputV, block_page, built_entries, entry_page, input_at, named_calls, throbber_text,
};
use crate::agent_panel::entry::{BlockV, EntryV, WakeV};
use crate::agent_panel::entry_rows::{
    ThrobberV, active_rows, notice_row, reasoning_rows, symbol_rows, user_rows, wake_rows,
};
use crate::agent_panel::permit_rows::{custom_line, header_left, permit_lines};
use crate::agent_panel::rows::{BlockView, PageV, PrefixV, Setting, flow, text_rows};
use crate::agent_panel::selecting::{
    SegmentV, Selection, entry_at, entry_span, group_of, height_of, rejoined, segment,
    without_tail,
};
use crate::agent_panel::state::{CallV, PanelV};
use crate::agent_panel::subagent_rows::{outcome, subagent_page, tool_rows, tool_text};
use crate::draw::{Color, SpanV, Style, colored, minus, sv};
use crate::text::{dec, has_prefix, lines_of, split_on};
use crate::wrap::{line_atoms, width_between};

verus! {

/// The text of a line.
pub open spec fn line_text(l: Seq<SpanV>) -> Seq<char>
    decreases l.len(),
{
    if l.len() == 0 {
        Seq::empty()
    } else {
        line_text(l.drop_last()) + l.last().text
    }
}

proof fn lemma_two(a: SpanV, b: SpanV)
    ensures
        line_text(seq![a, b]) == a.text + b.text,
{
    reveal_with_fuel(line_text, 3);
    let l = seq![a, b];
    assert(l.drop_last() =~= seq![a]);
    assert(seq![a].drop_last() =~= Seq::<SpanV>::empty());
    assert(line_text(l) =~= a.text + b.text);
}

/// Whether a line is no wider than `room`.
pub open spec fn fits(l: Seq<SpanV>, room: int) -> bool {
    width_between(line_atoms(l), 0, line_atoms(l).len() as int) <= room
}

// ---- the order of the entries ----

proof fn lemma_flow_grows(s: Setting, start: PageV, b: Seq<BlockView>, n: int)
    requires
        n <= b.len(),
    ensures
        flow(s, start, b, n).page.rows.len() >= start.rows.len(),
        flow(s, start, b, n).page.rows.take(start.rows.len() as int) == start.rows,
    decreases n,
{
    if n > 0 {
        lemma_flow_grows(s, start, b, n - 1);
        let before = flow(s, start, b, n - 1).page.rows;
        let after = flow(s, start, b, n).page.rows;
        assert(after.take(before.len() as int) =~= before);
        assert(after.take(start.rows.len() as int) =~= before.take(start.rows.len() as int));
    } else {
        assert(start.rows.take(start.rows.len() as int) =~= start.rows);
    }
}

/// An entry is drawn behind what is drawn already, and nothing of that changes.
pub proof fn law_entries_are_drawn_one_after_the_other(
    p: PanelV,
    q: PageV,
    i: int,
    inp: InputV,
    t: ThrobberV,
    width: int,
    now: u64,
)
    requires
        0 <= i < p.entries.len(),
    ensures
        entry_page(p, q, i, inp, t, width, now).rows.len() >= q.rows.len(),
        entry_page(p, q, i, inp, t, width, now).rows.take(q.rows.len() as int) == q.rows,
{
    let r = entry_page(p, q, i, inp, t, width, now);
    let at = i as usize;
    match p.entries[i] {
        EntryV::Assistant(_) => {
            lemma_block_page(p, q, inp.blocks, "\u{25C6} "@, Color::White, at, width, now);
        },
        EntryV::ToolRequest { summary, diff, command } => {
            if diff is Some {
                let b = seq![
                    BlockView::Text(
                        seq![crate::agent_panel::conversation::diff_line(summary, diff->0)],
                    ),
                ] + inp.blocks;
                lemma_block_page(p, q, b, "\u{2699}\u{FE0E} "@, Color::Yellow, at, width, now);
            } else {
                assert(r.rows.take(q.rows.len() as int) =~= q.rows);
            }
        },
        EntryV::ToolResult { .. } => {
            lemma_block_page(p, q, inp.blocks, "\u{25C7} "@, Color::DarkGray, at, width, now);
        },
        EntryV::CommandResult(_) => {
            lemma_block_page(
                p,
                q,
                inp.blocks,
                "\u{2139}\u{FE0E} "@,
                Color::DarkGray,
                at,
                width,
                now,
            );
        },
        _ => {
            assert(r.rows.take(q.rows.len() as int) =~= q.rows);
        },
    }
}

proof fn lemma_block_page(
    p: PanelV,
    q: PageV,
    b: Seq<BlockView>,
    symbol: Seq<char>,
    color: Color,
    entry: usize,
    width: int,
    now: u64,
)
    ensures
        block_page(p, q, b, symbol, color, entry, width, now).rows.len() >= q.rows.len(),
        block_page(p, q, b, symbol, color, entry, width, now).rows.take(q.rows.len() as int)
            == q.rows,
{
    lemma_flow_grows(
        Setting {
            prefix: PrefixV { symbol, style: colored(color) },
            width,
            entry,
            code: p.code,
            now,
        },
        q,
        b,
        b.len() as int,
    );
}

/// The conversation shows its entries in their order, with a blank row behind each.
pub proof fn law_the_conversation_is_in_order(
    p: PanelV,
    inp: Seq<InputV>,
    t: ThrobberV,
    width: int,
    now: u64,
    n: int,
)
    requires
        0 <= n < p.entries.len(),
    ensures
        ({
            let a = built_entries(p, inp, t, width, now, n).page;
            let b = built_entries(p, inp, t, width, now, n + 1).page;
            let e = entry_page(p, a, n, input_at(inp, n), t, width, now);
            &&& b.rows.len() == e.rows.len() + 1
            &&& b.rows.drop_last() == e.rows
            &&& b.rows.last().line.len() == 0
            &&& b.rows.take(a.rows.len() as int) == a.rows
        }),
{
    let a = built_entries(p, inp, t, width, now, n).page;
    let b = built_entries(p, inp, t, width, now, n + 1).page;
    let e = entry_page(p, a, n, input_at(inp, n), t, width, now);
    law_entries_are_drawn_one_after_the_other(p, a, n, input_at(inp, n), t, width, now);
    assert(b.rows.drop_last() =~= e.rows);
    assert(b.rows.take(a.rows.len() as int) =~= e.rows.take(a.rows.len() as int));
}

// ---- what an entry says ----

proof fn lemma_symbol(text: Seq<char>, symbol: Seq<char>, style: Style, width: int)
    requires
        fits(seq![sv(text, style)], minus(width, PrefixV { symbol, style }.width())),
    ensures
        symbol_rows(text, symbol, style, width).len() == 1,
        line_text(symbol_rows(text, symbol, style, width)[0].line) == symbol + text,
        symbol_rows(text, symbol, style, width)[0].line[1].style == style,
{
    reveal_with_fuel(text_rows, 2);
    let l = seq![sv(text, style)];
    assert(l.skip(0) =~= l);
    assert(l.take(0) =~= Seq::<SpanV>::empty());
    let r = symbol_rows(text, symbol, style, width);
    assert(r[0].line =~= seq![sv(symbol, style), sv(text, style)]);
    lemma_two(sv(symbol, style), sv(text, style));
}

/// An entry that fits on one row is shown there in its own words: what was allowed, what
/// was refused and by whom, and what went wrong, each behind its sign.
pub proof fn law_entries_say_what_they_are(
    p: PanelV,
    q: PageV,
    i: int,
    inp: InputV,
    t: ThrobberV,
    width: int,
    now: u64,
    style: Style,
    said: Seq<char>,
    symbol: Seq<char>,
)
    requires
        0 <= i < p.entries.len(),
        fits(seq![sv(said, style)], minus(width, PrefixV { symbol, style }.width())),
        ({
            ||| p.entries[i] == EntryV::ToolApproved(said) && symbol == "\u{2713}\u{FE0E} "@ && style
                == colored(Color::Green)
            ||| (p.entries[i] matches EntryV::ToolDenied(name) && said == name + " (denied)"@)
                && symbol == "\u{2717}\u{FE0E} "@ && style == colored(Color::Red)
            ||| p.entries[i] == EntryV::Error(said) && symbol == "\u{26A0}\u{FE0E} "@ && style
                == colored(Color::Red)
            ||| (p.entries[i] matches EntryV::ToolAutoDenied { name, summary } && said == name
                + ": "@ + summary + " (blocked by rule)"@) && symbol == "\u{2717}\u{FE0E} "@
                && style == colored(Color::Red).bg(Color::Rgb(60, 20, 20))
            ||| (p.entries[i] matches EntryV::ToolRequest { summary, diff, command } && summary
                == said && diff is None && command is None) && symbol == "\u{2699}\u{FE0E} "@
                && style == colored(Color::Yellow)
        }),
    ensures
        ({
            let r = entry_page(p, q, i, inp, t, width, now).rows;
            &&& r.len() == q.rows.len() + 1
            &&& r.drop_last() == q.rows
            &&& line_text(r.last().line) == symbol + said
        }),
{
    lemma_symbol(said, symbol, style, width);
    let r = entry_page(p, q, i, inp, t, width, now).rows;
    assert(r.drop_last() =~= q.rows);
}

/// What the user wrote on one line is shown behind its sign where it fits.
pub proof fn law_messages_say_what_was_written(text: Seq<char>, width: int, st: Style)
    requires
        text.len() > 0,
        !text.contains('\n'),
        st == crate::agent_panel::entry_rows::user_style(text),
        fits(seq![sv(text, st)], minus(width, 2)),
    ensures
        user_rows(text, width).len() == 1,
        line_text(user_rows(text, width)[0].line) == "\u{203A} "@ + text,
{
    lemma_one_line(text);
    reveal_with_fuel(crate::agent_panel::entry_rows::user_lines, 2);
    let l = lines_of(text);
    assert(text.last() != '\n') by {
        assert(text.contains(text[text.len() - 1]));
    }
    let r = user_rows(text, width);
    assert(r.len() == 1);
    assert(r[0].line =~= seq![sv("\u{203A} "@, st), sv(text, st)]);
    lemma_two(sv("\u{203A} "@, st), sv(text, st));
}

proof fn lemma_one_line(text: Seq<char>)
    requires
        text.len() > 0,
        !text.contains('\n'),
    ensures
        lines_of(text) == seq![text],
{
    lemma_one_piece(text);
    assert(split_on(text, '\n') =~= seq![text]);
    assert(lines_of(text) =~= seq![text]);
}

proof fn lemma_one_piece(text: Seq<char>)
    requires
        !text.contains('\n'),
    ensures
        split_on(text, '\n') == seq![text],
    decreases text.len(),
{
    if text.len() > 0 {
        let t = text.drop_last();
        if t.contains('\n') {
            let i = choose|i: int| 0 <= i < t.len() && t[i] == '\n';
            assert(text[i] == '\n');
        }
        lemma_one_piece(t);
        assert(text.contains(text[text.len() - 1]));
        let r = split_on(t, '\n');
        assert(split_on(text, '\n') == r.drop_last().push(r.last().push(text.last())));
        assert(t.push(text.last()) =~= text);
        assert(split_on(text, '\n') =~= seq![text]);
    } else {
        assert(text =~= Seq::<char>::empty());
    }
}

/// Reasoning that is folded is one row; unfolded, its text stands below that row.
pub proof fn law_reasoning_is_folded(text: Seq<char>, width: int)
    ensures
        reasoning_rows(text, false, width).len() == 1,
        reasoning_rows(text, true, width).len() >= 1,
        line_text(reasoning_rows(text, false, width)[0].line) == "\u{25B8} reasoning"@,
        line_text(reasoning_rows(text, true, width)[0].line) == "\u{25BE} reasoning"@,
        text.len() > 0 && !text.contains('\n') && fits(
            seq![sv(text, crate::agent_panel::entry_rows::reasoningStyle())],
            minus(width, 2),
        ) ==> reasoning_rows(text, true, width).len() == 2 && line_text(
            reasoning_rows(text, true, width)[1].line,
        ) == "  "@ + text,
{
    reveal_strlit("\u{25B8}");
    reveal_strlit("\u{25BE}");
    reveal_strlit(" reasoning");
    reveal_strlit("\u{25B8} reasoning");
    reveal_strlit("\u{25BE} reasoning");
    reveal_with_fuel(line_text, 2);
    let st = crate::agent_panel::entry_rows::reasoningStyle();
    let a = reasoning_rows(text, false, width);
    let b = reasoning_rows(text, true, width);
    assert(a[0].line.drop_last() =~= Seq::<SpanV>::empty());
    assert(b[0].line.drop_last() =~= Seq::<SpanV>::empty());
    assert(line_text(a[0].line) =~= "\u{25B8} reasoning"@);
    assert(line_text(b[0].line) =~= "\u{25BE} reasoning"@);
    if text.len() > 0 && !text.contains('\n') && fits(seq![sv(text, st)], minus(width, 2)) {
        lemma_one_line(text);
        reveal_with_fuel(crate::agent_panel::entry_rows::indented_lines, 2);
        assert(b.len() == 2);
        assert(b[1].line =~= seq![sv("  "@, st), sv(text, st)]);
        lemma_two(sv("  "@, st), sv(text, st));
    }
}

/// A tool that runs is shown with what it does and for how many seconds.
pub proof fn law_a_running_tool_is_shown(summary: Seq<char>, since: u64, t: ThrobberV, now: u64)
    requires
        since <= now,
    ensures
        active_rows(summary, Some(since), t, now).len() == 2,
        active_rows(summary, Some(since), t, now)[0].line[2].text == summary + "  ("@ + dec(
            ((now - since) / 1000) as nat,
        ) + "s)"@,
{
}

/// The receipt of a wake shows its number, its kind and how it stands.
pub proof fn law_a_receipt_shows_how_it_stands(w: WakeV, width: int, now: u64)
    ensures
        ({
            let l = wake_rows(w, width, now)[0].line;
            &&& l[0].text == "\u{25F4} wake #"@ + dec(w.id as nat)
            &&& w.status is Armed && w.armed ==> l[2].text == " \u{00B7} "@ + "armed"@
            &&& w.status is Armed && !w.armed ==> l[2].text == " \u{00B7} "@ + "disarmed"@
            &&& w.status is Disarmed ==> l[2].text == " \u{00B7} "@ + "disarmed"@
            &&& w.status is Fired && !w.armed ==> l[2].text == " \u{00B7} "@ + "fired"@
            &&& w.armed && (w.nextFireAt matches Some(at) && at <= now) ==> l[3].text
                == " \u{00B7} "@ + "due"@
            &&& !w.armed ==> l[3].text.len() == 0
            &&& w.kind is Delay ==> l[1].text == " \u{00B7} "@ + "delay"@
            &&& w.kind is Cron ==> l[1].text == " \u{00B7} "@ + "cron"@
            &&& w.kind is FileWatch ==> l[1].text == " \u{00B7} "@ + "file watch"@
        }),
{
}

/// A notice shows its text.
pub proof fn law_a_notice_shows_its_text(text: Seq<char>)
    ensures
        notice_row(text).line.last().text == " "@ + text,
{
}

// ---- subagents ----

/// The block of a subagent names its agent and what it is to do, and shows the last three
/// of its tools in order; how many came before is told.
pub proof fn law_a_subagents_block_shows_its_work(
    lines: Seq<(Seq<char>, Seq<char>)>,
    done: bool,
    inner: int,
    i: int,
)
    ensures
        ({
            let r = tool_rows(lines, done, inner);
            let n = lines.len() as int;
            &&& n == 0 && !done ==> r.len() == 1
            &&& n == 0 && done ==> r.len() == 0
            &&& 0 < n <= 3 ==> r.len() == n
            &&& n > 3 ==> r.len() == 4
            &&& 0 <= i < n <= 3 ==> r[i].line[2].text
                == crate::agent_panel::boxes::filled_text(tool_text(lines[i], inner), inner)
            &&& n > 3 && 0 <= i < 3 ==> r[i + 1].line[2].text
                == crate::agent_panel::boxes::filled_text(
                tool_text(lines[n - 3 + i], inner),
                inner,
            )
            &&& 0 <= i < n ==> has_prefix(tool_text(lines[i], inner), " "@ + lines[i].0 + ": "@)
        }),
{
    let n = lines.len() as int;
    if 0 <= i < n {
        let head = " "@ + lines[i].0 + ": "@;
        assert(tool_text(lines[i], inner).take(head.len() as int) =~= head);
    }
}

/// How a subagent ended is told from its reply: cancelled, failed, or after so many turns.
pub proof fn law_the_end_of_a_subagent_is_told(reply: Seq<char>, turns: usize)
    ensures
        has_prefix(reply, "[subagent cancelled by user]"@) ==> outcome(Some(reply), turns).2
            == "cancelled"@ && outcome(Some(reply), turns).1 == Color::Red,
        !has_prefix(reply, "[subagent cancelled by user]"@) && has_prefix(
            reply,
            "[subagent errored"@,
        ) ==> outcome(Some(reply), turns).2 == "errored"@ && outcome(Some(reply), turns).1
            == Color::Red,
        !has_prefix(reply, "[subagent cancelled by user]"@) && !has_prefix(
            reply,
            "[subagent errored"@,
        ) ==> outcome(Some(reply), turns).2 == dec(turns as nat) + " turns"@ && outcome(
            Some(reply),
            turns,
        ).1 == Color::Green,
{
}

/// A block begins with its header row, under which its tools stand; a running one ends in
/// a rule, and one that is done without a reply does too.
pub proof fn law_a_block_has_a_header(
    q: PageV,
    e: BlockV,
    b: Seq<BlockView>,
    subs: crate::agent_panel::subagents::SubagentsV,
    code: crate::agent_panel::state::CodeV,
    t: ThrobberV,
    entry: usize,
    width: int,
    now: u64,
)
    requires
        q.rows.len() <= usize::MAX,
    ensures
        ({
            let r = subagent_page(q, e, b, subs, code, t, entry, width, now);
            let n = q.rows.len() as int;
            &&& r.header == Some(n as usize)
            &&& r.rows.len() > n
            &&& r.rows[n].line[2].text == e.agentType + " "@
            &&& !e.done || e.content is None ==> r.rows.len() == n + 2 + tool_rows(
                e.toolLines,
                e.done,
                crate::agent_panel::boxes::inner_width(width),
            ).len()
        }),
{
}

// ---- code ----

/// A code block of more than six lines shows six of them and tells how many are hidden;
/// unfolded it shows all, and a short one always does.
pub proof fn law_long_code_is_folded(
    c: crate::agent_panel::state::CodeV,
    id: (usize, usize),
    total: int,
    now: u64,
)
    requires
        0 <= total,
    ensures
        total <= 6 ==> c.plan(id, total, now).visible == total && c.plan(id, total, now).top is None,
        total > 6 && !c.expanded.contains(id) ==> c.plan(id, total, now).visible == 6 && c.plan(
            id,
            total,
            now,
        ).top == Some("\u{25BE}"@ + dec((total - 6) as nat)),
        total > 6 && c.expanded.contains(id) ==> c.plan(id, total, now).visible == total,
        c.copiedFlash matches Some(f) ==> (c.plan(id, total, now).copied <==> f.0 == id && (now
            < f.1 || now - f.1 < 2000)),
        c.copiedFlash is None ==> !c.plan(id, total, now).copied,
{
}

// ---- the prompt ----

/// The prompt names the tool, says which key does what, offers every pattern in order and
/// ends with the one that can be typed; the chosen one is marked.
pub proof fn law_the_prompt_offers_its_patterns(
    p: PanelV,
    code: Seq<Seq<SpanV>>,
    width: int,
    inline: bool,
    i: int,
)
    requires
        0 <= i < p.permit.patterns.len(),
    ensures
        ({
            let l = permit_lines(p, code, width, inline);
            let n = p.permit.patterns.len() as int;
            let at = l.len() - 1 - n;
            &&& at >= 3
            &&& l[at + i][1].text == p.permit.patterns[i]
            &&& (l[at + i][0].text == " \u{25b8}"@ <==> i == p.permit.selected
                && !p.permit.editing)
            &&& l.last()[1].text == "custom: "@
            &&& has_prefix(l.last()[2].text, p.permit.custom)
            &&& l[at - 3][0].text == "  [y]"@ && l[at - 3][1].text == " allow  "@
            &&& l[at - 3][2].text == "[A]"@ && l[at - 3][3].text == " always allow"@
            &&& l[at - 2][0].text == "  [n]"@ && l[at - 2][1].text == " deny   "@
            &&& l[at - 2][2].text == "[D]"@ && l[at - 2][3].text == " always deny"@
        }),
        header_left(p).last().text.len() > p.permit.toolName.len(),
        header_left(p).last().text.subrange(2, 2 + p.permit.toolName.len() as int) == p.permit.toolName,
{
    reveal_strlit(" \u{25b8}");
    reveal_strlit("  ");
    reveal_strlit("\u{2500} ");
    assert(" \u{25b8}"@[1] != "  "@[1]);
    let l = permit_lines(p, code, width, inline);
    let m = p.permit;
    assert(custom_line(m)[2].text.take(m.custom.len() as int) =~= m.custom);
    let t = header_left(p).last().text;
    assert(t.subrange(2, 2 + m.toolName.len() as int) =~= m.toolName);
}

// ---- copying ----

/// What is copied of several rows: rows of one line are joined without a break, lines are
/// parted by one, and nothing is left out.
pub proof fn law_copied_rows_are_joined(s: Seq<SegmentV>, n: int)
    requires
        1 < n <= s.len(),
    ensures
        ({
            let (a, b, t) = (rejoined(s, n - 1), rejoined(s, n), s[n - 1].text);
            &&& has_prefix(b, a)
            &&& !s[n - 1].cont ==> b == a + seq!['\n'] + t
            &&& s[n - 1].cont && a.len() > 0 && a.last() != ' ' && t.len() > 0 ==> b == a + seq![
                ' ',
            ] + t
            &&& s[n - 1].cont && (a.len() == 0 || a.last() == ' ' || t.len() == 0) ==> b == a + t
            &&& rejoined(s, 1) == s[0].text
        }),
{
    reveal_strlit("\n");
    reveal_strlit(" ");
    assert("\n"@ =~= seq!['\n']);
    assert(" "@ =~= seq![' ']);
    let (a, b) = (rejoined(s, n - 1), rejoined(s, n));
    assert(b.take(a.len() as int) =~= a);
    reveal_with_fuel(rejoined, 2);
}

/// Rows that are not copied give nothing, and rows of a code block give the code as it is
/// written, however far it is scrolled.
pub proof fn law_code_is_copied_as_written(
    p: PanelV,
    s: Selection,
    cells: Seq<Option<Seq<Seq<char>>>>,
    width: int,
    k: int,
    b: int,
)
    requires
        0 <= b < p.shown.blocks.len(),
        crate::agent_panel::blocks::block_at(
            p.shown.blocks,
            p.line_at(s.startLine + k),
            0,
        ) == Some(b),
        forall|j: int|
            0 <= j < p.shown.notCopied.len() ==> #[trigger] p.shown.notCopied[j] != p.line_at(
                s.startLine + k,
            ),
    ensures
        ({
            let r = p.shown.blocks[b];
            let at = p.line_at(s.startLine + k) - r.startLine - 1;
            let t = segment(p, s, cells, width, k);
            &&& !t.cont
            &&& p.line_at(s.startLine + k) == r.startLine ==> t.text.len() == 0
            &&& p.line_at(s.startLine + k) == r.endLine ==> t.text.len() == 0
            &&& p.line_at(s.startLine + k) != r.endLine && 0 <= at < r.contentLines.len()
                ==> t.text == r.contentLines[at]
        }),
{
}

/// A reply and its reasoning are selected together, and any other entry alone.
pub proof fn law_a_reply_goes_with_its_reasoning(e: Seq<EntryV>, i: int)
    requires
        0 <= i < e.len(),
    ensures
        group_of(e, i).0 <= i <= group_of(e, i).1,
        i > 0 && e[i] is Assistant && e[i - 1] is Reasoning ==> group_of(e, i) == (i - 1, i)
            && group_of(e, i - 1) == (i - 1, i),
        !(e[i] is Assistant) && !(e[i] is Reasoning) ==> group_of(e, i) == (i, i),
        e[i] is Assistant && (i == 0 || !(e[i - 1] is Reasoning)) ==> group_of(e, i) == (i, i),
{
}

// ---- what is going on ----

/// While the model works, a retry is announced before all else, then the call that it
/// writes, then that it thinks and for how long.
pub proof fn law_the_throbber_tells_what_goes_on(p: PanelV, start: u64, now: u64, c: CallV)
    requires
        start <= now,
        p.stream.thinkingStart == Some(start),
    ensures
        p.stream.retryStatus matches Some(r) ==> throbber_text(p, now) == " "@ + r,
        p.stream.retryStatus is None && p.tools.calls.len() == 0 && p.stream.reasoning.len() == 0
            ==> throbber_text(p, now) == " thinking ("@ + dec(((now - start) / 1000) as nat)
            + "s)"@,
        p.stream.retryStatus is None && p.tools.calls == seq![c] && c.name.len() > 0
            && !p.stream.reasoningActive ==> has_prefix(
            throbber_text(p, now),
            " preparing "@ + c.name,
        ),
{
    reveal_with_fuel(named_calls, 2);
    reveal_strlit(" ");
    reveal_strlit("preparing ");
    reveal_strlit(" preparing ");
    if p.stream.retryStatus is None && p.tools.calls == seq![c] && c.name.len() > 0
        && !p.stream.reasoningActive {
        let named = named_calls(p.tools.calls, 1);
        assert(named =~= seq![c]);
        let head = " preparing "@ + c.name;
        assert(throbber_text(p, now).take(head.len() as int) =~= head);
    }
}

// ---- selecting entries ----

/// A line of so many columns takes as many rows as it needs and no more; an empty one
/// takes one.
pub proof fn law_lines_take_the_rows_they_need(cols: int, width: int)
    requires
        0 <= cols,
        0 < width,
    ensures
        cols == 0 ==> height_of(cols, width) == 1,
        cols > 0 ==> (height_of(cols, width) - 1) * width < cols <= height_of(cols, width) * width,
{
    if cols > 0 {
        let q = (cols - 1) / width;
        vstd::arithmetic::div_mod::lemma_fundamental_div_mod(cols - 1, width);
        vstd::arithmetic::div_mod::lemma_mod_bound(cols - 1, width);
        assert(width * q == q * width) by (nonlinear_arith);
        assert((q + 1) * width == q * width + width) by (nonlinear_arith);
    }
}

/// The entry at a line is the first that does not end above it.
pub proof fn law_the_entry_at_a_line(
    p: PanelV,
    inp: Seq<InputV>,
    t: ThrobberV,
    width: int,
    now: u64,
    line: int,
    from: int,
)
    requires
        0 <= from,
    ensures
        match entry_at(p, inp, t, width, now, line, from) {
            Some(i) => from <= i < p.entries.len() && line <= entry_span(
                p,
                inp,
                t,
                width,
                now,
                i,
            ).1 && forall|j: int|
                from <= j < i ==> line > (#[trigger] entry_span(p, inp, t, width, now, j)).1,
            None => forall|j: int|
                from <= j < p.entries.len() ==> line > (#[trigger] entry_span(
                    p,
                    inp,
                    t,
                    width,
                    now,
                    j,
                )).1,
        },
    decreases p.entries.len() - from,
{
    if from < p.entries.len() {
        law_the_entry_at_a_line(p, inp, t, width, now, line, from + 1);
    }
}

/// An entry begins one row below where the one before it ends.
pub proof fn law_entries_follow_each_other(
    p: PanelV,
    inp: Seq<InputV>,
    t: ThrobberV,
    width: int,
    now: u64,
    i: int,
)
    requires
        0 < i,
        entry_span(p, inp, t, width, now, i - 1).1 < 1_000_000,
    ensures
        entry_span(p, inp, t, width, now, i).0 == entry_span(p, inp, t, width, now, i - 1).1 + 1,
        entry_span(p, inp, t, width, now, 0).0 == 0,
{
}

/// Rows at the end of a selection that hold nothing are not copied, and no other row is
/// left out.
pub proof fn law_only_empty_rows_at_the_end_are_left_out(s: Seq<SegmentV>) -> (k: int)
    ensures
        0 <= k <= s.len(),
        without_tail(s) == s.take(k),
        forall|i: int| k <= i < s.len() ==> (#[trigger] s[i]).text.len() == 0,
        k > 0 ==> s[k - 1].text.len() > 0,
    decreases s.len(),
{
    if s.len() > 0 && s.last().text.len() == 0 {
        let k = law_only_empty_rows_at_the_end_are_left_out(s.drop_last());
        assert(s.drop_last().take(k) =~= s.take(k));
        assert forall|i: int| k <= i < s.len() implies (#[trigger] s[i]).text.len() == 0 by {
            if i < s.len() - 1 {
                assert(s.drop_last()[i].text.len() == 0);
            }
        }
        k
    } else {
        assert(s.take(s.len() as int) =~= s);
        s.len() as int
    }
}

} // verus!
