//! What holds of a resumed conversation.

use vstd::prelude::*;
use crate::agent_panel::entry::EntryV;
use crate::agent_panel::labels::law_decimal_is_read_back;
use crate::app::replay::{
    ChildSession, ChildTurn, Replay, SESSION_MARK, child_at, child_lines, child_of, child_turns,
    json_text_field, number_of, quoted, replayed, subagent_reply,
};
use crate::export::openai::compact_json;
use crate::text::{
    byte_len, cut_bytes, dec, has_prefix, law_a_cut_text_is_the_longest_that_fits,
    is_digit, lemma_found_behind, occurs_at, opt_text,
};
use crate::transcript::Turn;

verus! {

// ---- one more turn ----

/// A replay of one more turn goes on from the replay of those before it.
proof fn lemma_one_more(entries: Seq<EntryV>, turns: Seq<Turn>, t: Turn, kids: Seq<ChildSession>)
    ensures
        replayed(entries, turns.push(t), kids) == replayed(entries, turns, kids).step(t, kids),
{
    assert(turns.push(t).drop_last() =~= turns);
}

/// The reply of an assistant turn is shown, whatever else was recorded of the turn. Its
/// reasoning stands before it, where there is any.
pub proof fn law_replies_are_replayed(
    entries: Seq<EntryV>,
    turns: Seq<Turn>,
    t: Turn,
    kids: Seq<ChildSession>,
)
    requires
        t.role is Assistant,
    ensures
        ({
            let before = replayed(entries, turns, kids).entries;
            let after = replayed(entries, turns.push(t), kids).entries;
            let reasoned = t.reasoning matches Some(s) && s@.len() > 0;
            let thought = EntryV::Reasoning { text: t.reasoning->0@, expanded: false };
            let reply = EntryV::Assistant(t.content@);
            &&& t.content@.len() > 0 ==> after.last() == reply
            &&& t.content@.len() > 0 && reasoned ==> after == before.push(thought).push(reply)
            &&& t.content@.len() > 0 && !reasoned ==> after == before.push(reply)
            &&& t.content@.len() == 0 && reasoned ==> after == before.push(thought)
            &&& t.content@.len() == 0 && !reasoned ==> after == before
        }),
{
    lemma_one_more(entries, turns, t, kids);
}

/// What the user sent is shown word for word, with a note of how many images came with
/// it.
pub proof fn law_messages_are_replayed(
    entries: Seq<EntryV>,
    turns: Seq<Turn>,
    t: Turn,
    kids: Seq<ChildSession>,
)
    requires
        t.role is User,
    ensures
        ({
            let before = replayed(entries, turns, kids).entries;
            let after = replayed(entries, turns.push(t), kids).entries;
            let n = t.attachments;
            &&& after.len() == before.len() + 1
            &&& after.drop_last() == before
            &&& after.last() matches EntryV::User(text) && has_prefix(text, t.content@)
            &&& n == 0 ==> after.last()->User_0 == t.content@
            &&& n == 1 ==> after.last()->User_0.skip(t.content@.len() as int)
                == "\n[+1 image attached]"@
            &&& n > 1 ==> after.last()->User_0.skip(t.content@.len() as int) == "\n[+"@ + dec(
                n as nat,
            ) + " images attached]"@
        }),
{
    reveal_strlit("\n[+1 image attached]");
    reveal_strlit("\n[+");
    reveal_strlit("1 image");
    reveal_strlit(" images");
    reveal_strlit(" attached]");
    reveal_strlit(" images attached]");
    lemma_one_more(entries, turns, t, kids);
    let before = replayed(entries, turns, kids).entries;
    let after = replayed(entries, turns.push(t), kids).entries;
    let text = after.last()->User_0;
    assert(after.drop_last() =~= before);
    assert(text.take(t.content@.len() as int) =~= t.content@);
    if t.attachments == 1 {
        assert(text.skip(t.content@.len() as int) =~= "\n[+1 image attached]"@);
    } else if t.attachments > 1 {
        assert(text.skip(t.content@.len() as int) =~= "\n[+"@ + dec(t.attachments as nat)
            + " images attached]"@);
    }
}

/// A tool that was called is shown by its name and its arguments, which are whole where
/// they take no more than 80 bytes, and else end in an ellipsis.
pub proof fn law_calls_are_replayed(
    entries: Seq<EntryV>,
    turns: Seq<Turn>,
    t: Turn,
    kids: Seq<ChildSession>,
    c: Seq<char>,
)
    requires
        t.role is ToolCall,
        t.tool is Some,
        t.tool->0@ != "task"@,
        t.args is None ==> c.len() == 0,
        t.args matches Some(a) ==> compact_json(a@) == Some(c),
    ensures
        ({
            let before = replayed(entries, turns, kids).entries;
            let after = replayed(entries, turns.push(t), kids).entries;
            let whole = t.tool->0@ + ": "@ + c;
            &&& after.len() == before.len() + 1
            &&& after.drop_last() == before
            &&& after.last() is ToolApproved
            &&& byte_len(c) <= 80 ==> after.last()->ToolApproved_0 == whole
            &&& byte_len(c) > 80 ==> ({
                let shown = after.last()->ToolApproved_0;
                &&& shown.len() > t.tool->0@.len() + 2
                &&& shown.last() == '\u{2026}'
                &&& has_prefix(whole, shown.drop_last())
            })
        }),
{
    reveal_strlit(": ");
    reveal_strlit("\u{2026}");
    lemma_one_more(entries, turns, t, kids);
    let before = replayed(entries, turns, kids).entries;
    let after = replayed(entries, turns.push(t), kids).entries;
    assert(after.drop_last() =~= before);
    let shown = after.last()->ToolApproved_0;
    let whole = t.tool->0@ + ": "@ + c;
    if t.args is None {
        assert(shown =~= whole);
        assert(byte_len(c) == 0);
    } else if byte_len(c) > 80 {
        law_a_cut_text_is_the_longest_that_fits(c, 79, 0);
        let x = cut_bytes(c, 79);
        assert(x == c.take(x.len() as int));
        assert(whole.take(shown.len() - 1) =~= shown.drop_last());
    }
}

// ---- tasks ----

/// Whether `t` calls a task under the id `id`.
pub open spec fn calls_task(t: Turn, id: Seq<char>) -> bool {
    t.role is ToolCall && opt_text(t.tool) == Some("task"@) && opt_text(t.toolCallId) == Some(id)
}

/// Whether some turn calls a task under the id `id`.
pub open spec fn task_called(turns: Seq<Turn>, id: Seq<char>) -> bool {
    exists|i: int| 0 <= i < turns.len() && calls_task(#[trigger] turns[i], id)
}

proof fn lemma_awaited_was_called(
    entries: Seq<EntryV>,
    turns: Seq<Turn>,
    kids: Seq<ChildSession>,
    id: Seq<char>,
)
    requires
        replayed(entries, turns, kids).awaited.dom().contains(id),
    ensures
        task_called(turns, id),
    decreases turns.len(),
{
    reveal_strlit("task");
    reveal_strlit("tool");
    if turns.len() > 0 {
        let t = turns.last();
        if replayed(entries, turns.drop_last(), kids).awaited.dom().contains(id) {
            lemma_awaited_was_called(entries, turns.drop_last(), kids, id);
            let i = choose|i: int|
                0 <= i < turns.drop_last().len() && calls_task(#[trigger] turns.drop_last()[i], id);
            assert(calls_task(turns[i], id));
        } else {
            assert("task"@[1] != "tool"@[1]);
            assert(calls_task(turns[turns.len() - 1], id));
        }
    }
}

/// What a tool put out is shown under its name, word for word, unless it answers a task
/// that was called before.
pub proof fn law_results_are_replayed(
    entries: Seq<EntryV>,
    turns: Seq<Turn>,
    t: Turn,
    kids: Seq<ChildSession>,
)
    requires
        t.role is ToolResult,
        t.tool is Some,
        t.toolCallId matches Some(id) ==> !task_called(turns, id@),
    ensures
        replayed(entries, turns.push(t), kids).entries == replayed(
            entries,
            turns,
            kids,
        ).entries.push(EntryV::ToolResult { name: t.tool->0@, output: t.content@ }),
{
    lemma_one_more(entries, turns, t, kids);
    if t.toolCallId is Some && replayed(entries, turns, kids).awaited.dom().contains(
        t.toolCallId->0@,
    ) {
        lemma_awaited_was_called(entries, turns, kids, t.toolCallId->0@);
    }
}

/// Whether the calls that are awaited have places of their own among the entries.
spec fn places_apart(r: Replay) -> bool {
    &&& forall|k: Seq<char>| #[trigger]
        r.awaited.dom().contains(k) ==> 0 <= r.awaited[k] < r.entries.len()
    &&& forall|k: Seq<char>, l: Seq<char>|
        #![trigger r.awaited[k], r.awaited[l]]
        r.awaited.dom().contains(k) && r.awaited.dom().contains(l) && k != l ==> r.awaited[k]
            != r.awaited[l]
}

proof fn lemma_places_apart(entries: Seq<EntryV>, turns: Seq<Turn>, kids: Seq<ChildSession>)
    ensures
        places_apart(replayed(entries, turns, kids)),
    decreases turns.len(),
{
    if turns.len() > 0 {
        lemma_places_apart(entries, turns.drop_last(), kids);
    }
}

/// Whether `t` has to do with the task under the id `id`.
pub open spec fn touches(t: Turn, id: Seq<char>) -> bool {
    opt_text(t.toolCallId) == Some(id)
}

proof fn lemma_block_waits(
    entries: Seq<EntryV>,
    first: Seq<Turn>,
    more: Seq<Turn>,
    kids: Seq<ChildSession>,
    id: Seq<char>,
)
    requires
        replayed(entries, first, kids).awaited.dom().contains(id),
        forall|i: int| 0 <= i < more.len() ==> !touches(#[trigger] more[i], id),
    ensures
        ({
            let a = replayed(entries, first, kids);
            let b = replayed(entries, first + more, kids);
            &&& b.awaited.dom().contains(id)
            &&& b.awaited[id] == a.awaited[id]
            &&& b.entries.len() >= a.entries.len()
            &&& b.entries[a.awaited[id]] == a.entries[a.awaited[id]]
        }),
    decreases more.len(),
{
    if more.len() == 0 {
        assert(first + more =~= first);
    } else {
        assert((first + more).drop_last() =~= first + more.drop_last());
        assert forall|i: int| 0 <= i < more.drop_last().len() implies !touches(
            #[trigger] more.drop_last()[i],
            id,
        ) by {
            assert(!touches(more[i], id));
        }
        lemma_block_waits(entries, first, more.drop_last(), kids, id);
        lemma_places_apart(entries, first, kids);
        lemma_places_apart(entries, first + more.drop_last(), kids);
        let t = more.last();
        assert(t == more[more.len() - 1]);
        assert(!touches(t, id));
        let r = replayed(entries, first + more.drop_last(), kids);
        if t.role is ToolResult && t.toolCallId is Some && r.awaited.dom().contains(
            t.toolCallId->0@,
        ) {
            assert(r.awaited[t.toolCallId->0@] != r.awaited[id]);
        }
    }
}

/// A task is shown as a block that says which agent works on what. Its result is shown
/// in that block, however many other turns come between, and adds no entry.
pub proof fn law_tasks_are_replayed(
    entries: Seq<EntryV>,
    first: Seq<Turn>,
    call: Turn,
    more: Seq<Turn>,
    result: Turn,
    kids: Seq<ChildSession>,
    sid: Seq<char>,
    reply: Seq<char>,
)
    requires
        call.toolCallId is Some,
        calls_task(call, call.toolCallId->0@),
        call.args is Some,
        forall|i: int| 0 <= i < more.len() ==> !touches(#[trigger] more[i], call.toolCallId->0@),
        result.role is ToolResult,
        touches(result, call.toolCallId->0@),
        result.content@ == "[subagent session: "@ + sid + "]\n\n"@ + reply,
        !sid.contains(']'),
    ensures
        ({
            let before = replayed(entries, first + seq![call] + more, kids).entries;
            let after = replayed(
                entries,
                (first + seq![call] + more).push(result),
                kids,
            ).entries;
            let at = replayed(entries, first, kids).entries.len() as int;
            &&& after.len() == before.len()
            &&& forall|i: int|
                0 <= i < after.len() && i != at ==> #[trigger] after[i] == before[i]
            &&& at < after.len()
            &&& after[at] matches EntryV::SubagentBlock(b) && {
                &&& b.done
                &&& b.sessionId == Some(sid)
                &&& b.content == (if reply.len() == 0 || reply
                    == "Task completed (no text output)."@ {
                    None::<Seq<char>>
                } else {
                    Some(reply)
                })
                &&& (json_text_field(call.args->0@, "agent"@) matches Some(a) ==> b.agentType == a)
                &&& (json_text_field(call.args->0@, "agent"@) is None ==> b.agentType
                    == "general"@)
                &&& (json_text_field(call.args->0@, "prompt"@) matches Some(p) ==> b.prompt == p)
                &&& (b.toolLines, b.turns as int) == (
                    child_of(kids, Some(sid)).0,
                    child_of(kids, Some(sid)).1 as usize as int,
                )
            }
        }),
{
    let id = call.toolCallId->0@;
    let with_call = first + seq![call];
    assert(with_call =~= first.push(call));
    lemma_one_more(entries, first, call, kids);
    lemma_block_waits(entries, with_call, more, kids, id);
    lemma_places_apart(entries, with_call + more, kids);
    lemma_one_more(entries, with_call + more, result, kids);
    lemma_reply(sid, reply);
}

/// The result of a task names its session; what stands behind it is the reply.
proof fn lemma_reply(sid: Seq<char>, reply: Seq<char>)
    requires
        !sid.contains(']'),
    ensures
        subagent_reply("[subagent session: "@ + sid + "]\n\n"@ + reply) == (Some(sid), reply),
{
    reveal_strlit("]\n\n");
    reveal_strlit("]");
    reveal_strlit("\n\n");
    reveal_strlit("[subagent session: ");
    let none = Seq::<char>::empty();
    let raw = "[subagent session: "@ + sid + "]\n\n"@ + reply;
    let tail = sid + "]\n\n"@ + reply;
    assert(raw =~= none + SESSION_MARK@ + tail);
    lemma_found_behind(none, SESSION_MARK@, tail);
    let body = "\n\n"@ + reply;
    assert(tail =~= sid + "]"@ + body);
    assert forall|j: int| 0 <= j < sid.len() implies !#[trigger] occurs_at(tail, "]"@, j) by {
        if occurs_at(tail, "]"@, j) {
            assert(tail.subrange(j, j + 1)[0] == ']');
            assert(sid.contains(sid[j]));
        }
    }
    lemma_found_behind(sid, "]"@, body);
    assert(body.take(2) =~= "\n\n"@);
    assert(body.skip(2) =~= reply);
}

// ---- subagents ----

/// What a subagent did is found by its session.
pub proof fn law_the_work_of_a_subagent_is_found(kids: Seq<ChildSession>, i: int)
    requires
        0 <= i < kids.len(),
        forall|j: int|
            0 <= j < i ==> (#[trigger] kids[j]).sessionId@ != kids[i].sessionId@,
    ensures
        child_of(kids, Some(kids[i].sessionId@)) == (
            child_lines(kids[i].turns@),
            child_turns(kids[i].turns@),
        ),
{
    lemma_child_at(kids, i, 0);
}

proof fn lemma_child_at(kids: Seq<ChildSession>, i: int, from: int)
    requires
        0 <= from <= i < kids.len(),
        forall|j: int|
            0 <= j < i ==> (#[trigger] kids[j]).sessionId@ != kids[i].sessionId@,
    ensures
        child_at(kids, kids[i].sessionId@, from) == Some(i),
    decreases i - from,
{
    if from < i {
        assert(kids[from].sessionId@ != kids[i].sessionId@);
        lemma_child_at(kids, i, from + 1);
    }
}

/// Each call and each result of a subagent's tools leaves a line with the tool's name,
/// in the order of the turns: what the call does, or the beginning of what came out. Its
/// own turns are counted.
pub proof fn law_a_subagents_tools_leave_lines(turns: Seq<ChildTurn>, t: ChildTurn)
    requires
        t.tool is Some,
    ensures
        ({
            let before = child_lines(turns);
            let after = child_lines(turns.push(t));
            &&& t.role is ToolCall && t.summary is Some ==> after == before.push(
                (t.tool->0@, t.summary->0@),
            )
            &&& t.role is ToolCall && t.summary is None ==> after == before.push(
                (t.tool->0@, t.tool->0@ + " (parse error)"@),
            )
            &&& t.role is ToolResult && byte_len(t.content@) <= 60 ==> after == before.push(
                (t.tool->0@, t.content@),
            )
            &&& t.role is ToolResult ==> after.drop_last() == before && after.last().0
                == t.tool->0@
            &&& !(t.role is ToolCall) && !(t.role is ToolResult) ==> after == before
            &&& child_turns(turns.push(t)) == child_turns(turns) + (if t.role is Assistant {
                1int
            } else {
                0
            })
        }),
{
    assert(turns.push(t).drop_last() =~= turns);
    if t.role is ToolResult {
        assert(child_lines(turns.push(t)).drop_last() =~= child_lines(turns));
    }
}

// ---- wakes ----

/// Whether `value` is what stands in `s` behind the first `key`, up to a quote.
pub open spec fn reads(s: Seq<char>, key: Seq<char>, value: Seq<char>) -> bool {
    exists|a: Seq<char>, b: Seq<char>| #[trigger] is_read(s, a, key, value, b)
}

/// Whether `s` is `a`, in which `key` does not begin, then `key`, `value`, a quote and
/// `b`.
pub open spec fn is_read(
    s: Seq<char>,
    a: Seq<char>,
    key: Seq<char>,
    value: Seq<char>,
    b: Seq<char>,
) -> bool {
    &&& s == a + key + value + "\""@ + b
    &&& !value.contains('"')
    &&& forall|j: int| 0 <= j < a.len() ==> !#[trigger] occurs_at(s, key, j)
}

proof fn lemma_quoted(s: Seq<char>, key: Seq<char>, value: Seq<char>)
    requires
        key.len() > 0,
        reads(s, key, value),
    ensures
        quoted(s, key) == Some(value),
{
    reveal_strlit("\"");
    let (a, b) = choose|a: Seq<char>, b: Seq<char>| #[trigger] is_read(s, a, key, value, b);
    let rest = value + "\""@ + b;
    assert(s =~= a + key + rest);
    lemma_found_behind(a, key, rest);
    assert forall|j: int| 0 <= j < value.len() implies !#[trigger] occurs_at(rest, "\""@, j) by {
        if occurs_at(rest, "\""@, j) {
            assert(rest.subrange(j, j + 1)[0] == '"');
            assert(value.contains(value[j]));
        }
    }
    lemma_found_behind(value, "\""@, b);
}

/// A turn that wakes caused is shown by a notice with the source of the first, and with
/// how many there were where it was more than one.
pub proof fn law_wakes_are_replayed(
    entries: Seq<EntryV>,
    turns: Seq<Turn>,
    t: Turn,
    kids: Seq<ChildSession>,
    n: nat,
    source: Seq<char>,
)
    requires
        t.role is Wake,
        n <= usize::MAX,
        reads(t.content@, "count=\""@, dec(n)),
        reads(t.content@, "source=\""@, source),
    ensures
        ({
            let before = replayed(entries, turns, kids).entries;
            let after = replayed(entries, turns.push(t), kids).entries;
            &&& n > 1 ==> after == before.push(
                EntryV::SessionNotice(
                    "\u{2299} "@ + dec(n) + " wakes (first: "@ + source + ")"@,
                ),
            )
            &&& n <= 1 ==> after == before.push(
                EntryV::SessionNotice("\u{2299} wake \u{00B7} "@ + source),
            )
        }),
{
    reveal_strlit("count=\"");
    reveal_strlit("source=\"");
    lemma_one_more(entries, turns, t, kids);
    lemma_quoted(t.content@, "count=\""@, dec(n));
    lemma_quoted(t.content@, "source=\""@, source);
    law_decimal_is_read_back(n);
    assert(is_digit(dec(n)[0]));
    assert(number_of(dec(n)) == Some(n as int));
}

} // verus!
