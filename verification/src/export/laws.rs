//! What holds of what is exported.

use vstd::prelude::*;
use crate::export::openai::{
    assembleAssistantTarget, buildExample, Example, reasoningTraces, wireArgs,
    AssistantMessage, ExampleMessage, are_messages, call_views, calls_after, compact_json,
    example_len, is_target, target_calls, traces,
};
use crate::export::{
    ExportArgs, ExportScope, Segment, SessionVerdict, Tally, exportScope, headTurnId,
    judgeSession,
    RequestSnapshot, SegmentV, SnapshotV, assistant_turns, entry_lines, entry_map, extends,
    law_every_usable_turn_is_in_a_segment, law_segments_are_ordered, segments_of,
};
use crate::text::{texts, opt_text, trimmed};
use crate::transcript::{Turn, TurnStatus};

verus! {

// ---- the training target ----

/// What the assistant wrote is in the target exactly where it wrote something, whatever
/// follows in the branch, and so is its reasoning.
pub proof fn law_a_target_holds_the_text(m: AssistantMessage, branch: Seq<Turn>, i: int)
    requires
        0 <= i < branch.len(),
        is_target(m, branch, i),
    ensures
        branch[i].content@.len() > 0 ==> opt_text(m.content) == Some(branch[i].content@),
        branch[i].content@.len() == 0 ==> m.content is None,
        opt_text(m.reasoning) == opt_text(branch[i].reasoning),
{
}

/// Whether the turns behind turn `i`, up to turn `j`, are tool calls in its block.
pub open spec fn only_calls_up_to(branch: Seq<Turn>, i: int, j: int) -> bool {
    forall|k: int|
        i < k <= j ==> (#[trigger] branch[k]).role is ToolCall && branch[k].blockId@
            == branch[i].blockId@
}

proof fn lemma_calls_reach(branch: Seq<Turn>, i: int, from: int, j: int)
    requires
        0 <= i < from <= j + 1,
        j < branch.len(),
        only_calls_up_to(branch, i, j),
    ensures
        calls_after(branch, i, from) == (j + 1 - from) + calls_after(branch, i, j + 1),
    decreases j + 1 - from,
{
    if from <= j {
        assert(branch[from].role is ToolCall);
        lemma_calls_reach(branch, i, from + 1, j);
    }
}

proof fn lemma_calls_some(branch: Seq<Turn>, i: int, j: int)
    ensures
        calls_after(branch, i, j) >= 0,
    decreases branch.len() - j,
{
    if j < branch.len() && branch[j].blockId@ == branch[i].blockId@ && branch[j].role is ToolCall {
        lemma_calls_some(branch, i, j + 1);
    }
}

/// A tool call that follows the assistant's turn in its block, with nothing but tool
/// calls of that block between, is in the target at its place, under its own id and
/// name, with the arguments that were recorded.
pub proof fn law_a_target_holds_its_calls(m: AssistantMessage, branch: Seq<Turn>, i: int, j: int)
    requires
        0 <= i < j < branch.len(),
        is_target(m, branch, i),
        only_calls_up_to(branch, i, j),
    ensures
        m.toolCalls is Some,
        j - i - 1 < m.toolCalls->0@.len(),
        ({
            let c = m.toolCalls->0@[j - i - 1];
            &&& c.callType@ == "function"@
            &&& branch[j].toolCallId matches Some(id) ==> c.id@ == id@
            &&& branch[j].tool matches Some(name) ==> c.name@ == name@
            &&& branch[j].args matches Some(a) ==> (compact_json(a@) matches Some(t)
                ==> c.arguments@ == t)
            &&& branch[j].args is None ==> c.arguments@ == "{}"@
        }),
{
    lemma_calls_reach(branch, i, i + 1, j);
    lemma_calls_some(branch, i, j + 1);
    let calls = target_calls(branch, i);
    let k = j - i - 1;
    assert(calls.len() > k);
    assert(call_views(m.toolCalls->0@)[k] == calls[k]);
}

/// A turn that is no call, or is in another block, ends the calls of a target.
pub proof fn law_a_target_holds_no_other_calls(
    m: AssistantMessage,
    branch: Seq<Turn>,
    i: int,
    j: int,
)
    requires
        0 <= i < j <= branch.len(),
        is_target(m, branch, i),
        only_calls_up_to(branch, i, j - 1),
        j == branch.len() || !(branch[j].role is ToolCall) || branch[j].blockId@
            != branch[i].blockId@,
    ensures
        j == i + 1 ==> m.toolCalls is None,
        j > i + 1 ==> m.toolCalls is Some && m.toolCalls->0@.len() == j - i - 1,
{
    lemma_calls_reach(branch, i, i + 1, j - 1);
    assert(calls_after(branch, i, j) == 0);
    assert(target_calls(branch, i).len() == j - i - 1);
    if m.toolCalls is Some {
        assert(call_views(m.toolCalls->0@).len() == m.toolCalls->0@.len());
    }
}

// ---- examples ----

/// An example holds the system prompt where there is one, then every stored message in
/// order, then the target, which the text of its turn is in.
pub proof fn law_an_example_holds_every_message(
    m: Seq<ExampleMessage>,
    system: Option<Seq<char>>,
    stored: Seq<Seq<char>>,
    branch: Seq<Turn>,
    asst: int,
    k: int,
)
    requires
        0 <= asst < branch.len(),
        0 <= k < stored.len(),
        are_messages(m, system, stored, branch, asst),
    ensures
        system matches Some(t) ==> m.len() == stored.len() + 2 && (
        m[0] matches ExampleMessage::System(s) && s@ == t) && (
        m[k + 1] matches ExampleMessage::Stored(s) && s@ == stored[k]),
        system is None ==> m.len() == stored.len() + 1 && (m[k] matches ExampleMessage::Stored(s)
            && s@ == stored[k]),
        m.last() matches ExampleMessage::Target(t) && (branch[asst].content@.len() > 0
            ==> opt_text(t.content) == Some(branch[asst].content@)),
{
    assert(stored[k] == stored[k]);
}

/// An example has a message for the system prompt where the segment has one, one for
/// each message of the last request, and the target.
pub proof fn law_examples_count_every_message(s: SegmentV)
    ensures
        s.anchor.system is Some ==> example_len(s) == s.last.messages.len() + 2,
        s.anchor.system is None ==> example_len(s) == s.last.messages.len() + 1,
{
}

/// Of each assistant turn of a segment there is one trace, in order: its reasoning, or
/// an empty text where it has none. Other turns leave none.
pub proof fn law_traces_follow_the_turns(branch: Seq<Turn>, from: int, j: int, to: int)
    requires
        0 <= from <= j < to <= branch.len(),
    ensures
        ({
            let (a, b, all) = (
                traces(branch, from, j),
                traces(branch, from, j + 1),
                traces(branch, from, to),
            );
            &&& branch[j].role is Assistant ==> a.len() < all.len() && all[a.len() as int] == (
            match branch[j].reasoning {
                Some(s) => s@,
                None => Seq::<char>::empty(),
            })
            &&& branch[j].role is Assistant ==> b.len() == a.len() + 1
            &&& !(branch[j].role is Assistant) ==> b == a
            &&& b.len() <= all.len()
            &&& all.take(b.len() as int) == b
            &&& traces(branch, from, from).len() == 0
        }),
    decreases to - j,
{
    let all = traces(branch, from, to);
    let b = traces(branch, from, j + 1);
    if to > j + 1 {
        law_traces_follow_the_turns(branch, from, j, to - 1);
        let less = traces(branch, from, to - 1);
        assert(all.take(less.len() as int) =~= less);
        assert(all.take(b.len() as int) =~= less.take(b.len() as int));
    } else {
        assert(all.take(b.len() as int) =~= b);
    }
}

// ---- segments ----

/// Every assistant turn that was completed, or any where cancelled ones are wanted,
/// whose request is in the index, is in a segment. The segment's anchor has the same
/// system prompt and tools, and its messages come first among those of the turn.
pub proof fn law_no_recorded_turn_is_left_out(
    branch: Seq<Turn>,
    index: Map<Seq<char>, SnapshotV>,
    includeCancelled: bool,
    i: int,
) -> (k: int)
    requires
        0 <= i < branch.len(),
        branch[i].role is Assistant,
        branch[i].status == TurnStatus::Completed || includeCancelled,
        branch[i].snapshotHash is Some,
        index.dom().contains(branch[i].snapshotHash->0@),
    ensures
        ({
            let r = segments_of(branch, index, includeCancelled, branch.len() as int);
            let s = index[branch[i].snapshotHash->0@];
            &&& 0 <= k < r.len()
            &&& r[k].anchorIdx <= i <= r[k].lastAsstIdx
            &&& r[k].anchor.system == s.system
            &&& r[k].anchor.tools == s.tools
            &&& r[k].anchor.messages.len() <= s.messages.len()
            &&& s.messages.take(r[k].anchor.messages.len() as int) == r[k].anchor.messages
        }),
{
    let n = branch.len() as int;
    law_every_usable_turn_is_in_a_segment(branch, index, includeCancelled, n, i);
    let r = segments_of(branch, index, includeCancelled, n);
    let s = index[branch[i].snapshotHash->0@];
    choose|k: int|
        #![trigger r[k]]
        0 <= k < r.len() && r[k].anchorIdx <= i <= r[k].lastAsstIdx && extends(
            r[k].anchor,
            s,
        )
}

/// The two ends of a segment are assistant turns with a recorded request, and neither
/// was cancelled unless cancelled turns are wanted. The segment carries their requests.
pub proof fn law_a_segment_ends_in_recorded_turns(
    branch: Seq<Turn>,
    index: Map<Seq<char>, SnapshotV>,
    includeCancelled: bool,
    k: int,
)
    requires
        0 <= k < segments_of(branch, index, includeCancelled, branch.len() as int).len(),
    ensures
        ({
            let r = segments_of(branch, index, includeCancelled, branch.len() as int)[k];
            let (a, b) = (branch[r.anchorIdx], branch[r.lastAsstIdx]);
            &&& 0 <= r.anchorIdx <= r.lastAsstIdx < branch.len()
            &&& a.role is Assistant && b.role is Assistant
            &&& !includeCancelled ==> a.status == TurnStatus::Completed && b.status
                == TurnStatus::Completed
            &&& a.snapshotHash matches Some(h) && index.dom().contains(h@) && r.anchor
                == index[h@]
            &&& b.snapshotHash matches Some(h) && index.dom().contains(h@) && r.last == index[h@]
        }),
{
    law_segments_are_ordered(branch, index, includeCancelled, branch.len() as int);
    let r = segments_of(branch, index, includeCancelled, branch.len() as int);
    assert(r[k] == r[k]);
}

/// A segment ends where the next recorded turn has another system prompt or other
/// tools, or does not go on from the messages of the segment's anchor; and only there.
pub proof fn law_segments_break_where_requests_do(
    branch: Seq<Turn>,
    index: Map<Seq<char>, SnapshotV>,
    includeCancelled: bool,
    n: int,
)
    requires
        0 <= n < branch.len(),
        branch[n].role is Assistant,
        branch[n].status == TurnStatus::Completed || includeCancelled,
        branch[n].snapshotHash is Some,
        index.dom().contains(branch[n].snapshotHash->0@),
        segments_of(branch, index, includeCancelled, n).len() > 0,
    ensures
        ({
            let q = segments_of(branch, index, includeCancelled, n);
            let r = segments_of(branch, index, includeCancelled, n + 1);
            let (a, s) = (q.last().anchor, index[branch[n].snapshotHash->0@]);
            let goes_on = a.system == s.system && a.tools == s.tools && a.messages.len()
                <= s.messages.len() && s.messages.take(a.messages.len() as int) == a.messages;
            &&& goes_on ==> r.len() == q.len() && r.last().anchorIdx == q.last().anchorIdx
            &&& !goes_on ==> r.len() == q.len() + 1 && r.last().anchorIdx == n && r.drop_last()
                == q
            &&& r.last().lastAsstIdx == n
        }),
{
    let q = segments_of(branch, index, includeCancelled, n);
    let r = segments_of(branch, index, includeCancelled, n + 1);
    if r.len() == q.len() + 1 {
        assert(r.drop_last() =~= q);
    }
}

// ---- the index ----

/// The line of an index that was read last counts for its hash, and others stay.
pub proof fn law_the_latest_snapshot_counts(
    e: Seq<(String, RequestSnapshot)>,
    hash: String,
    s: RequestSnapshot,
    other: Seq<char>,
)
    ensures
        entry_map(e.push((hash, s))).dom().contains(hash@),
        entry_map(e.push((hash, s)))[hash@] == s@,
        other != hash@ ==> entry_map(e.push((hash, s))).dom().contains(other) == entry_map(
            e,
        ).dom().contains(other) && entry_map(e.push((hash, s)))[other] == entry_map(e)[other],
{
    assert(e.push((hash, s)).drop_last() =~= e);
}

/// Every line that is not blank holds an entry, and no other line does.
pub proof fn law_only_blank_lines_are_skipped(lines: Seq<Seq<char>>, l: Seq<char>)
    ensures
        entry_lines(lines).contains(l) == (lines.contains(l) && trimmed(l).len() > 0),
        trimmed(l).len() > 0 ==> entry_lines(lines.push(l)) == entry_lines(lines).push(l),
        trimmed(l).len() == 0 ==> entry_lines(lines.push(l)) == entry_lines(lines),
{
    let f = |t: Seq<char>| trimmed(t).len() > 0;
    reveal(Seq::filter);
    assert(lines.push(l).drop_last() =~= lines);
    lemma_filter_contains(lines, l);
}

proof fn lemma_filter_contains(lines: Seq<Seq<char>>, l: Seq<char>)
    ensures
        entry_lines(lines).contains(l) == (lines.contains(l) && trimmed(l).len() > 0),
    decreases lines.len(),
{
    reveal(Seq::filter);
    let r = entry_lines(lines);
    if lines.len() > 0 {
        let q = entry_lines(lines.drop_last());
        lemma_filter_contains(lines.drop_last(), l);
        assert(lines.drop_last().push(lines.last()) =~= lines);
        if lines.contains(l) && lines.last() != l {
            let i = choose|i: int| 0 <= i < lines.len() && lines[i] == l;
            assert(lines.drop_last()[i] == l);
        }
        if lines.drop_last().contains(l) {
            let i = choose|i: int| 0 <= i < lines.len() - 1 && lines.drop_last()[i] == l;
            assert(lines[i] == l);
        }
        if lines.last() == l {
            assert(lines[lines.len() - 1] == l);
        }
        if trimmed(lines.last()).len() > 0 {
            assert(r == q.push(lines.last()));
            if q.contains(l) {
                let i = choose|i: int| 0 <= i < q.len() && q[i] == l;
                assert(r[i] == l);
            }
            if lines.last() == l {
                assert(r[r.len() - 1] == l);
            }
            if r.contains(l) && lines.last() != l {
                let i = choose|i: int| 0 <= i < r.len() && r[i] == l;
                assert(q[i] == l);
            }
        } else {
            assert(r == q);
        }
    }
}

/// Each assistant turn counts once, and no other turn does.
pub proof fn law_assistant_turns_are_counted(branch: Seq<Turn>, n: int)
    requires
        0 <= n < branch.len(),
    ensures
        assistant_turns(branch, 0) == 0,
        branch[n].role is Assistant ==> assistant_turns(branch, n + 1) == assistant_turns(branch, n)
            + 1,
        !(branch[n].role is Assistant) ==> assistant_turns(branch, n + 1) == assistant_turns(
            branch,
            n,
        ),
{
}

// ---- what is called ----

/// The target of an assistant turn holds its text, its reasoning and the calls that
/// directly follow it in its block.
pub proof fn law_targets_are_assembled(branch: Vec<Turn>, i: usize, m: AssistantMessage)
    requires
        i < branch@.len(),
        call_ensures(assembleAssistantTarget, (&branch, i), m),
    ensures
        branch@[i as int].content@.len() > 0 ==> (m.content matches Some(t) && t@
            == branch@[i as int].content@),
        branch@[i as int].content@.len() == 0 ==> m.content is None,
        opt_text(m.reasoning) == opt_text(branch@[i as int].reasoning),
        i + 1 < branch@.len() && branch@[i + 1].role is ToolCall && branch@[i + 1].blockId@
            == branch@[i as int].blockId@ ==> m.toolCalls is Some && m.toolCalls->0@.len() > 0 && (
        branch@[i + 1].tool matches Some(name) ==> m.toolCalls->0@[0].name@ == name@),
        i + 1 == branch@.len() ==> m.toolCalls is None,
{
    law_a_target_holds_the_text(m, branch@, i as int);
    if i + 1 < branch@.len() && branch@[i + 1].role is ToolCall && branch@[i + 1].blockId@
        == branch@[i as int].blockId@ {
        assert(only_calls_up_to(branch@, i as int, i + 1));
        law_a_target_holds_its_calls(m, branch@, i as int, i + 1);
    }
    if i + 1 == branch@.len() {
        assert(only_calls_up_to(branch@, i as int, i as int));
        law_a_target_holds_no_other_calls(m, branch@, i as int, i + 1);
    }
}

/// An example belongs to its session and its segment, and is made exactly where it has
/// enough messages.
pub proof fn law_examples_tell_where_they_come_from(
    sessionId: &str,
    k: usize,
    segment: Segment,
    branch: Vec<Turn>,
    system: Option<String>,
    stored: Vec<String>,
    tools: Vec<String>,
    noReasoning: bool,
    min: usize,
    r: Option<Example>,
)
    requires
        segment.anchorIdx <= segment.lastAsstIdx < branch@.len(),
        system is Some <==> segment.anchor.systemPromptHash is Some,
        stored@.len() == segment.last.messages@.len(),
        call_ensures(
            buildExample,
            (sessionId, k, &segment, &branch, system, &stored, tools, noReasoning, min),
            r,
        ),
    ensures
        ({
            let first: int = if system is Some {
                1
            } else {
                0
            };
            r is Some <==> first + stored@.len() + 1 >= min
        }),
        r matches Some(e) ==> {
            &&& e.flatline.sessionId@ == sessionId@
            &&& e.flatline.segmentIndex == k
            &&& e.flatline.turnRange@[0]@ == branch@[segment.anchorIdx as int].id@
            &&& e.flatline.turnRange@[1]@ == branch@[segment.lastAsstIdx as int].id@
            &&& e.tools@ == tools@
            &&& noReasoning ==> e.reasoning is None
            &&& branch@[segment.lastAsstIdx as int].snapshotHash matches Some(h)
                ==> e.flatline.snapshotHash@ == h@
            &&& e.flatline.model matches Some(n) && n@ == segment.last.model@
            &&& e.messages@.len() > 0 && e.messages@.last() is Target
        },
{
    assert(segment@.last.messages.len() == segment.last.messages@.len());
    assert(segment@.anchor.system is Some <==> segment.anchor.systemPromptHash is Some);
}

/// An export goes over everything where that is asked for, else over the one session that
/// is named, and is refused where none is.
pub proof fn law_exports_go_over_what_is_asked(args: ExportArgs, r: Result<ExportScope, String>)
    requires
        call_ensures(exportScope, (&args,), r),
    ensures
        args.all ==> r matches Ok(ExportScope::All),
        !args.all && args.sessionId is Some ==> (r matches Ok(ExportScope::One(s)) && Some(s)
            == args.sessionId),
        !args.all && args.sessionId is None ==> r is Err,
{
}

/// A session is exported where it has snapshots and belongs to the project that is asked
/// for; and each is counted as what it was.
pub proof fn law_sessions_are_judged_and_counted(
    recorded: bool,
    filter: Option<String>,
    dir: Option<String>,
    v: SessionVerdict,
)
    requires
        call_ensures(judgeSession, (recorded, &filter, &dir), v),
    ensures
        v is Export <==> recorded && (filter is None || (dir is Some && opt_text(filter) == opt_text(
            dir,
        ))),
        v is NoSnapshots <==> !recorded,
        v is Filtered <==> recorded && filter is Some && dir is Some && opt_text(filter) != opt_text(
            dir,
        ),
        forall|t: &mut Tally, failed: bool|
            t.room() && #[trigger] call_ensures(Tally::count, (t, v, failed), ()) ==> {
                &&& final(t).sessions == t.sessions + (if v is Export {
                    1int
                } else {
                    0
                })
                &&& final(t).filtered == t.filtered + (if v is Filtered {
                    1int
                } else {
                    0
                })
                &&& final(t).withoutSnapshots == t.withoutSnapshots + (if v is NoSnapshots {
                    1int
                } else {
                    0
                })
                &&& final(t).failed == t.failed + (if v is Export && failed {
                    1int
                } else {
                    0
                })
            },
{
}

/// The branch that is exported ends at the turn that the session recorded as its head,
/// else at its last turn.
pub proof fn law_the_head_is_the_recorded_turn(
    recorded: Option<String>,
    turns: Vec<Turn>,
    r: Option<String>,
)
    requires
        call_ensures(headTurnId, (&recorded, &turns), r),
    ensures
        recorded is Some ==> opt_text(r) == opt_text(recorded),
        recorded is None && turns@.len() > 0 ==> opt_text(r) == Some(turns@.last().id@),
        recorded is None && turns@.len() == 0 ==> r is None,
{
}

/// The reasoning of a segment is exported exactly where it is wanted and some assistant
/// turn of it has any.
pub proof fn law_reasoning_is_exported_where_there_is_any(
    branch: Vec<Turn>,
    from: usize,
    last: usize,
    no: bool,
    r: Option<Vec<String>>,
    j: int,
)
    requires
        from <= j <= last < branch@.len(),
        call_ensures(reasoningTraces, (&branch, from, last, no), r),
    ensures
        no ==> r is None,
        !no && branch@[j].role is Assistant && (branch@[j].reasoning matches Some(s) && s@.len()
            > 0) ==> r is Some,
        r matches Some(v) ==> !no && exists|i: int|
            0 <= i < v@.len() && (#[trigger] texts(v@)[i]).len() > 0,
{
    let t = traces(branch@, from as int, last + 1);
    law_traces_follow_the_turns(branch@, from as int, j, last + 1);
    if !no && branch@[j].role is Assistant && (branch@[j].reasoning matches Some(s) && s@.len()
        > 0) {
        let k = traces(branch@, from as int, j).len() as int;
        assert(t[k].len() > 0);
    }
    if r is Some {
        let k = choose|k: int| 0 <= k < t.len() && t[k].len() != 0;
        assert(texts(r->0@)[k].len() > 0);
    }
}

/// Arguments that cannot be read are sent as an empty object, and others as they were
/// recorded.
pub proof fn law_unreadable_arguments_are_empty(c: Option<String>, r: String)
    requires
        call_ensures(wireArgs, (c,), r),
    ensures
        c is None ==> r@ == "{}"@,
        c matches Some(t) ==> r@ == t@,
{
}

} // verus!
