//! What the conversation shows of a turn.

use vstd::prelude::*;
use crate::agent_panel::entry::{
    EntryV, WakeScheduleStatus, WakeV, lemma_wake_at, open_block, wake_at,
};
use crate::agent_panel::labels::law_source_id_reads_what_was_written;
use crate::agent_panel::state::{CallV, PanelV};
use crate::agent_panel::subagents::{SubagentsV, lemma_find};
use crate::jobs_panel::WakeKind;
use crate::text::{dec, has_prefix, is_digit};

verus! {

// ---- messages ----

/// What the user sent is the last entry of the conversation, word for word, with a note
/// of how many images go with it. The conversation so far stays, and a turn begins.
pub proof fn law_a_message_is_shown(p: PanelV, text: Seq<char>, now: u64)
    ensures
        ({
            let q = p.user_sent(text, now);
            let n = p.compose.attachments.len();
            &&& q.entries.len() == p.entries.len() + 1
            &&& q.entries.drop_last() == p.entries
            &&& q.entries.last() is User
            &&& n == 0 ==> q.entries.last() == EntryV::User(text)
            &&& n == 1 ==> q.entries.last() == EntryV::User(text + "\n[+1 image attached]"@)
            &&& n > 1 ==> q.entries.last() == EntryV::User(
                text + ("\n[+"@ + dec(n) + " images attached]"@),
            )
            &&& q.turnActive
            &&& q.stream.isStreaming
            &&& q.stream.thinkingStart == Some(now)
            &&& q.stream.content == p.stream.content
            &&& q.stream.pending == p.stream.pending
            &&& q.compose.attachments == p.compose.attachments
            &&& q.compose.queue == p.compose.queue
        }),
{
    reveal_strlit("\n[+1 image attached]");
    reveal_strlit("\n[+");
    reveal_strlit("1 image");
    reveal_strlit(" images");
    reveal_strlit(" attached]");
    reveal_strlit(" images attached]");
    let q = p.user_sent(text, now);
    assert(q.entries.drop_last() =~= p.entries);
    let n = p.compose.attachments.len();
    if n == 1 {
        assert(q.entries.last()->User_0 =~= text + "\n[+1 image attached]"@);
    } else if n > 1 {
        assert(q.entries.last()->User_0 =~= text + ("\n[+"@ + dec(n) + " images attached]"@));
    }
}

/// A wake begins a turn as a message does, and is shown as a notice that names it.
pub proof fn law_a_wake_is_noted(p: PanelV, summary: Seq<char>, now: u64)
    ensures
        ({
            let q = p.wake_turn(summary, now);
            &&& q.entries.len() == p.entries.len() + 1
            &&& q.entries.drop_last() == p.entries
            &&& q.entries.last() is SessionNotice
            &&& crate::text::trimmed(summary).len() > 0 ==> q.entries.last()
                == EntryV::SessionNotice("\u{2299} wake \u{00B7} "@ + summary)
            &&& crate::text::trimmed(summary).len() == 0 ==> q.entries.last()
                == EntryV::SessionNotice("\u{2299} wake"@)
            &&& q.turnActive
            &&& q.stream.isStreaming
        }),
{
    assert(p.wake_turn(summary, now).entries.drop_last() =~= p.entries);
}

/// Messages that waited are shown in their order, each as one entry, and none waits any
/// more.
pub proof fn law_waiting_messages_are_shown_in_order(p: PanelV, t: Seq<Seq<char>>, i: int)
    requires
        0 <= i < t.len(),
    ensures
        p.promoted(t).entries.len() == p.entries.len() + t.len(),
        p.promoted(t).entries.take(p.entries.len() as int) == p.entries,
        p.promoted(t).entries[p.entries.len() + i] == EntryV::User(t[i]),
        p.promoted(t).compose.queue.len() == 0,
{
    assert(p.promoted(t).entries.take(p.entries.len() as int) =~= p.entries);
}

// ---- what streams in ----

/// The message that streams in: what is revealed of it, and what is still to be.
pub open spec fn message(p: PanelV) -> Seq<char> {
    p.stream.content + p.stream.pending
}

/// What streams in during a turn is added at the end of the message, and nothing else
/// of the conversation changes; reasoning is kept apart from it.
pub proof fn law_what_streams_in_is_added(p: PanelV, text: Seq<char>, now: u64)
    requires
        p.turnActive,
    ensures
        message(p.content_arrived(text, now)) == message(p) + text,
        p.content_arrived(text, now).stream.content == p.stream.content,
        p.content_arrived(text, now).stream.reasoning == p.stream.reasoning,
        p.content_arrived(text, now).entries == p.entries,
        p.content_arrived(text, now).turnActive,
        p.content_arrived(text, now).stream.retryStatus is None,
        !p.content_arrived(text, now).stream.reasoningActive,
        p.content_arrived(text, now).tools == p.tools,
        p.content_arrived(text, now).permit == p.permit,
        p.content_arrived(text, now).compose == p.compose,
        p.reasoning_arrived(text, now).stream.reasoning == p.stream.reasoning + text,
        message(p.reasoning_arrived(text, now)) == message(p),
        p.reasoning_arrived(text, now).entries == p.entries,
        p.reasoning_arrived(text, now).turnActive,
        p.reasoning_arrived(text, now).stream.reasoningActive,
        p.reasoning_arrived(text, now).stream.retryStatus is None,
        p.reasoning_arrived(text, now).tools == p.tools,
        p.reasoning_arrived(text, now).permit == p.permit,
        p.reasoning_arrived(text, now).compose == p.compose,
{
    assert(message(p.content_arrived(text, now)) =~= message(p) + text);
}

/// A message that is complete stands in the conversation behind its reasoning, once it
/// is wholly revealed. Until then nothing of it is lost.
pub proof fn law_a_complete_message_is_shown(p: PanelV)
    ensures
        ({
            let q = p.finalized();
            let thought = EntryV::Reasoning { text: p.stream.reasoning, expanded: false };
            let before = if p.stream.reasoning.len() > 0 {
                p.entries.push(thought)
            } else {
                p.entries
            };
            &&& q.stream.reasoning.len() == 0
            &&& p.stream.pending.len() == 0 && p.stream.content.len() > 0 ==> q.entries
                == before.push(EntryV::Assistant(p.stream.content)) && message(q).len() == 0
                && !q.stream.deferredFinalize && !q.stream.isStreaming
            &&& p.stream.pending.len() == 0 && p.stream.content.len() == 0 ==> q.entries == before
            &&& p.stream.pending.len() > 0 ==> q.entries == before && message(q) == message(p)
                && q.stream.deferredFinalize
        }),
{
}

/// A message that was complete before it was wholly revealed joins the conversation with
/// the tick that finds it revealed.
pub proof fn law_a_revealed_message_joins_the_conversation(p: PanelV, now: u64)
    requires
        p.stream.deferredFinalize,
        p.stream.pending.len() == 0,
        p.stream.fade >= crate::agent_panel::state::FULL_FADE,
        p.stream.content.len() > 0,
    ensures
        p.revealed(now).1,
        p.revealed(now).0.entries == p.entries.push(EntryV::Assistant(p.stream.content)),
        message(p.revealed(now).0).len() == 0,
        !p.revealed(now).0.stream.deferredFinalize,
{
}

/// A tick adds to what is shown of a message only what streamed in, in its order, and
/// shows nothing of it before the delay is over.
pub proof fn law_a_tick_reveals_the_message(p: PanelV, now: u64)
    requires
        p.stream.pending.len() > 0,
    ensures
        p.revealed(now).0.entries == p.entries,
        message(p.revealed(now).0) == message(p),
        has_prefix(p.revealed(now).0.stream.content, p.stream.content),
        p.stream.revealStart matches Some(s) ==> now < s + 150 ==> p.revealed(now).0 == p,
{
    let q = p.revealed(now).0;
    crate::agent_panel::scrolling::law_reveal_keeps_the_message(p.stream, now);
    assert(q.stream.content.take(p.stream.content.len() as int) =~= p.stream.content);
}

// ---- tools ----

/// What a tool put out is the last entry, under the tool's name. What else stood in the
/// conversation before it stays, but for the row of the running tool, and the model goes
/// on thinking.
pub proof fn law_a_result_is_shown(p: PanelV, name: Seq<char>, output: Seq<char>, now: u64)
    requires
        p.turnActive,
    ensures
        ({
            let q = p.tool_result(name, output, now);
            &&& q.entries.len() > 0
            &&& q.entries.last() == (EntryV::ToolResult { name, output })
            &&& !q.tools.active
            &&& q.tools.startTime is None
            &&& q.stream.isStreaming
            &&& q.stream.thinkingStart == Some(now)
            &&& q.turnActive
            &&& no_active(p.entries) ==> q.entries.len() > p.entries.len() && q.entries.take(
                p.entries.len() as int,
            ) == p.entries
        }),
{
    let q = p.tool_result(name, output, now);
    if no_active(p.entries) {
        lemma_no_active(p.entries, p.entries.len() as int);
        assert(q.entries.take(p.entries.len() as int) =~= p.entries);
    }
}

/// Whether no row of a running tool is in the conversation.
pub open spec fn no_active(e: Seq<EntryV>) -> bool {
    forall|i: int| 0 <= i < e.len() ==> !(#[trigger] e[i] is ToolActive)
}

pub proof fn lemma_no_active(e: Seq<EntryV>, n: int)
    requires
        no_active(e),
        n <= e.len(),
    ensures
        crate::agent_panel::entry::last_active(e, n) is None,
    decreases n,
{
    if n > 0 {
        assert(!(e[n - 1] is ToolActive));
        lemma_no_active(e, n - 1);
    }
}

/// A tool that runs has a row with what it does, behind what was complete before it, and
/// its result takes the place of that row.
pub proof fn law_a_result_takes_the_place_of_the_running_tool(
    p: PanelV,
    summary: Seq<char>,
    started: u64,
    name: Seq<char>,
    output: Seq<char>,
    now: u64,
)
    requires
        p.turnActive,
    ensures
        ({
            let a = p.tool_started(summary, started);
            let b = a.tool_result(name, output, now);
            &&& a.entries.last() == EntryV::ToolActive(summary)
            &&& a.tools.active
            &&& a.tools.startTime == Some(started)
            &&& a.tools.calls.len() == 0
            &&& a.entries.drop_last() == p.finalized().entries
            &&& b.entries.len() == a.entries.len()
            &&& b.entries.drop_last() == a.entries.drop_last()
            &&& b.entries.last() == (EntryV::ToolResult { name, output })
            &&& message(b) == message(a)
            &&& a.turnActive && b.turnActive
        }),
{
    let a = p.tool_started(summary, started);
    let b = a.tool_result(name, output, now);
    assert(a.entries.drop_last() =~= p.finalized().entries);
    assert(crate::agent_panel::entry::last_active(a.entries, a.entries.len() as int) == Some(
        a.entries.len() - 1,
    ));
    assert(a.entries.remove(a.entries.len() - 1) =~= a.entries.drop_last());
    assert(b.entries.drop_last() =~= a.entries.drop_last());
}

/// The result of a tool whose receipt is shown elsewhere takes the row of the running
/// tool away and adds no entry.
pub proof fn law_a_silent_result_adds_nothing(p: PanelV, summary: Seq<char>, started: u64, now: u64)
    requires
        p.turnActive,
    ensures
        p.tool_started(summary, started).silent_result(now).entries == p.finalized().entries,
        !p.tool_started(summary, started).silent_result(now).tools.active,
{
    let a = p.tool_started(summary, started);
    assert(crate::agent_panel::entry::last_active(a.entries, a.entries.len() as int) == Some(
        a.entries.len() - 1,
    ));
    assert(a.entries.remove(a.entries.len() - 1) =~= p.finalized().entries);
}

/// A tool that was approved or refused is shown as such under its name, behind what was
/// complete before it. Without a turn nothing is shown.
pub proof fn law_verdicts_on_tools_are_shown(
    p: PanelV,
    name: Seq<char>,
    summary: Seq<char>,
    now: u64,
)
    ensures
        ({
            let denied = p.tool_refused(EntryV::ToolDenied(name));
            let blocked = p.tool_refused(EntryV::ToolAutoDenied { name, summary });
            &&& p.turnActive ==> p.tool_approved(name).entries == p.finalized().entries.push(
                EntryV::ToolApproved(name),
            )
            &&& p.turnActive ==> denied.entries == p.entries.push(EntryV::ToolDenied(name))
            &&& p.turnActive ==> blocked.entries == p.entries.push(
                EntryV::ToolAutoDenied { name, summary },
            )
            &&& p.turnActive ==> !denied.tools.active && !blocked.tools.active
            &&& p.turnActive ==> p.tool_approved(name).tools.calls.len() == 0
            &&& !p.turnActive ==> p.tool_approved(name) == p && denied == p && blocked == p
            &&& !p.turnActive ==> p.tool_started(summary, now) == p && p.tool_result(
                name,
                summary,
                now,
            ) == p && p.silent_result(now) == p
        }),
{
}

/// A call that the model is writing is shown at its place under its name, and grows with
/// the bytes of its arguments; other calls stay as they are.
pub proof fn law_calls_are_followed(
    p: PanelV,
    i: int,
    j: int,
    name: Seq<char>,
    bytes: usize,
    preview: Seq<char>,
    now: u64,
)
    requires
        p.turnActive,
        0 <= i,
        0 <= j < p.tools.calls.len(),
    ensures
        ({
            let q = p.call_pending(i, name, now);
            &&& i < q.tools.calls.len()
            &&& q.tools.calls[i].name == name
            &&& q.tools.calls.len() >= p.tools.calls.len()
            &&& j != i ==> q.tools.calls[j] == p.tools.calls[j]
            &&& i >= p.tools.calls.len() ==> q.tools.calls.len() == i + 1 && q.tools.calls[i].bytes
                == 0 && q.tools.calls[i].preview is None
            &&& i < p.tools.calls.len() ==> q.tools.calls[i].bytes == p.tools.calls[i].bytes
                && q.tools.calls[i].preview == p.tools.calls[i].preview
            &&& q.tools.callsStart == (if p.tools.callsStart is Some {
                p.tools.callsStart
            } else {
                Some(now)
            })
            &&& q.entries == p.entries
        }),
        p.call_progress(j, bytes).tools.calls == p.tools.calls.update(
            j,
            CallV { name: p.tools.calls[j].name, bytes, preview: p.tools.calls[j].preview },
        ),
        p.call_preview(j, preview).tools.calls == p.tools.calls.update(
            j,
            CallV {
                name: p.tools.calls[j].name,
                bytes: p.tools.calls[j].bytes,
                preview: Some(preview),
            },
        ),
        p.call_progress(j, bytes).entries == p.entries,
        p.call_preview(j, preview).entries == p.entries,
{
}

// ---- the end of a turn ----

/// A cancelled turn ends with a mark behind everything that was complete. Nothing that
/// stood in the conversation is taken away, and no tool runs any more.
pub proof fn law_a_cancelled_turn_is_marked(p: PanelV)
    requires
        p.turnActive,
    ensures
        p.turn_cancelled().entries == p.finalized().entries.push(EntryV::Cancelled),
        !p.turn_cancelled().turnActive,
        !p.turn_cancelled().tools.active,
        p.turn_cancelled().tools.calls.len() == 0,
        p.turn_cancelled().permit.pending == false,
        p.turn_finished().entries == p.finalized().entries,
        p.turn_finished().compose.queue == p.compose.queue,
        p.turn_finished().permit == p.permit,
        has_start(p.finalized().entries, p.entries),
{
    assert(p.finalized().entries.take(p.entries.len() as int) =~= p.entries);
}

/// Whether `e` begins with the entries of `s`.
pub open spec fn has_start(e: Seq<EntryV>, s: Seq<EntryV>) -> bool {
    s.len() <= e.len() && e.take(s.len() as int) == s
}

/// What a command gave is the last entry and ends what was going on; an error and a
/// notice are added and end nothing.
pub proof fn law_answers_and_errors_are_shown(p: PanelV, text: Seq<char>)
    ensures
        p.answered(EntryV::CommandResult(text)).entries == p.entries.push(
            EntryV::CommandResult(text),
        ),
        !p.answered(EntryV::CommandResult(text)).turnActive,
        !p.answered(EntryV::CommandResult(text)).stream.isStreaming,
        p.with_entry(EntryV::Error(text)).entries == p.entries.push(EntryV::Error(text)),
        p.with_entry(EntryV::Error(text)).turnActive == p.turnActive,
        p.with_entry(EntryV::Error(text)).stream == p.stream,
{
}

/// A retry is announced with its number and how many there will be at most.
pub proof fn law_a_retry_is_announced(p: PanelV, attempt: u32, limit: u32, now: u64)
    ensures
        p.retrying(attempt, limit, now).stream.retryStatus == Some(
            "retrying ("@ + dec(attempt as nat) + "/"@ + dec(limit as nat) + ")"@,
        ),
        p.retrying(attempt, limit, now).stream.thinkingStart == Some(now),
        p.retrying(attempt, limit, now).entries == p.entries,
        message(p.retrying(attempt, limit, now)) == message(p),
        p.retrying(attempt, limit, now).turnActive == p.turnActive,
{
}

// ---- wakes ----

/// A wake source that is scheduled gets a receipt with what it is and when it is due; a
/// source of another kind gets none.
pub proof fn law_a_scheduled_wake_has_a_receipt(
    p: PanelV,
    id: u64,
    kind: WakeKind,
    summary: Seq<char>,
    next: Option<u64>,
    now: u64,
)
    requires
        forall|i: int|
            0 <= i < p.entries.len() ==> !(#[trigger] p.entries[i] matches EntryV::WakeSchedule(w)
                && w.id == id),
    ensures
        ({
            let q = p.wake_registered(id, kind, summary, None, next, now);
            &&& kind is Delay || kind is Cron || kind is FileWatch ==> q.entries == p.entries.push(
                EntryV::WakeSchedule(
                    WakeV {
                        id,
                        kind,
                        summary,
                        prompt: None,
                        status: WakeScheduleStatus::Armed,
                        armed: true,
                        nextFireAt: next,
                        firesSoFar: 0,
                        registeredAt: now,
                    },
                ),
            )
            &&& kind is MonitorMatch || kind is TaskComplete ==> q == p
        }),
{
    lemma_wake_at(p.entries, id, 0);
    if wake_at(p.entries, id, 0) is Some {
        let i = wake_at(p.entries, id, 0)->0;
        assert(p.entries[i] is WakeSchedule);
    }
}

/// Whether the receipt of the source `id` is entry `i`, and no other one is before it.
pub open spec fn is_receipt(e: Seq<EntryV>, id: u64, i: int) -> bool {
    &&& 0 <= i < e.len()
    &&& e[i] matches EntryV::WakeSchedule(w) && w.id == id
    &&& forall|j: int|
        0 <= j < i ==> !(#[trigger] e[j] matches EntryV::WakeSchedule(w) && w.id == id)
}

proof fn lemma_receipt(e: Seq<EntryV>, id: u64, i: int, from: int)
    requires
        is_receipt(e, id, i),
        0 <= from <= i,
    ensures
        wake_at(e, id, from) == Some(i),
    decreases i - from,
{
    if from < i {
        assert(!(e[from] matches EntryV::WakeSchedule(w) && w.id == id));
        lemma_receipt(e, id, i, from + 1);
    }
}

/// A source that fires is marked as fired in its receipt and counted once; when it is
/// disarmed it is no longer armed. What it is stays, and so does every other entry.
pub proof fn law_a_wake_that_fires_is_counted(
    p: PanelV,
    kind: Seq<char>,
    id: u64,
    rest: Seq<char>,
    i: int,
    now: u64,
)
    requires
        !kind.contains('#'),
        rest.len() == 0 || !is_digit(rest[0]),
        is_receipt(p.entries, id, i),
        p.entries[i]->WakeSchedule_0.firesSoFar < u64::MAX,
    ensures
        ({
            let w = p.entries[i]->WakeSchedule_0;
            let q = p.wake_fired(kind + "#"@ + dec(id as nat) + rest);
            let d = p.wake_disarmed(id, now);
            &&& q.entries == p.entries.update(
                i,
                EntryV::WakeSchedule(
                    WakeV {
                        id,
                        kind: w.kind,
                        summary: w.summary,
                        prompt: w.prompt,
                        status: WakeScheduleStatus::Fired,
                        armed: w.armed,
                        nextFireAt: None,
                        firesSoFar: (w.firesSoFar + 1) as u64,
                        registeredAt: w.registeredAt,
                    },
                ),
            )
            &&& d.entries.len() == p.entries.len()
            &&& forall|j: int|
                0 <= j < p.entries.len() && j != i ==> #[trigger] d.entries[j] == p.entries[j]
            &&& d.entries[i] matches EntryV::WakeSchedule(v) && {
                &&& !v.armed
                &&& v.id == id
                &&& v.kind == w.kind
                &&& v.summary == w.summary
                &&& v.firesSoFar == w.firesSoFar
            }
        }),
{
    law_source_id_reads_what_was_written(kind, id, rest);
    lemma_receipt(p.entries, id, i, 0);
}

/// A source that is registered again is armed again, with what is new of it; how often
/// it fired and when it was registered stay.
pub proof fn law_registering_again_arms_again(
    p: PanelV,
    id: u64,
    kind: WakeKind,
    summary: Seq<char>,
    next: Option<u64>,
    i: int,
    now: u64,
)
    requires
        is_receipt(p.entries, id, i),
        kind is Delay || kind is Cron || kind is FileWatch,
    ensures
        ({
            let w = p.entries[i]->WakeSchedule_0;
            p.wake_registered(id, kind, summary, None, next, now).entries == p.entries.update(
                i,
                EntryV::WakeSchedule(
                    WakeV {
                        id,
                        kind: w.kind,
                        summary,
                        prompt: None,
                        status: WakeScheduleStatus::Armed,
                        armed: true,
                        nextFireAt: next,
                        firesSoFar: w.firesSoFar,
                        registeredAt: w.registeredAt,
                    },
                ),
            )
        }),
{
    lemma_receipt(p.entries, id, i, 0);
}

// ---- subagents ----

/// Whether entry `i` is the newest open block of the subagent `sid`.
pub open spec fn is_block_of(e: Seq<EntryV>, sid: Seq<char>, i: int) -> bool {
    &&& 0 <= i < e.len()
    &&& e[i] matches EntryV::SubagentBlock(b) && !b.done && b.sessionId == Some(sid)
    &&& forall|j: int|
        i < j < e.len() ==> !(#[trigger] e[j] matches EntryV::SubagentBlock(b) && !b.done
            && b.sessionId == Some(sid))
}

proof fn lemma_block_of(e: Seq<EntryV>, sid: Seq<char>, i: int, n: int)
    requires
        is_block_of(e, sid, i),
        i < n <= e.len(),
    ensures
        open_block(e, sid, n) == Some(i),
    decreases n,
{
    if n - 1 > i {
        assert(!(e[n - 1] matches EntryV::SubagentBlock(b) && !b.done && b.sessionId == Some(sid)));
        lemma_block_of(e, sid, i, n - 1);
    }
}

/// A subagent that starts gets a block with what it is to do, in place of the request
/// for its task, and is the one that is shown.
pub proof fn law_a_subagent_gets_a_block(
    p: PanelV,
    sid: Seq<char>,
    kind: Seq<char>,
    prompt: Seq<char>,
    now: u64,
)
    ensures
        ({
            let q = p.subagent_started(sid, kind, prompt, now);
            let before = p.finalized().entries;
            &&& is_block_of(q.entries, sid, q.entries.len() - 1)
            &&& q.entries.last() matches EntryV::SubagentBlock(b) && {
                &&& b.agentType == kind
                &&& b.prompt == prompt
                &&& b.toolLines.len() == 0
                &&& b.turns == 0
                &&& b.content is None
            }
            &&& before.len() > 0 && before.last() is ToolRequest ==> q.entries.drop_last()
                == before.drop_last()
            &&& !(before.len() > 0 && before.last() is ToolRequest) ==> q.entries.drop_last()
                == before
            &&& q.subs.active.len() == p.subs.active.len() + 1
            &&& q.subs.active.drop_last() == p.subs.active
            &&& q.subs.active.last().sessionId == sid
            &&& q.subs.active.last().agentType == kind
            &&& q.subs.active.last().startTime == now
            &&& q.subs.active.last().transcript.len() == 0
            &&& q.subs.selected == Some(q.subs.active.len() - 1)
        }),
{
    let q = p.subagent_started(sid, kind, prompt, now);
    let before = p.finalized().entries;
    assert(q.entries.drop_last() =~= (if before.len() > 0 && before.last() is ToolRequest {
        before.drop_last()
    } else {
        before
    }));
    assert(q.subs.active.drop_last() =~= p.subs.active);
}

/// What a subagent's tool does is a line of its block, and its end is shown in its
/// block with its reply. No other entry changes.
pub proof fn law_a_subagents_work_is_in_its_block(
    p: PanelV,
    sid: Seq<char>,
    i: int,
    name: Seq<char>,
    summary: Seq<char>,
    turns: usize,
    reply: Seq<char>,
)
    requires
        is_block_of(p.entries, sid, i),
    ensures
        ({
            let b = p.entries[i]->SubagentBlock_0;
            let q = p.subagent_tool(sid, name, summary);
            let d = p.subagent_done(sid, turns, reply);
            &&& q.entries.len() == p.entries.len()
            &&& d.entries.len() == p.entries.len()
            &&& forall|j: int|
                0 <= j < p.entries.len() && j != i ==> #[trigger] q.entries[j] == p.entries[j]
            &&& forall|j: int|
                0 <= j < p.entries.len() && j != i ==> #[trigger] d.entries[j] == p.entries[j]
            &&& q.entries[i] matches EntryV::SubagentBlock(c) && {
                &&& c.toolLines == b.toolLines.push((name, summary))
                &&& !c.done
                &&& c.sessionId == Some(sid)
                &&& c.agentType == b.agentType
                &&& c.prompt == b.prompt
                &&& c.content == b.content
            }
            &&& d.entries[i] matches EntryV::SubagentBlock(c) && {
                &&& c.done
                &&& c.turns == turns
                &&& reply.len() > 0 ==> c.content == Some(reply)
                &&& reply.len() == 0 ==> c.content == b.content
                &&& c.toolLines == b.toolLines
                &&& c.sessionId == Some(sid)
                &&& c.agentType == b.agentType
                &&& c.prompt == b.prompt
            }
        }),
{
    lemma_block_of(p.entries, sid, i, p.entries.len() as int);
}

/// Whether `k` is the first subagent with the session `sid`.
pub open spec fn is_subagent(s: SubagentsV, sid: Seq<char>, k: int) -> bool {
    &&& 0 <= k < s.active.len()
    &&& s.active[k].sessionId == sid
    &&& forall|j: int| 0 <= j < k ==> (#[trigger] s.active[j]).sessionId != sid
}

proof fn lemma_subagent(s: SubagentsV, sid: Seq<char>, k: int)
    requires
        is_subagent(s, sid, k),
    ensures
        s.find(sid) == Some(k),
{
    lemma_find(s.active, sid, 0);
    if s.find(sid) is Some && s.find(sid)->0 < k {
        assert(s.active[s.find(sid)->0].sessionId != sid);
    }
}

/// What a subagent says goes into its own transcript: it lengthens what it was saying,
/// or begins a new message. Other subagents are left alone.
pub proof fn law_a_subagent_speaks_for_itself(
    s: SubagentsV,
    sid: Seq<char>,
    k: int,
    text: Seq<char>,
    e: EntryV,
)
    requires
        is_subagent(s, sid, k),
    ensures
        ({
            let t = s.active[k].transcript;
            let a = s.said(sid, text);
            let b = s.noted(sid, e);
            &&& a.active.len() == s.active.len() && b.active.len() == s.active.len()
            &&& forall|j: int|
                0 <= j < s.active.len() && j != k ==> #[trigger] a.active[j] == s.active[j]
            &&& forall|j: int|
                0 <= j < s.active.len() && j != k ==> #[trigger] b.active[j] == s.active[j]
            &&& t.len() > 0 && (t.last() matches EntryV::Assistant(so_far)) ==> a.active[k].transcript
                == t.drop_last().push(EntryV::Assistant(t.last()->Assistant_0 + text))
            &&& t.len() == 0 || !(t.last() is Assistant) ==> a.active[k].transcript == t.push(
                EntryV::Assistant(text),
            )
            &&& b.active[k].transcript == t.push(e)
            &&& a.active[k].sessionId == sid && b.active[k].sessionId == sid
            &&& a.selected == s.selected && b.selected == s.selected
        }),
{
    lemma_subagent(s, sid, k);
    let t = s.active[k].transcript;
    if t.len() > 0 && t.last() is Assistant {
        assert(s.said(sid, text).active[k].transcript =~= t.drop_last().push(
            EntryV::Assistant(t.last()->Assistant_0 + text),
        ));
    }
}

/// The tabs of the subagents go round: one step on and one back shows the same one, and
/// as many steps as there are subagents do too.
pub proof fn law_the_tabs_go_round(s: SubagentsV)
    requires
        s.wf(),
        s.selected is Some,
    ensures
        s.cycled(1).cycled(-1) == s,
        s.cycled(s.active.len() as int) == s,
        s.selected->0 + 1 < s.active.len() ==> s.cycled(1).selected == Some(s.selected->0 + 1),
        s.selected->0 + 1 == s.active.len() ==> s.cycled(1).selected == Some(0int),
        s.selected->0 == 0 ==> s.cycled(-1).selected == Some(s.active.len() - 1),
{
    let n = s.active.len() as int;
    let i = s.selected->0;
    assert((i + n) % n == i) by (nonlinear_arith)
        requires
            0 <= i < n,
    ;
    if i + 1 < n {
        assert((i + 1) % n == i + 1) by (nonlinear_arith)
            requires
                0 <= i,
                i + 1 < n,
        ;
        assert(i % n == i) by (nonlinear_arith)
            requires
                0 <= i < n,
        ;
    } else {
        assert((i + 1) % n == 0) by (nonlinear_arith)
            requires
                i + 1 == n,
                n > 0,
        ;
    }
    assert((0 - 1) % n == n - 1) by (nonlinear_arith)
        requires
            n > 0,
    ;
    assert((i + 1 - 1) == i);
}

/// When the subagent that is shown ends, the next one is shown, or the last where it was
/// the last, and none where none is left; nothing but it is gone.
pub proof fn law_the_next_subagent_is_shown(s: SubagentsV, sid: Seq<char>, k: int)
    requires
        s.wf(),
        is_subagent(s, sid, k),
        s.selected == Some(k),
    ensures
        s.ended(sid).active == s.active.remove(k),
        s.active.len() == 1 ==> s.ended(sid).selected is None,
        k + 1 < s.active.len() ==> s.ended(sid).selected == Some(k),
        k + 1 == s.active.len() && k > 0 ==> s.ended(sid).selected == Some(k - 1),
{
    lemma_subagent(s, sid, k);
}

/// A subagent is chosen by its session; one that is not there changes nothing.
pub proof fn law_a_subagent_is_chosen_by_its_session(p: PanelV, sid: Seq<char>, k: int)
    ensures
        is_subagent(p.subs, sid, k) ==> p.selecting_subagent(sid).subs.selected == Some(k)
            && p.selecting_subagent(sid).subs.active == p.subs.active,
        p.subs.find(sid) is None ==> p.selecting_subagent(sid) == p,
        p.selecting_subagent(sid).entries == p.entries,
{
    if is_subagent(p.subs, sid, k) {
        lemma_subagent(p.subs, sid, k);
    }
}

/// The reply in a block that is done is folded and unfolded; a running block stays as it
/// is, and so does everything else.
pub proof fn law_replies_are_folded(p: PanelV, i: int)
    requires
        0 <= i < p.entries.len(),
        p.entries[i] is SubagentBlock,
    ensures
        ({
            let b = p.entries[i]->SubagentBlock_0;
            let q = p.block_toggled(i);
            &&& !b.done ==> q == p
            &&& b.done ==> q.entries[i] is SubagentBlock && (
            q.entries[i]->SubagentBlock_0).contentExpanded == !b.contentExpanded && (
            q.entries[i]->SubagentBlock_0).content == b.content
            &&& p.block_toggled(i).block_toggled(i) == p
            &&& forall|j: int|
                0 <= j < p.entries.len() && j != i ==> #[trigger] q.entries[j] == p.entries[j]
        }),
{
    let q = p.block_toggled(i).block_toggled(i);
    assert(q.entries =~= p.entries);
}

/// A panel begins empty: nothing is said, asked, queued or attached, and no turn goes on.
pub proof fn law_a_new_panel_is_empty(h: crate::history::HistoryV, now: u64)
    ensures
        ({
            let p = crate::agent_panel::state::fresh(h, now);
            &&& p.entries.len() == 0
            &&& message(p).len() == 0
            &&& p.stream.reasoning.len() == 0
            &&& !p.turnActive
            &&& !p.permit.pending
            &&& !p.tools.active
            &&& p.subs.active.len() == 0
            &&& p.compose.queue.len() == 0
            &&& p.compose.attachments.len() == 0
            &&& !p.compose.errorHint
            &&& p.compose.history == h
            &&& p.scroll.offset == 0
        }),
{
}

/// Clearing leaves nothing of the conversation, keeps what was typed before in the
/// history, and leaves the subagents alone.
pub proof fn law_clearing_empties_the_panel(p: PanelV, now: u64)
    ensures
        ({
            let q = p.cleared(now);
            &&& q.entries.len() == 0
            &&& message(q).len() == 0
            &&& q.stream.reasoning.len() == 0
            &&& !q.turnActive
            &&& !q.permit.pending
            &&& q.compose.queue.len() == 0
            &&& q.compose.attachments.len() == 0
            &&& !q.compose.errorHint
            &&& q.compose.history == p.compose.history
            &&& q.subs == p.subs
            &&& q.scroll.offset == 0
        }),
{
}

} // verus!
