//! What holds of the panel as a whole.

use vstd::prelude::*;
use crate::agent_panel::entry::{EntryV, WakeScheduleStatus, lemma_wake_at, wake_at};
use crate::agent_panel::prompts::completion_for;
use crate::agent_panel::state::{ComposeV, OriginV, PanelV, PermitV};
use crate::agent_panel::subagents::lemma_find;
use crate::impact::ShellImpact;
use crate::jobs_panel::WakeKind;
use crate::text::trimmed;

verus! {

/// What makes a panel well-formed is kept by everything that happens in a turn.
pub proof fn law_turns_keep_the_panel_well_formed(p: PanelV, text: Seq<char>, e: EntryV, now: u64)
    requires
        p.wf(),
    ensures
        p.user_sent(text, now).wf(),
        p.wake_turn(text, now).wf(),
        p.content_arrived(text, now).wf(),
        p.reasoning_arrived(text, now).wf(),
        p.revealed(now).0.wf(),
        p.finalized().wf(),
        p.turn_finished().wf(),
        p.turn_cancelled().wf(),
        p.tool_approved(text).wf(),
        p.tool_started(text, now).wf(),
        p.tool_refused(e).wf(),
        p.silent_result(now).wf(),
        p.answered(e).wf(),
        p.wake_fired(text).wf(),
        p.cleared(now).wf(),
{
}

/// What makes a panel well-formed is kept by subagents coming and going.
pub proof fn law_subagents_keep_the_panel_well_formed(
    p: PanelV,
    sid: Seq<char>,
    kind: Seq<char>,
    text: Seq<char>,
    turns: usize,
    delta: int,
    now: u64,
)
    requires
        p.wf(),
    ensures
        p.subagent_started(sid, kind, text, now).wf(),
        p.subagent_tool(sid, kind, text).wf(),
        p.subagent_done(sid, turns, text).wf(),
        p.subs.said(sid, text).wf(),
        p.subs.cycled(delta).wf(),
{
    lemma_find(p.subs.active, sid, 0);
}

/// What makes a panel well-formed is kept by the prompt and by the completion.
pub proof fn law_prompts_keep_the_panel_well_formed(
    p: PanelV,
    name: Seq<char>,
    command: Option<Seq<char>>,
    patterns: Seq<Seq<char>>,
    impact: ShellImpact,
    origin: OriginV,
    text: Seq<char>,
)
    requires
        p.wf(),
    ensures
        p.tool_request(name, text, command, patterns, command, command, impact, origin).wf(),
        p.approved().wf(),
        p.prompt_closed().wf(),
        (PanelV { permit: p.permit.previous(), ..p }).wf(),
        (PanelV { permit: p.permit.next(), ..p }).wf(),
        (PanelV {
            compose: ComposeV {
                completion: completion_for(text, p.compose.completion),
                ..p.compose
            },
            ..p
        }).wf(),
{
}

/// A message, or a wake, makes the panel take up what the model streams. Without
/// a turn it is dropped.
pub proof fn law_only_a_turn_takes_up_content(p: PanelV, summary: Seq<char>, t: Seq<char>, now: u64)
    ensures
        p.user_sent(summary, now).content_arrived(t, now).stream.pending == p.stream.pending + t,
        p.wake_turn(summary, now).content_arrived(t, now).stream.pending == p.stream.pending + t,
        p.wake_turn(summary, now).reasoning_arrived(t, now).stream.reasoning == p.stream.reasoning
            + t,
        !p.turnActive ==> p.content_arrived(t, now) == p && p.reasoning_arrived(t, now) == p,
{
}

/// What the model, its tools and its subagents do never moves the conversation
/// away from where it is being read; what the user sends does.
pub proof fn law_only_the_user_snaps_to_the_bottom(
    p: PanelV,
    text: Seq<char>,
    output: Seq<char>,
    patterns: Seq<Seq<char>>,
    impact: ShellImpact,
    origin: OriginV,
    now: u64,
)
    ensures
        p.content_arrived(text, now).scroll.offset == p.scroll.offset,
        p.tool_request(text, output, None, patterns, None, None, impact, origin).scroll.offset
            == p.scroll.offset,
        p.tool_started(text, now).scroll.offset == p.scroll.offset,
        p.tool_result(text, output, now).scroll.offset == p.scroll.offset,
        p.subagent_started(text, output, output, now).scroll.offset == p.scroll.offset,
        p.subagent_tool(text, output, output).scroll.offset == p.scroll.offset,
        p.turn_finished().scroll.offset == p.scroll.offset,
        p.user_sent(text, now).scroll.offset == 0,
        p.promoted(patterns).scroll.offset == 0,
{
}

/// A turn that is over streams nothing and runs no tool, and what it had streamed
/// stands in the conversation or is being revealed.
pub proof fn law_a_finished_turn_is_quiet(p: PanelV)
    requires
        p.turnActive,
    ensures
        !p.turn_finished().turnActive,
        !p.turn_finished().tools.active,
        p.turn_finished().tools.calls.len() == 0,
        p.turn_finished().stream.reasoning.len() == 0,
        p.stream.pending.len() > 0 ==> p.turn_finished().stream.deferredFinalize
            && p.turn_finished().stream.content == p.stream.content
            && p.turn_finished().stream.pending == p.stream.pending,
        p.stream.pending.len() == 0 && p.stream.content.len() > 0 ==> p.turn_finished().entries.len()
            > 0 && p.turn_finished().entries.last() == EntryV::Assistant(p.stream.content),
{
}

/// Cancelling a turn closes its prompt and drops the queue, and leaves the
/// subagents alone.
pub proof fn law_cancelling_leaves_subagents_running(p: PanelV)
    requires
        p.turnActive,
    ensures
        p.turn_cancelled().subs == p.subs,
        p.turn_cancelled().compose.queue.len() == 0,
        !p.turn_cancelled().permit.pending,
        p.turn_cancelled().entries.last() == EntryV::Cancelled,
{
}

/// Subagents outlive the turn: what they do is shown whether or not one goes on.
pub proof fn law_subagents_do_not_need_a_turn(
    p: PanelV,
    sid: Seq<char>,
    kind: Seq<char>,
    prompt: Seq<char>,
    now: u64,
)
    ensures
        p.subagent_started(sid, kind, prompt, now).subs == p.subs.started(sid, kind, now),
        p.subagent_started(sid, kind, prompt, now).entries.last() is SubagentBlock,
{
}

/// A wake that fired stays fired when it is disarmed; one whose time had not come
/// is shown as disarmed.
pub proof fn law_a_fired_wake_stays_fired(p: PanelV, id: u64, i: int, now: u64)
    requires
        wake_at(p.entries, id, 0) == Some(i),
    ensures
        ({
            let w = p.entries[i]->WakeSchedule_0;
            let d = p.wake_disarmed(id, now).entries[i]->WakeSchedule_0;
            &&& !d.armed
            &&& d.nextFireAt is None
            &&& w.status == WakeScheduleStatus::Fired ==> d.status == WakeScheduleStatus::Fired
            &&& (w.nextFireAt matches Some(at) && at <= now) ==> d.status
                == WakeScheduleStatus::Fired
            &&& w.status != WakeScheduleStatus::Fired && (w.nextFireAt matches Some(at) ==> at
                > now) ==> d.status == WakeScheduleStatus::Disarmed
        }),
{
    lemma_wake_at(p.entries, id, 0);
}

/// A wake source has one receipt: registering it again refreshes that one.
pub proof fn law_registering_again_adds_no_receipt(
    p: PanelV,
    id: u64,
    kind: WakeKind,
    summary: Seq<char>,
    prompt: Option<Seq<char>>,
    next: Option<u64>,
    now: u64,
)
    requires
        wake_at(p.entries, id, 0) is Some,
    ensures
        p.wake_registered(id, kind, summary, prompt, next, now).entries.len() == p.entries.len(),
{
    lemma_wake_at(p.entries, id, 0);
}

/// A pattern that is persisted is never blank.
pub proof fn law_a_blank_pattern_is_never_allowed(m: PermitV)
    ensures
        m.pattern() matches Some(s) ==> s.len() > 0 && exists|raw: Seq<char>|
            s == #[trigger] trimmed(raw),
{
    if m.pattern() is Some {
        let raw = if m.selected >= m.patterns.len() {
            m.custom
        } else {
            m.patterns[m.selected as int]
        };
        assert(m.pattern()->0 == trimmed(raw));
    }
}

} // verus!
