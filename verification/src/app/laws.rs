//! What holds of the deck whatever happens.

use vstd::prelude::*;
use crate::agent_panel::state::Attachment;
use crate::agent_panel::subagents::lemma_find;
use crate::app::deck::{DeckV, idle_background};
use crate::app::effect::EffectV;
use crate::app::event::LogEvent;
use crate::app::title::{TITLE_PERMIT_GLYPH, TITLE_UNSEEN_GLYPH};
use crate::app::updates::DeckUpdate;
use crate::jobs_panel::{JobId, JobOutputSnapshot};
use crate::text::brief;

verus! {

// ---- subagents ----

proof fn lemma_streams_keep_subagents(d: DeckV, e: LogEvent, now: u64)
    ensures
        d.stream_panel(e, now).subs == d.panel.subs,
{
    reveal(DeckV::stream_panel);
}

proof fn lemma_calls_keep_subagents(d: DeckV, e: LogEvent, now: u64)
    ensures
        d.call_panel(e, now).subs == d.panel.subs,
        d.permit_panel(e).subs == d.panel.subs,
{
    reveal(DeckV::call_panel);
    reveal(DeckV::permit_panel);
}

proof fn lemma_turns_keep_subagents(d: DeckV, e: LogEvent, now: u64)
    ensures
        d.turn_panel(e, now).subs == d.panel.subs,
{
    reveal(DeckV::turn_panel);
}

proof fn lemma_wakes_keep_subagents(d: DeckV, e: LogEvent, now: u64)
    ensures
        d.wake_panel(e, now).subs == d.panel.subs,
{
    reveal(DeckV::wake_panel);
}

proof fn lemma_subagents_stay_well_formed(d: DeckV, e: LogEvent, now: u64)
    requires
        d.panel.subs.wf(),
    ensures
        d.subagent_panel(e, now).subs.wf(),
{
    reveal(DeckV::subagent_panel);
    match e {
        LogEvent::SubagentEvent { sessionId, event } => {
            lemma_find(d.panel.subs.active, sessionId@, 0);
            match *event {
                LogEvent::ToolResult { name, output } => {
                    let p = d.panel.subagent_tool(
                        sessionId@,
                        name@,
                        brief(output@, 60),
                    );
                    lemma_find(p.subs.active, sessionId@, 0);
                },
                _ => {},
            }
        },
        LogEvent::SubagentComplete { sessionId, .. } => {
            lemma_find(d.panel.subs.active, sessionId@, 0);
        },
        _ => {},
    }
}

/// Whatever the session tells, the popup of subagents shows one that runs.
pub proof fn law_events_keep_the_popup_on_a_running_subagent(
    d: DeckV,
    e: LogEvent,
    images: Seq<Attachment>,
    now: u64,
)
    requires
        d.panel.subs.wf(),
    ensures
        d.after(e, images, now).panel.subs.wf(),
{
    reveal(DeckV::after);
    lemma_streams_keep_subagents(d, e, now);
    lemma_calls_keep_subagents(d, e, now);
    lemma_turns_keep_subagents(d, e, now);
    lemma_wakes_keep_subagents(d, e, now);
    lemma_subagents_stay_well_formed(d, e, now);
}

// ---- turns ----

/// An error ends the turn, and the hint how to go on is shown.
pub proof fn law_an_error_ends_the_turn(d: DeckV, msg: String, images: Seq<Attachment>, now: u64)
    ensures
        ({
            let p = d.after(LogEvent::Error(msg), images, now).panel;
            &&& !p.turnActive
            &&& p.compose.errorHint
        }),
{
    reveal(DeckV::after);
    reveal(DeckV::turn_panel);
}

/// Work that ends while nobody looks is flagged in the title, and only then.
pub proof fn law_unseen_work_is_flagged(d: DeckV, images: Seq<Attachment>, now: u64)
    ensures
        ({
            let t = d.after(LogEvent::TurnComplete, images, now).title;
            &&& !d.title.windowFocused ==> t.unseenWork
            &&& d.title.windowFocused ==> t == d.title
        }),
{
    reveal(DeckV::after);
}

/// What is unseen survives a change of the topic, and still leads the title.
pub proof fn law_unseen_survives_a_new_topic(
    d: DeckV,
    label: String,
    images: Seq<Attachment>,
    now: u64,
)
    ensures
        ({
            let e = LogEvent::TopicChanged { label };
            let t = d.after(e, images, now).title;
            &&& t.unseenWork == d.title.unseenWork
            &&& t.unseenPermit == d.title.unseenPermit
            &&& t.topic == Some(label@)
            &&& d.title.unseenPermit ==> d.outside(e) == seq![
                EffectV::Title(t.text(TITLE_PERMIT_GLYPH@)),
            ]
            &&& d.title.unseenWork && !d.title.unseenPermit ==> d.outside(e) == seq![
                EffectV::Title(t.text(TITLE_UNSEEN_GLYPH@)),
            ]
        }),
{
    reveal(DeckV::after);
    reveal(DeckV::outside);
}

// ---- tasks ----

/// While the output of a task is on its way, more of it asks for nothing: it is only
/// noted. Else it is asked for at once, where it is shown.
pub proof fn law_one_request_for_output_at_a_time(
    d: DeckV,
    id: JobId,
    line: String,
    images: Seq<Attachment>,
    now: u64,
    i: int,
)
    requires
        0 <= i < d.outside(LogEvent::JobOutput { id, line }).len(),
        d.outside(LogEvent::JobOutput { id, line })[i] is FetchOutput,
    ensures
        !d.inspector.inFlight,
        d.inspects(id),
        d.after(LogEvent::JobOutput { id, line }, images, now).inspector.inFlight,
{
    reveal(DeckV::after);
    reveal(DeckV::outside);
}

/// Output that came while a request was on its way is asked for once that is
/// answered, and the note of it is gone.
pub proof fn law_noted_output_is_asked_for(
    d: DeckV,
    id: JobId,
    since: Option<u64>,
    snap: Option<JobOutputSnapshot>,
)
    requires
        d.inspector.dirty,
        d.inspects(id),
    ensures
        !d.output_refreshed(id, since, snap).inspector.dirty,
        d.output_refreshed(id, since, snap).inspector.inFlight,
        d.update_effects(DeckUpdate::TaskOutputRefresh { id, sinceLine: since, snap }).len() == 1,
{
    reveal(DeckV::update_effects);
}

/// A task that ends is unread where the panel of tasks is closed, and only there.
pub proof fn law_unread_only_while_closed(d: DeckV, id: JobId)
    ensures
        d.tasks is None ==> d.task_ended(id).background.unread.contains(id),
        d.tasks is Some ==> d.task_ended(id).background.unread == d.background.unread,
        d.background.running > 0 ==> d.task_ended(id).background.running == d.background.running
            - 1,
{
}

/// While the panel of tasks is closed, nothing is asked for on its behalf.
pub proof fn law_a_closed_panel_asks_nothing(d: DeckV, id: JobId)
    requires
        d.tasks is None,
    ensures
        d.refresh() == Seq::<EffectV>::empty(),
        !d.inspects(id),
{
}

/// A task that starts and ends leaves as many running as before.
pub proof fn law_starting_and_ending_balance(
    d: DeckV,
    id: JobId,
    command: String,
    exit: Option<i32>,
    images: Seq<Attachment>,
    now: u64,
)
    requires
        d.background.running >= 0,
    ensures
        d.after(LogEvent::JobSpawned { id, command }, images, now).after(
            LogEvent::JobComplete { id, exitCode: exit },
            images,
            now,
        ).background.running == d.background.running,
{
    reveal(DeckV::after);
}

/// Clearing the session leaves nothing of it: no entries, no tokens, no topic and
/// nothing in the background.
pub proof fn law_clearing_leaves_nothing(d: DeckV, images: Seq<Attachment>, now: u64)
    ensures
        ({
            let c = d.after(LogEvent::Cleared, images, now);
            &&& c.panel.entries.len() == 0
            &&& !c.panel.turnActive
            &&& c.usage.tokens == 0
            &&& c.title.topic is None
            &&& c.background == idle_background()
        }),
{
    reveal(DeckV::after);
}

/// A rewind gives back what was sent: the text goes into the input, once.
pub proof fn law_a_rewind_gives_the_message_back(
    d: DeckV,
    target: String,
    images: Seq<Attachment>,
    now: u64,
)
    requires
        d.rewind.message is Some,
    ensures
        ({
            let e = LogEvent::Rewound { targetTurnId: target };
            &&& d.outside(e).last() == EffectV::SetInput(d.rewind.message->0)
            &&& d.after(e, images, now).rewind.message is None
            &&& d.after(e, images, now).panel.compose.attachments == images
        }),
{
    reveal(DeckV::after);
    reveal(DeckV::outside);
}

} // verus!
