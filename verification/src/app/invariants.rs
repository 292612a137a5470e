//! What makes the deck well-formed is kept by everything that happens to it.

use vstd::prelude::*;
use crate::agent_panel::state::{Attachment, OriginV, UserInput};
use crate::agent_panel::subagents::lemma_find;
use crate::app::composing::{agent_step, input_step, menu_step};
use crate::app::deck::DeckV;
use crate::app::desk::DeskV;
use crate::app::effect::EffectV;
use crate::app::event::LogEvent;
use crate::app::keyboard::KeyStep;
use crate::app::mouse::{MouseInput, MouseStep, Pointer, Spot, agent_click, press_click, prompt_click};
use crate::app::updates::{DeckUpdate, PermitRequest};
use crate::command::OutputV;
use crate::draw::Rect;
use crate::fork_picker::ForkPicker;
use crate::keys::KeyEvent;
use crate::text::brief;

verus! {

// ---- events ----

proof fn lemma_streams(d: DeckV, e: LogEvent, now: u64)
    requires
        d.panel.wf(),
    ensures
        d.stream_panel(e, now).wf(),
{
    reveal(DeckV::stream_panel);
}

proof fn lemma_calls(d: DeckV, e: LogEvent, now: u64)
    requires
        d.panel.wf(),
    ensures
        d.call_panel(e, now).wf(),
        d.permit_panel(e).wf(),
{
    reveal(DeckV::call_panel);
    reveal(DeckV::permit_panel);
}

proof fn lemma_turns(d: DeckV, e: LogEvent, now: u64)
    requires
        d.panel.wf(),
    ensures
        d.turn_panel(e, now).wf(),
{
    reveal(DeckV::turn_panel);
}

proof fn lemma_wakes(d: DeckV, e: LogEvent, now: u64)
    requires
        d.panel.wf(),
    ensures
        d.wake_panel(e, now).wf(),
{
    reveal(DeckV::wake_panel);
}

proof fn lemma_subagents(d: DeckV, e: LogEvent, now: u64)
    requires
        d.panel.wf(),
    ensures
        d.subagent_panel(e, now).wf(),
{
    reveal(DeckV::subagent_panel);
    match e {
        LogEvent::SubagentEvent { sessionId, event } => {
            lemma_find(d.panel.subs.active, sessionId@, 0);
            match *event {
                LogEvent::ToolResult { name, output } => {
                    let p = d.panel.subagent_tool(sessionId@, name@, brief(output@, 60));
                    lemma_find(p.subs.active, sessionId@, 0);
                },
                _ => {},
            }
        },
        LogEvent::SubagentComplete { sessionId, .. } => {
            lemma_find(d.panel.subs.active, sessionId@, 0);
        },
        _ => {},
    }
}

/// Whatever the session tells, the deck stays well-formed.
pub proof fn law_events_keep_the_deck_well_formed(
    d: DeckV,
    e: LogEvent,
    images: Seq<Attachment>,
    now: u64,
)
    requires
        d.wf(),
    ensures
        d.after(e, images, now).wf(),
{
    reveal(DeckV::after);
    lemma_streams(d, e, now);
    lemma_calls(d, e, now);
    lemma_turns(d, e, now);
    lemma_wakes(d, e, now);
    lemma_subagents(d, e, now);
}

/// Whatever is answered, the deck stays well-formed.
pub proof fn law_updates_keep_the_deck_well_formed(d: DeckV, u: DeckUpdate, now: u64, after: DeckV)
    requires
        d.wf(),
        d.updated(u, now, after),
    ensures
        after.wf(),
{
    reveal(DeckV::updated);
}

/// A request for permission leaves the deck well-formed.
pub proof fn law_requests_keep_the_deck_well_formed(d: DeckV, r: PermitRequest)
    requires
        d.wf(),
    ensures
        d.permit_asked(r).wf(),
{
    match r.origin@ {
        OriginV::Subagent(sid) => {
            lemma_find(d.panel.subs.active, sid, 0);
        },
        OriginV::Top => {},
    }
}

/// Time leaves the deck well-formed.
pub proof fn law_time_keeps_the_deck_well_formed(d: DeckV, now: u64)
    requires
        d.wf(),
    ensures
        (DeckV {
            panel: d.panel.throbbed(now).0.counted_down(now).0.revealed(now).0,
            title: d.title.ticked(d.panel.turnActive, now),
            ..d
        }).wf(),
{
}

// ---- keys ----

proof fn lemma_forks(p: ForkPicker, key: KeyEvent)
    requires
        p.wf(),
    ensures
        p.after_key(key.code).wf(),
{
    reveal(ForkPicker::after_key);
}

proof fn lemma_prompt(d: DeckV, key: KeyEvent)
    requires
        d.wf(),
    ensures
        d.at_prompt(key).wf(),
        forall|a| (#[trigger] d.answered(a)).wf(),
{
    reveal(DeckV::at_prompt);
    reveal(DeckV::panel_answered);
}

proof fn lemma_input(d: DeckV, key: KeyEvent, first: bool, last: bool, text: Seq<char>, chips: bool)
    requires
        d.wf(),
    ensures
        agent_step(d.panel, key, first, last, text, chips).panel.wf(),
{
    reveal(agent_step);
    reveal(input_step);
    reveal(menu_step);
}

/// A key leaves the desk well-formed, whoever takes it.
pub proof fn law_keys_keep_the_desk_well_formed(
    d: DeskV,
    key: KeyEvent,
    first: bool,
    last: bool,
    text: Seq<char>,
    after: DeskV,
    r: KeyStep,
    before: Seq<EffectV>,
    out: Seq<EffectV>,
)
    requires
        d.wf(),
        d.takes_key(key, first, last, text, after, r, before, out),
    ensures
        after.wf(),
{
    reveal(DeskV::takes_key);
    reveal(DeskV::after_key);
    lemma_prompt(d.deck, key);
    lemma_input(d.deck, key, first, last, text, d.chips.len() > 0);
    if d.deck.forks is Some {
        lemma_forks(d.deck.forks->0, key);
    }
}

/// A key that counts everywhere leaves the desk well-formed, and so does the end of a
/// key in the input.
pub proof fn law_global_keys_keep_the_desk_well_formed(
    d: DeskV,
    key: KeyEvent,
    now: u64,
    navigating: bool,
    text: Seq<char>,
)
    requires
        d.wf(),
    ensures
        d.after_global(key, now).wf(),
        d.input_settled(navigating, text).wf(),
{
}

/// What the user sends leaves the desk well-formed: a message, queued or not, or a
/// command.
pub proof fn law_messages_keep_the_desk_well_formed(
    d: DeskV,
    msg: Seq<char>,
    input: UserInput,
    o: OutputV,
    now: u64,
)
    requires
        d.wf(),
    ensures
        d.after_command(msg, o).wf(),
        d.with_panel(d.queued(msg, input)).wf(),
        d.with_panel(d.sent(msg, now)).wf(),
{
    reveal(DeskV::after_command);
}

// ---- the mouse ----

/// The mouse leaves the desk well-formed, whatever it hits.
pub proof fn law_the_mouse_keeps_the_desk_well_formed(
    d: DeskV,
    spot: Spot,
    rect: Rect,
    column: u16,
    row: u16,
    now: u64,
)
    requires
        d.wf(),
    ensures
        d.pressed(spot, press_click(d.deck.panel, spot, now)).wf(),
        d.with_panel(prompt_click(d.deck.panel, rect, column, row, now).0).wf(),
{
    reveal(agent_click);
}

/// The wheel leaves the desk well-formed.
pub proof fn law_the_wheel_keeps_the_desk_well_formed(
    d: DeskV,
    pointer: Pointer,
    m: MouseInput,
    spot: Option<Spot>,
    now: u64,
    after: DeskV,
    q: Pointer,
    r: MouseStep,
)
    requires
        d.wf(),
        d.wheeled(pointer, m, spot, now, after, q, r),
    ensures
        after.wf(),
{
    reveal(DeskV::wheeled);
}

} // verus!
