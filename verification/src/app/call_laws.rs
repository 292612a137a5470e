//! What the calls that drive the deck leave behind.

use vstd::prelude::*;
use vstd::string::*;
use crate::agent_panel::entry::{PanelEntry, entry_views};
use crate::agent_panel::state::AgentPanel;
use crate::app::arrangement::Arrangement;
use crate::app::composing::PasteAct;
use crate::app::deck::Deck;
use crate::app::desk::{CopySource, Desk, RewindChoice, copySource};
use crate::app::effect::{Effect, EffectV, effects};
use crate::app::event::LogEvent;
use crate::app::event_laws::law_tools_are_followed;
use crate::app::mouse::{Expansion, MouseStep, PanelId, Pointer, expansionOf};
use crate::app::prompt_laws::{is_chosen, law_an_answer_is_handed_on};
use crate::app::replay::{ChildSession, replayTranscript, replayed};
use crate::app::replay_laws::law_replies_are_replayed;
use crate::app::request::{PermitResponse, Reply, RequestV};
use crate::app::terminal_input::{normalized, paste_bytes};
use crate::command::handled;
use crate::keys::{KeyCode, KeyEvent};
use crate::text::{opt_text, trimmed};
use crate::transcript::Turn;

verus! {

// ---- resuming ----

/// What a resumed conversation ends with is what the last turn said: the reply of an
/// assistant turn, whatever else was recorded of it.
pub proof fn law_a_resumed_conversation_ends_with_its_last_reply(
    turns: Vec<Turn>,
    kids: Vec<ChildSession>,
)
    requires
        turns@.len() > 0,
        turns@.last().role is Assistant,
        turns@.last().content@.len() > 0,
    ensures
        forall|p: &mut AgentPanel| #[trigger]
            call_ensures(replayTranscript, (p, &turns, &kids), ()) ==> final(p).entries@.len() > 0
                && (final(p).entries@.last() matches PanelEntry::Assistant(t) && t@
                == turns@.last().content@),
{
    let t = turns@.last();
    let before = turns@.drop_last();
    assert(before.push(t) =~= turns@);
    assert forall|p: &mut AgentPanel| #[trigger]
        call_ensures(replayTranscript, (p, &turns, &kids), ()) implies final(p).entries@.len() > 0
        && (final(p).entries@.last() matches PanelEntry::Assistant(t) && t@
        == turns@.last().content@) by {
        let e = p@.entries;
        law_replies_are_replayed(e, before, t, kids@);
        let after = replayed(e, turns@, kids@).entries;
        assert(entry_views(final(p).entries@) == after);
        assert(entry_views(final(p).entries@).len() == final(p).entries@.len());
        assert(after.last() == final(p).entries@.last()@);
    }
}

// ---- the prompt ----

/// The effects that a key leaves at the end of those before it.
pub open spec fn added(before: Seq<Effect>, after: Seq<Effect>) -> Seq<EffectV> {
    effects(after).skip(before.len() as int)
}

proof fn lemma_added(before: Seq<Effect>, after: Seq<Effect>, more: Seq<EffectV>)
    requires
        effects(after) == effects(before) + more,
    ensures
        added(before, after) == more,
        after.len() == before.len() + more.len(),
        forall|i: int|
            0 <= i < more.len() ==> #[trigger] after[before.len() + i]@ == more[i],
{
    assert(effects(before).len() == before.len());
    assert(effects(after).len() == after.len());
    assert(added(before, after) =~= more);
    assert forall|i: int| 0 <= i < more.len() implies #[trigger] after[before.len() + i]@
        == more[i] by {
        assert(effects(after)[before.len() + i] == more[i]);
    }
}

/// At the prompt, `n` and `D` never let a tool run and `y` and `A` never refuse one: the
/// answer that goes out is the one that the key stands for.
pub proof fn law_keys_at_the_prompt_answer(key: KeyEvent, raw: Seq<char>)
    requires
        trimmed(raw).len() > 0,
    ensures
        forall|d: &mut Desk, out: &mut Vec<Effect>|
            is_chosen(d@.deck.panel.permit, raw) && #[trigger] call_ensures(
                Desk::permitKey,
                (d, key, out),
                (),
            ) ==> {
                let n = out@.len() as int;
                &&& key.code == KeyCode::Char('y') ==> final(out)@.len() > n && final(out)@[n]
                    == Effect::Answer(PermitResponse::Allow)
                &&& key.code == KeyCode::Char('n') ==> final(out)@.len() > n && final(out)@[n]
                    == Effect::Answer(PermitResponse::Deny)
                &&& key.code == KeyCode::Char('A') ==> final(out)@.len() > n && (
                final(out)@[n] matches Effect::Answer(PermitResponse::AlwaysAllow { pattern })
                    && pattern@ == trimmed(raw))
                &&& key.code == KeyCode::Char('D') ==> final(out)@.len() > n && (
                final(out)@[n] matches Effect::Answer(PermitResponse::AlwaysDeny { pattern })
                    && pattern@ == trimmed(raw))
                &&& key.code == KeyCode::Char('n') || key.code == KeyCode::Char('D') ==> final(d).deck.panel.entries@.len() == d.deck.panel.entries@.len()
            },
{
    assert forall|d: &mut Desk, out: &mut Vec<Effect>|
        is_chosen(d@.deck.panel.permit, raw) && #[trigger] call_ensures(
            Desk::permitKey,
            (d, key, out),
            (),
        ) implies {
        let n = out@.len() as int;
        &&& key.code == KeyCode::Char('y') ==> final(out)@.len() > n && final(out)@[n]
            == Effect::Answer(PermitResponse::Allow)
        &&& key.code == KeyCode::Char('n') ==> final(out)@.len() > n && final(out)@[n]
            == Effect::Answer(PermitResponse::Deny)
        &&& key.code == KeyCode::Char('A') ==> final(out)@.len() > n && (
        final(out)@[n] matches Effect::Answer(PermitResponse::AlwaysAllow { pattern }) && pattern@
            == trimmed(raw))
        &&& key.code == KeyCode::Char('D') ==> final(out)@.len() > n && (
        final(out)@[n] matches Effect::Answer(PermitResponse::AlwaysDeny { pattern }) && pattern@
            == trimmed(raw))
        &&& key.code == KeyCode::Char('n') || key.code == KeyCode::Char('D') ==> final(d).deck.panel.entries@.len() == d.deck.panel.entries@.len()
    } by {
        if d@.deck.permit_answer(key) is Some {
            let a = d@.deck.permit_answer(key)->0;
            law_an_answer_is_handed_on(d@.deck, a);
            lemma_added(out@, final(out)@, d@.deck.answer_effects(a));
            assert(effects(final(out)@)[out@.len() as int] == EffectV::Answer(a));
            assert(entry_views(d.deck.panel.entries@).len() == d.deck.panel.entries@.len());
            assert(entry_views(final(d).deck.panel.entries@).len() == final(d).deck.panel.entries@.len());
        }
    }
}

// ---- events ----

/// What the session tells of a tool's end is shown as it was told.
pub proof fn law_told_results_are_shown(name: String, output: String, now: u64)
    requires
        name@ != "task"@,
        name@ != "scheduleWakeup"@ && name@ != "cronCreate"@ && name@ != "fileWatch"@ && name@
            != "cronDelete"@,
    ensures
        forall|d: &mut Deck, out: &mut Vec<Effect>|
            d.panel.turnActive && #[trigger] call_ensures(
                Deck::handleEvent,
                (d, LogEvent::ToolResult { name, output }, now, out),
                (),
            ) ==> final(d).panel.entries@.len() > 0 && (
            final(d).panel.entries@.last() matches PanelEntry::ToolResult { name: n, output: o }
                && n@ == name@ && o@ == output@),
{
    assert forall|d: &mut Deck, out: &mut Vec<Effect>|
        d.panel.turnActive && #[trigger] call_ensures(
            Deck::handleEvent,
            (d, LogEvent::ToolResult { name, output }, now, out),
            (),
        ) implies final(d).panel.entries@.len() > 0 && (
    final(d).panel.entries@.last() matches PanelEntry::ToolResult { name: n, output: o } && n@
        == name@ && o@ == output@) by {
        let images = final(d)@.panel.compose.attachments;
        law_tools_are_followed(d@, name, name, output, images, now);
        let e = final(d)@.panel.entries;
        assert(e == d@.after(LogEvent::ToolResult { name, output }, images, now).panel.entries);
        reveal(crate::app::deck::DeckV::after);
        reveal(crate::app::deck::DeckV::stream_panel);
        crate::agent_panel::turn_laws::law_a_result_is_shown(d@.panel, name@, output@, now);
        assert(e.len() > 0);
        assert(entry_views(final(d).panel.entries@).len() == final(d).panel.entries@.len());
        assert(e.last() == final(d).panel.entries@.last()@);
    }
}

// ---- choices ----

/// What is chosen in a panel is what is asked for: the turn to go back to, the session to
/// resume, the server to install.
pub proof fn law_choices_are_asked_for(c: RewindChoice, id: String, server: &str, command: &str)
    ensures
        forall|d: &mut Desk, out: &mut Vec<Effect>| #[trigger]
            call_ensures(Desk::rewindChosen, (d, c, out), ()) ==> {
                &&& effects(final(out)@).last() == EffectV::Ask(
                    RequestV::Rewind { target: c.target@, saveFork: c.saveFork },
                    Reply::Ack,
                )
                &&& effects(final(out)@).len() == effects(out@).len() + 1
                &&& opt_text(final(d).deck.rewind.message) == opt_text(c.userMessage)
            },
        forall|d: &Desk, out: &mut Vec<Effect>| #[trigger]
            call_ensures(Desk::resumeChosen, (d, id, out), ()) ==> effects(final(out)@).last()
                == EffectV::Ask(RequestV::ResumeSession(id@), Reply::Resumed),
        forall|d: &Desk, out: &mut Vec<Effect>| #[trigger]
            call_ensures(Desk::discoverChosen, (d, id, out), ()) ==> effects(final(out)@).last()
                == EffectV::Ask(RequestV::DiscoverModels(id@), Reply::Catalog),
        forall|d: &mut Desk, out: &mut Vec<Effect>| #[trigger]
            call_ensures(Desk::permissionsChosen, (d, out), ()) ==> effects(final(out)@).last()
                == EffectV::Ask(RequestV::SavePermissions, Reply::Ack) && !final(d).deck.open.permissions,
        forall|d: &mut Desk, out: &mut Vec<Effect>| #[trigger]
            call_ensures(Desk::installChosen, (d, server, command, out), ()) ==> {
                &&& effects(final(out)@).last() == EffectV::SendToTerminal(
                    crate::app::terminal_input::utf8_text(command@).push(10u8),
                )
                &&& !final(d).deck.open.lsp
            },
        forall|d: &mut Desk, out: &mut Vec<Effect>| #[trigger]
            call_ensures(Desk::cancelTurn, (d, out), ()) ==> effects(final(out)@).last()
                == EffectV::Cancel(true) && !final(d).deck.panel.turnActive,
{
}

/// What is copied is what is selected in the input, else in the conversation, else in the
/// terminal.
pub proof fn law_the_selection_is_copied(t: String, agent: bool, terminal: bool, r: CopySource)
    ensures
        call_ensures(copySource, (Some(t), agent, terminal), r) ==> r == CopySource::Text(t),
        call_ensures(copySource, (None, true, terminal), r) ==> r is Agent,
        call_ensures(copySource, (None, false, true), r) ==> r is Terminal,
        call_ensures(copySource, (None, false, false), r) ==> r is Nothing,
{
}

/// A paste goes where the focus is: into the input with plain line ends, or to the
/// terminal; while a prompt is open the input takes none.
pub proof fn law_pastes_go_where_the_focus_is(text: &str, bracketed: bool)
    ensures
        forall|d: &mut Desk, r: PasteAct|
            !d.deck.open.subagents && #[trigger] call_ensures(Desk::paste, (d, text, bracketed), r)
                ==> {
                &&& d.focus is Terminal ==> (r matches PasteAct::Send(b) && b@ == paste_bytes(
                    text@,
                    bracketed,
                ))
                &&& d.focus is Agent && !d.deck.panel.permit.pending ==> (
                r matches PasteAct::Insert(t) && t@ == normalized(text@))
                &&& d.focus is Agent && d.deck.panel.permit.pending ==> r is Done
                &&& final(d)@ == d@
            },
{
}

/// The focus is switched from one part to the other.
pub proof fn law_the_focus_is_switched()
    ensures
        forall|d: &mut Desk| #[trigger]
            call_ensures(Desk::switchFocus, (d,), ()) ==> (final(d).focus is Agent <==> d.focus
                is Terminal),
        forall|d: &mut Desk, close: bool, consumed: bool, r: bool| #[trigger]
            call_ensures(Desk::popupKey, (d, close, consumed), r) ==> (close ==> !final(d).deck.open.subagents) && (!close ==> final(d).deck.open.subagents
                == d.deck.open.subagents),
{
}

/// A layout is saved to where it was found, else to the usual place; one that was saved is
/// no longer unsaved, and one that was not stays so.
pub proof fn law_layouts_are_saved_where_they_were_found(
    a: &Arrangement,
    fallback: String,
    r: String,
    path: String,
    e: String,
    open: bool,
)
    ensures
        call_ensures(Arrangement::savePath, (a, fallback), r) ==> r@ == (match a.path {
            Some(p) => p@,
            None => fallback@,
        }),
        forall|b: &mut Arrangement, out: &mut Vec<Effect>| #[trigger]
            call_ensures(Arrangement::saved, (b, path, None, open, out), ()) ==> opt_text(
                final(b).path,
            ) == Some(path@) && final(b).layout == b.layout && (final(b).panel matches Some(p)
                ==> !p.dirty),
        forall|b: &mut Arrangement, out: &mut Vec<Effect>| #[trigger]
            call_ensures(Arrangement::saved, (b, path, Some(e), open, out), ()) ==> *final(b)
                == *b,
{
}

/// A selection is extended and ended in the part where it was begun.
pub proof fn law_selections_stay_in_their_part(column: u16, row: u16, p: PanelId)
    ensures
        forall|q: &Pointer, r: MouseStep|
            q.selectingIn == Some(p) && !(p is Input) && #[trigger] call_ensures(
                Pointer::drag,
                (q, column, row),
                r,
            ) ==> r == MouseStep::Extend(p),
        forall|q: &mut Pointer, r: MouseStep|
            q.selectingIn == Some(p) && !(p is Input) && #[trigger] call_ensures(
                Pointer::release,
                (q,),
                r,
            ) ==> r == MouseStep::Finish(p) && final(q).selectingIn is None,
        forall|q: &mut Pointer, rectangle: bool| #[trigger]
            call_ensures(Pointer::began, (q, &MouseStep::Begin { panel: p, rectangle }), ())
                ==> final(q).selectingIn == Some(p),
{
}

/// Repeated clicks select more: a second and a third what stands there on the screen, a
/// fourth the whole entry or region, and a single one nothing.
pub proof fn law_repeated_clicks_select_more(
    p: PanelId,
    clicks: u32,
    region: Option<(i32, i32)>,
    entry: Option<(i32, i32)>,
    r: Expansion,
)
    requires
        call_ensures(expansionOf, (p, clicks, region, entry), r),
    ensures
        clicks < 2 || p is Input ==> r is Nothing,
        !(p is Input) && (clicks == 2 || clicks == 3) ==> r is Screen,
        p is Agent && clicks == 4 && entry is Some ==> r == Expansion::Lines(
            (entry->0).0,
            (entry->0).1,
        ),
        p is Terminal && clicks == 4 && region is Some ==> r == Expansion::Lines(
            (region->0).0,
            (region->0).1,
        ),
{
}

// ---- sending ----

/// What is sent while nothing goes on is shown and handed to the session as it was
/// written; during a turn it waits and the turn is told.
pub proof fn law_messages_are_sent_or_wait(msg: String, now: u64)
    requires
        handled(msg@) is None,
    ensures
        forall|d: &mut Desk, out: &mut Vec<Effect>|
            !d.deck.panel.turnActive && #[trigger] call_ensures(
                Desk::submitted,
                (d, msg, now, out),
                (),
            ) ==> {
                &&& effects(final(out)@).last() matches EffectV::Send(i) && i.text@ == msg@
                    && i.attachments@ == d.deck.panel.compose.attachments@
                &&& final(d).deck.panel.turnActive
                &&& final(d).deck.panel.compose.attachments@.len() == 0
            },
        forall|d: &mut Desk, out: &mut Vec<Effect>|
            d.deck.panel.turnActive && #[trigger] call_ensures(
                Desk::submitted,
                (d, msg, now, out),
                (),
            ) ==> {
                &&& effects(final(out)@).last() is Steer
                &&& final(d).deck.panel.compose.queue@.last().text@ == msg@
                &&& final(d).deck.panel.compose.queue@.drop_last()
                    == d.deck.panel.compose.queue@
                &&& final(d)@.deck.panel.entries == d@.deck.panel.entries
            },
{
    assert forall|d: &mut Desk, out: &mut Vec<Effect>|
        d.deck.panel.turnActive && #[trigger] call_ensures(
            Desk::submitted,
            (d, msg, now, out),
            (),
        ) implies {
        &&& effects(final(out)@).last() is Steer
        &&& final(d).deck.panel.compose.queue@.last().text@ == msg@
        &&& final(d).deck.panel.compose.queue@.drop_last() == d.deck.panel.compose.queue@
        &&& final(d)@.deck.panel.entries == d@.deck.panel.entries
    } by {
        let q = final(d).deck.panel.compose.queue@;
        assert(q.drop_last() =~= d.deck.panel.compose.queue@);
    }
}

} // verus!
