//! What the calls that change the panel leave in it.

use vstd::prelude::*;
use vstd::string::*;
use crate::agent_panel::entry::{EntryV, PanelEntry, entry_views};
use crate::agent_panel::state::{AgentPanel, Attachment, PermitOrigin, UserInput};
use crate::agent_panel::turn_laws::{
    law_a_cancelled_turn_is_marked, law_a_complete_message_is_shown, law_a_message_is_shown,
    law_a_result_is_shown, law_what_streams_in_is_added,
};
use crate::impact::ShellImpact;
use crate::text::{opt_text, texts, trimmed};

verus! {

proof fn lemma_last(v: Seq<PanelEntry>)
    requires
        v.len() > 0,
    ensures
        entry_views(v).last() == v.last()@,
        entry_views(v).len() == v.len(),
{
}

/// What the user sends is the last entry, word for word where no image goes with it, and
/// a turn begins.
pub proof fn law_sending_shows_the_message(text: &str, now: u64)
    ensures
        forall|p: &mut AgentPanel|
            p.compose.attachments@.len() == 0 && #[trigger] call_ensures(
                AgentPanel::pushUser,
                (p, text, now),
                (),
            ) ==> {
                &&& final(p).entries@.len() == p.entries@.len() + 1
                &&& final(p).entries@.last() matches PanelEntry::User(t) && t@ == text@
                &&& final(p).turnActive
                &&& final(p).scroll.offset == 0
            },
{
    assert forall|p: &mut AgentPanel|
        p.compose.attachments@.len() == 0 && #[trigger] call_ensures(
            AgentPanel::pushUser,
            (p, text, now),
            (),
        ) implies {
        &&& final(p).entries@.len() == p.entries@.len() + 1
        &&& final(p).entries@.last() matches PanelEntry::User(t) && t@ == text@
        &&& final(p).turnActive
        &&& final(p).scroll.offset == 0
    } by {
        law_a_message_is_shown(p@, text@, now);
        assert(entry_views(p.entries@).len() == p.entries@.len());
        assert(entry_views(final(p).entries@).len() == final(p).entries@.len());
        lemma_last(final(p).entries@);
    }
}

/// During a turn, what a tool put out is the last entry, under its name and word for word.
pub proof fn law_a_tools_output_is_kept(name: &str, output: &str, now: u64)
    ensures
        forall|p: &mut AgentPanel|
            p.turnActive && #[trigger] call_ensures(
                AgentPanel::pushToolResult,
                (p, name, output, now),
                (),
            ) ==> {
                &&& final(p).entries@.len() > 0
                &&& final(p).entries@.last() matches PanelEntry::ToolResult { name: n, output: o }
                    && n@ == name@ && o@ == output@
                &&& !final(p).tools.active
            },
{
    assert forall|p: &mut AgentPanel|
        p.turnActive && #[trigger] call_ensures(
            AgentPanel::pushToolResult,
            (p, name, output, now),
            (),
        ) implies {
        &&& final(p).entries@.len() > 0
        &&& final(p).entries@.last() matches PanelEntry::ToolResult { name: n, output: o } && n@
            == name@ && o@ == output@
        &&& !final(p).tools.active
    } by {
        law_a_result_is_shown(p@, name@, output@, now);
        assert(entry_views(final(p).entries@).len() == final(p).entries@.len());
        lemma_last(final(p).entries@);
    }
}

/// During a turn, a tool that was allowed or refused is the last entry, as what it was.
pub proof fn law_verdicts_are_kept(name: &str, summary: &str, now: u64)
    ensures
        forall|p: &mut AgentPanel|
            p.turnActive && #[trigger] call_ensures(AgentPanel::toolApproved, (p, name), ())
                ==> final(p).entries@.len() > 0 && (
            final(p).entries@.last() matches PanelEntry::ToolApproved { name: n } && n@ == name@),
        forall|p: &mut AgentPanel|
            p.turnActive && #[trigger] call_ensures(AgentPanel::toolDenied, (p, name), ()) ==> final(p).entries@.len() == p.entries@.len() + 1 && (
            final(p).entries@.last() matches PanelEntry::ToolDenied { name: n } && n@ == name@),
        forall|p: &mut AgentPanel|
            p.turnActive && #[trigger] call_ensures(
                AgentPanel::toolAutoDenied,
                (p, name, summary),
                (),
            ) ==> final(p).entries@.len() == p.entries@.len() + 1 && (
            final(p).entries@.last() matches PanelEntry::ToolAutoDenied { name: n, summary: s }
                && n@ == name@ && s@ == summary@),
        forall|p: &mut AgentPanel|
            p.turnActive && #[trigger] call_ensures(
                AgentPanel::toolStarted,
                (p, name, summary, now),
                (),
            ) ==> final(p).entries@.len() > 0 && final(p).tools.active && (
            final(p).entries@.last() matches PanelEntry::ToolActive { summary: s } && s@
                == summary@),
{
    assert forall|p: &mut AgentPanel|
        p.turnActive && #[trigger] call_ensures(AgentPanel::toolApproved, (p, name), ()) implies final(p).entries@.len() > 0 && (final(p).entries@.last() matches PanelEntry::ToolApproved { name: n }
        && n@ == name@) by {
        assert(entry_views(final(p).entries@).len() == final(p).entries@.len());
        lemma_last(final(p).entries@);
    }
    assert forall|p: &mut AgentPanel|
        p.turnActive && #[trigger] call_ensures(AgentPanel::toolDenied, (p, name), ()) implies final(p).entries@.len() == p.entries@.len() + 1 && (
    final(p).entries@.last() matches PanelEntry::ToolDenied { name: n } && n@ == name@) by {
        assert(entry_views(p.entries@).len() == p.entries@.len());
        assert(entry_views(final(p).entries@).len() == final(p).entries@.len());
        lemma_last(final(p).entries@);
    }
    assert forall|p: &mut AgentPanel|
        p.turnActive && #[trigger] call_ensures(
            AgentPanel::toolAutoDenied,
            (p, name, summary),
            (),
        ) implies final(p).entries@.len() == p.entries@.len() + 1 && (
    final(p).entries@.last() matches PanelEntry::ToolAutoDenied { name: n, summary: s } && n@
        == name@ && s@ == summary@) by {
        assert(entry_views(p.entries@).len() == p.entries@.len());
        assert(entry_views(final(p).entries@).len() == final(p).entries@.len());
        lemma_last(final(p).entries@);
    }
    assert forall|p: &mut AgentPanel|
        p.turnActive && #[trigger] call_ensures(
            AgentPanel::toolStarted,
            (p, name, summary, now),
            (),
        ) implies final(p).entries@.len() > 0 && final(p).tools.active && (
    final(p).entries@.last() matches PanelEntry::ToolActive { summary: s } && s@ == summary@) by {
        assert(entry_views(final(p).entries@).len() == final(p).entries@.len());
        lemma_last(final(p).entries@);
    }
}

/// What streams in is neither lost nor reordered.
pub proof fn law_streamed_text_is_kept(text: &str, now: u64)
    ensures
        forall|p: &mut AgentPanel|
            p.turnActive && #[trigger] call_ensures(AgentPanel::appendContent, (p, text, now), ())
                ==> final(p).stream.content@ + final(p).stream.pending@ == p.stream.content@
                + p.stream.pending@ + text@,
        forall|p: &mut AgentPanel|
            p.turnActive && #[trigger] call_ensures(
                AgentPanel::appendReasoning,
                (p, text, now),
                (),
            ) ==> final(p).stream.reasoning@ == p.stream.reasoning@ + text@,
        forall|p: &mut AgentPanel|
            p.stream.pending@.len() == 0 && p.stream.content@.len() > 0 && #[trigger] call_ensures(
                AgentPanel::finalizeStreaming,
                (p,),
                (),
            ) ==> final(p).entries@.len() > 0 && (
            final(p).entries@.last() matches PanelEntry::Assistant(t) && t@ == p.stream.content@),
{
    assert forall|p: &mut AgentPanel|
        p.turnActive && #[trigger] call_ensures(
            AgentPanel::appendContent,
            (p, text, now),
            (),
        ) implies final(p).stream.content@ + final(p).stream.pending@ == p.stream.content@
        + p.stream.pending@ + text@ by {
        law_what_streams_in_is_added(p@, text@, now);
    }
    assert forall|p: &mut AgentPanel|
        p.stream.pending@.len() == 0 && p.stream.content@.len() > 0 && #[trigger] call_ensures(
            AgentPanel::finalizeStreaming,
            (p,),
            (),
        ) implies final(p).entries@.len() > 0 && (
    final(p).entries@.last() matches PanelEntry::Assistant(t) && t@ == p.stream.content@) by {
        law_a_complete_message_is_shown(p@);
        assert(entry_views(final(p).entries@).len() == final(p).entries@.len());
        lemma_last(final(p).entries@);
    }
}

/// A turn that is cancelled is marked so, and one that ends takes nothing away.
pub proof fn law_ends_of_turns_are_kept()
    ensures
        forall|p: &mut AgentPanel|
            p.turnActive && #[trigger] call_ensures(AgentPanel::finalizeCancelled, (p,), ())
                ==> !final(p).turnActive && final(p).entries@.len() > p.entries@.len() && final(p).entries@.last() is Cancelled,
        forall|p: &mut AgentPanel|
            p.turnActive && #[trigger] call_ensures(AgentPanel::finishTurn, (p,), ()) ==> !final(p).turnActive && final(p).entries@.len() >= p.entries@.len(),
{
    assert forall|p: &mut AgentPanel|
        p.turnActive && #[trigger] call_ensures(AgentPanel::finalizeCancelled, (p,), ()) implies !final(p).turnActive && final(p).entries@.len() > p.entries@.len() && final(p).entries@.last()
        is Cancelled by {
        law_a_cancelled_turn_is_marked(p@);
        assert(entry_views(p.entries@).len() == p.entries@.len());
        assert(entry_views(final(p).entries@).len() == final(p).entries@.len());
        lemma_last(final(p).entries@);
    }
    assert forall|p: &mut AgentPanel|
        p.turnActive && #[trigger] call_ensures(AgentPanel::finishTurn, (p,), ()) implies !final(p).turnActive && final(p).entries@.len() >= p.entries@.len() by {
        law_a_cancelled_turn_is_marked(p@);
        assert(entry_views(p.entries@).len() == p.entries@.len());
        assert(entry_views(final(p).entries@).len() == final(p).entries@.len());
    }
}

/// An error, what a command gave and a notice are the last entry in their own words.
pub proof fn law_notes_are_kept(text: &str)
    ensures
        forall|p: &mut AgentPanel| #[trigger]
            call_ensures(AgentPanel::pushError, (p, text), ()) ==> final(p).entries@.len()
                == p.entries@.len() + 1 && (final(p).entries@.last() matches PanelEntry::Error(t)
                && t@ == text@) && final(p).turnActive == p.turnActive,
        forall|p: &mut AgentPanel| #[trigger]
            call_ensures(AgentPanel::pushCommandResult, (p, text), ()) ==> final(p).entries@.len()
                == p.entries@.len() + 1 && (
            final(p).entries@.last() matches PanelEntry::CommandResult(t) && t@ == text@)
                && !final(p).turnActive,
        forall|p: &mut AgentPanel| #[trigger]
            call_ensures(AgentPanel::pushCommand, (p, text), ()) ==> final(p).entries@.len()
                == p.entries@.len() + 1 && (final(p).entries@.last() matches PanelEntry::User(t)
                && t@ == text@) && final(p).turnActive == p.turnActive,
        forall|p: &mut AgentPanel| #[trigger]
            call_ensures(AgentPanel::pushNotice, (p, text), ()) ==> final(p).entries@.len()
                == p.entries@.len() + 1 && (
            final(p).entries@.last() matches PanelEntry::CommandResult(t) && t@ == text@)
                && final(p).turnActive == p.turnActive,
{
    assert forall|p: &mut AgentPanel| #[trigger]
        call_ensures(AgentPanel::pushError, (p, text), ()) implies final(p).entries@.len()
        == p.entries@.len() + 1 && (final(p).entries@.last() matches PanelEntry::Error(t) && t@
        == text@) && final(p).turnActive == p.turnActive by {
        lemma_pushed(p.entries@, final(p).entries@, EntryV::Error(text@));
    }
    assert forall|p: &mut AgentPanel| #[trigger]
        call_ensures(AgentPanel::pushCommandResult, (p, text), ()) implies final(p).entries@.len()
        == p.entries@.len() + 1 && (final(p).entries@.last() matches PanelEntry::CommandResult(t)
        && t@ == text@) && !final(p).turnActive by {
        lemma_pushed(p.entries@, final(p).entries@, EntryV::CommandResult(text@));
    }
    assert forall|p: &mut AgentPanel| #[trigger]
        call_ensures(AgentPanel::pushCommand, (p, text), ()) implies final(p).entries@.len()
        == p.entries@.len() + 1 && (final(p).entries@.last() matches PanelEntry::User(t) && t@
        == text@) && final(p).turnActive == p.turnActive by {
        lemma_pushed(p.entries@, final(p).entries@, EntryV::User(text@));
    }
    assert forall|p: &mut AgentPanel| #[trigger]
        call_ensures(AgentPanel::pushNotice, (p, text), ()) implies final(p).entries@.len()
        == p.entries@.len() + 1 && (final(p).entries@.last() matches PanelEntry::CommandResult(t)
        && t@ == text@) && final(p).turnActive == p.turnActive by {
        lemma_pushed(p.entries@, final(p).entries@, EntryV::CommandResult(text@));
    }
}

proof fn lemma_pushed(a: Seq<PanelEntry>, b: Seq<PanelEntry>, e: EntryV)
    requires
        entry_views(b) == entry_views(a).push(e),
    ensures
        b.len() == a.len() + 1,
        b.last()@ == e,
{
    assert(entry_views(a).len() == a.len());
    assert(entry_views(b).len() == b.len());
    assert(entry_views(b).last() == e);
    lemma_last(b);
}

// ---- images and waiting messages ----

/// What was put into the input last is what is taken out of it: an image that is added is
/// the last one, taking the images takes them all in order, and a message that is taken
/// back is the one that was queued last.
pub proof fn law_what_is_put_in_is_taken_out(a: Attachment, atts: Vec<Attachment>, m: UserInput)
    ensures
        forall|p: &mut AgentPanel| #[trigger]
            call_ensures(AgentPanel::addAttachment, (p, a), ()) ==> final(p).compose.attachments@ == p.compose.attachments@.push(a),
        forall|p: &mut AgentPanel, r: Vec<Attachment>| #[trigger]
            call_ensures(AgentPanel::takeAttachments, (p,), r) ==> r@ == p.compose.attachments@
                && final(p).compose.attachments@.len() == 0,
        forall|p: &mut AgentPanel| #[trigger]
            call_ensures(AgentPanel::restoreAttachments, (p, atts), ()) ==> final(p).compose.attachments@ == p.compose.attachments@ + atts@,
        forall|p: &mut AgentPanel|
            p.compose.attachments@.len() > 0 && #[trigger] call_ensures(
                AgentPanel::removeLastAttachment,
                (p,),
                (),
            ) ==> final(p).compose.attachments@ == p.compose.attachments@.drop_last(),
        forall|p: &mut AgentPanel| #[trigger]
            call_ensures(AgentPanel::queueMessage, (p, m), ()) ==> final(p).compose.queue@
                == p.compose.queue@.push(m),
        forall|p: &mut AgentPanel, r: Option<UserInput>|
            p.compose.queue@.len() > 0 && #[trigger] call_ensures(
                AgentPanel::popQueuedMessage,
                (p,),
                r,
            ) ==> r == Some(p.compose.queue@.last()) && final(p).compose.queue@
                == p.compose.queue@.drop_last(),
{
}

// ---- the prompt ----

/// A prompt asks for the tool that it was opened for, and is closed by either answer.
pub proof fn law_prompts_ask_for_their_tool(
    name: &str,
    summary: &str,
    command: Option<String>,
    patterns: Vec<String>,
    diff: Option<String>,
    explanation: Option<String>,
    impact: ShellImpact,
    origin: PermitOrigin,
)
    ensures
        forall|p: &mut AgentPanel|
            p.turnActive && #[trigger] call_ensures(
                AgentPanel::showToolRequest,
                (p, name, summary, command, patterns, diff, explanation, impact, origin),
                (),
            ) ==> {
                &&& final(p).permit.pending
                &&& final(p).permit.toolName@ == name@
                &&& final(p).permit.toolSummary@ == summary@
                &&& texts(final(p).permit.patterns@) == texts(patterns@)
                &&& final(p).permit.impact == impact
                &&& final(p).permit.selected == 0
            },
        forall|p: &mut AgentPanel| #[trigger]
            call_ensures(AgentPanel::approvePending, (p,), ()) ==> !final(p).permit.pending,
        forall|p: &mut AgentPanel| #[trigger]
            call_ensures(AgentPanel::denyPending, (p,), ()) ==> !final(p).permit.pending && final(p).entries@.len() == p.entries@.len(),
        forall|p: &AgentPanel, r: Option<String>|
            p.permit.selected < p.permit.patterns@.len() && #[trigger] call_ensures(
                AgentPanel::selectedPattern,
                (p,),
                r,
            ) ==> (match r {
                Some(s) => s@ == trimmed(p.permit.patterns@[p.permit.selected as int]@),
                None => trimmed(p.permit.patterns@[p.permit.selected as int]@).len() == 0,
            }),
{
    assert forall|p: &mut AgentPanel| #[trigger]
        call_ensures(AgentPanel::denyPending, (p,), ()) implies !final(p).permit.pending && final(p).entries@.len() == p.entries@.len() by {
        assert(entry_views(p.entries@).len() == p.entries@.len());
        assert(entry_views(final(p).entries@).len() == final(p).entries@.len());
    }
    assert forall|p: &AgentPanel, r: Option<String>|
        p.permit.selected < p.permit.patterns@.len() && #[trigger] call_ensures(
            AgentPanel::selectedPattern,
            (p,),
            r,
        ) implies (match r {
        Some(s) => s@ == trimmed(p.permit.patterns@[p.permit.selected as int]@),
        None => trimmed(p.permit.patterns@[p.permit.selected as int]@).len() == 0,
    }) by {
        assert(texts(p.permit.patterns@)[p.permit.selected as int]
            == p.permit.patterns@[p.permit.selected as int]@);
        assert(opt_text(r) == p@.permit.pattern());
    }
}

} // verus!
