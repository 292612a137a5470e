//! What holds of the session, of its replies and of what the deck shows of them.

use vstd::prelude::*;
use crate::agent_panel::entry::{ContextState, EntryV};
use crate::app::arrangement::{found_layout, found_path, ignored_file};
use crate::app::deck::DeckV;
use crate::app::effect::EffectV;
use crate::app::models::{ModelProfile, ModelProfileStatus, ModelScope, kept_scopes, shows_profile};
use crate::app::pace::{ScrollAxis, ScrollAxisLock, presses_again};
use crate::app::request::{Reply, ack_update};
use crate::app::session::{
    AckV, ActV, SessionEvent, SettingsChange, SettingsOutcome, Work, is_unknown, kill_ack,
    next_acts, permissions_ack, settings_ack, terminal_ack,
};
use crate::app::status_bar::{ChipSpot, StatusInput, cache_span, chip_at, chips_of};
use crate::app::title::{TitleV, title_text};
use crate::app::updates::{CommandAck, DeckUpdate, PermitRequest};
use crate::draw::Color;
use crate::jobs_panel::{JobId, JobOutputSnapshot, JobsPanel};
use crate::layout::discovery::DiscoveredLayout;
use crate::text::{dec, has_prefix, opt_text, texts};

verus! {

// ---- what the session does next ----

/// What is asked of the session is what it does: a message runs a turn, a retry tries the
/// last one again, and so on; nothing is run where nothing was asked.
pub proof fn law_the_session_does_what_is_asked(e: SessionEvent, i: int)
    requires
        0 <= i < next_acts(e).len(),
        next_acts(e)[i] is Run,
    ensures
        ({
            let w = next_acts(e)[i]->Run_0;
            &&& w is Turn <==> e is UserWrote
            &&& w is Wake <==> e is WakesWait
            &&& w is Retry <==> e is RetryAsked
            &&& w is Resumption <==> e is ContinueAsked
            &&& i == next_acts(e).len() - 1
            &&& i > 0 && next_acts(e)[i - 1] is ReadCancel
        }),
{
}

/// Each of these events makes the session run something.
pub proof fn law_requests_for_work_run(e: SessionEvent)
    requires
        e is UserWrote || e is WakesWait || e is RetryAsked || e is ContinueAsked,
    ensures
        next_acts(e).len() > 0,
        next_acts(e).last() is Run,
{
}

/// A turn that failed is told with its error. Only a retry and a resumption were asked
/// for by name, and only they are answered, as failed where they failed.
pub proof fn law_failures_are_told(work: Work, m: String)
    ensures
        ({
            let bad = next_acts(SessionEvent::Ended { work, error: Some(m) });
            let good = next_acts(SessionEvent::Ended { work, error: None });
            &&& bad[0] is TellError
            &&& bad[0]->TellError_0.len() >= m@.len()
            &&& bad[0]->TellError_0.skip(bad[0]->TellError_0.len() - m@.len()) == m@
            &&& work is Turn || work is Wake ==> bad.len() == 1 && good.len() == 0
            &&& work is Retry || work is Resumption ==> {
                &&& bad.len() == 2 && bad[1] is Answer && !(bad[1]->Answer_0).ok
                &&& (bad[1]->Answer_0).message == bad[0]->TellError_0
                &&& good.len() == 1 && good[0] is Answer && (good[0]->Answer_0).ok
            }
        }),
{
    let bad = next_acts(SessionEvent::Ended { work, error: Some(m) });
    let t = bad[0]->TellError_0;
    assert(t.skip(t.len() - m@.len()) =~= m@);
}

/// A session that was resumed is shown and named, and its topic is told where it has one.
/// One that could not be is answered as failed with the reason, and a new one is made.
pub proof fn law_resuming_is_reported(id: String, topic: String, error: String)
    ensures
        ({
            let ok = next_acts(SessionEvent::Resumed { id, topic });
            let bad = next_acts(SessionEvent::ResumeFailed { id, error });
            &&& ok[0] is SwapPlanes && ok[1] is StartMcp && ok[2] is TellRestored
            &&& topic@.len() > 0 ==> ok.len() == 5 && ok[3] == ActV::TellTopic(topic@)
            &&& topic@.len() == 0 ==> ok.len() == 4
            &&& ok.last() == ActV::Answer(AckV { ok: true, message: "Resumed session "@ + id@ })
            &&& bad.len() == 2
            &&& bad[0] is Answer && !(bad[0]->Answer_0).ok
            &&& (bad[0]->Answer_0).message == "Failed to resume "@ + id@ + ": "@ + error@
            &&& bad[1] is MakeNew
        }),
{
}

/// Clearing makes a new session, tells so and says so; where that fails the session ends,
/// and a session that was lost ends with an error.
pub proof fn law_clearing_is_reported(error: String)
    ensures
        ({
            let asked = next_acts(SessionEvent::ClearAsked);
            let ok = next_acts(SessionEvent::Fresh);
            let bad = next_acts(SessionEvent::ClearFailed { error });
            let lost = next_acts(SessionEvent::Lost { error });
            &&& asked.last() is MakeNew
            &&& ok.len() == 4 && ok[2] is TellCleared && ok[3] is Answer && (ok[3]->Answer_0).ok
            &&& bad[0] is Answer && !(bad[0]->Answer_0).ok
            &&& (bad[0]->Answer_0).message == "Failed to create new session: "@ + error@
            &&& bad.last() is Stop
            &&& lost[0] is TellError
            &&& lost.last() is Stop
            &&& next_acts(SessionEvent::ResumeAsked).last() is ResumeAnother
            &&& next_acts(SessionEvent::ShutdownAsked).last() is Stop
        }),
{
}

/// The session ends only where it was asked to or was lost.
pub proof fn law_the_session_ends_only_when_asked_or_lost(e: SessionEvent, i: int)
    requires
        0 <= i < next_acts(e).len(),
        next_acts(e)[i] is Stop,
    ensures
        e is ShutdownAsked || e is Lost || e is ClearFailed,
{
}

// ---- acknowledgements ----

/// What was done is acknowledged as done, and what failed as failed, with the reason.
pub proof fn law_acks_tell_what_happened(id: u64, name: Seq<char>, e: String)
    ensures
        kill_ack(id, Ok(())).ok,
        kill_ack(id, Ok(())).message == "Killing task #"@ + dec(id as nat) + "."@,
        !kill_ack(id, Err(e)).ok,
        kill_ack(id, Err(e)).message == e@,
        terminal_ack(name, Ok(())).ok,
        terminal_ack(name, Ok(())).message == "Killed terminal '"@ + name + "'."@,
        !terminal_ack(name, Err(e)).ok,
        terminal_ack(name, Err(e)).message == e@,
        permissions_ack(Some(Ok(()))).ok,
        !permissions_ack(Some(Err(e))).ok,
        !permissions_ack(None).ok,
        has_prefix(permissions_ack(Some(Err(e))).message, "Failed to save permissions: "@),
        permissions_ack(Some(Err(e))).message.skip(
            "Failed to save permissions: "@.len() as int,
        ) == e@,
{
    let t = permissions_ack(Some(Err(e))).message;
    let n = "Failed to save permissions: "@.len() as int;
    assert(t.take(n) =~= "Failed to save permissions: "@);
    assert(t.skip(n) =~= e@);
}

/// A change of the settings is acknowledged only where it was saved and read again, and
/// a failure ends with its reason.
pub proof fn law_settings_are_acknowledged_when_saved(
    c: SettingsChange,
    o: SettingsOutcome,
    known: Seq<String>,
)
    ensures
        settings_ack(c, o).ok <==> o is Saved,
        o matches SettingsOutcome::Unsaved(e) ==> ends_with(settings_ack(c, o).message, e@),
        o matches SettingsOutcome::Unread(e) ==> ends_with(settings_ack(c, o).message, e@),
        c matches SettingsChange::Selection { profile, .. } ==> (is_unknown(c, known) <==> forall|
            i: int,
        |
            0 <= i < known.len() ==> (#[trigger] known[i])@ != profile@),
        c matches SettingsChange::Discovered { profile, .. } ==> (is_unknown(c, known) <==> forall|
            i: int,
        |
            0 <= i < known.len() ==> (#[trigger] known[i])@ != profile@),
        !(c is Selection) && !(c is Discovered) ==> !is_unknown(c, known),
        c matches SettingsChange::Selection { profile, .. } ==> settings_ack(
            c,
            SettingsOutcome::UnknownProfile,
        ).message == "Unknown model profile: "@ + profile@,
{
    let m = settings_ack(c, o).message;
    match o {
        SettingsOutcome::Unsaved(e) => {
            assert(m.skip(m.len() - e@.len()) =~= e@);
        },
        SettingsOutcome::Unread(e) => {
            assert(m.skip(m.len() - e@.len()) =~= e@);
        },
        _ => {},
    }
}

/// Whether `s` ends with `t`.
pub open spec fn ends_with(s: Seq<char>, t: Seq<char>) -> bool {
    t.len() <= s.len() && s.skip(s.len() - t.len()) == t
}

/// A reply that only tells whether something was done is shown; a silent one is shown
/// only where it failed; and that of a resumption goes to those who wait for it.
pub proof fn law_replies_are_handed_on(ack: CommandAck)
    ensures
        ack_update(Reply::Ack, ack) == Some(DeckUpdate::CommandAck(ack)),
        ack.ok ==> ack_update(Reply::SilentAck, ack) is None,
        !ack.ok ==> ack_update(Reply::SilentAck, ack) == Some(DeckUpdate::CommandAck(ack)),
        ack_update(Reply::Resumed, ack) == Some(DeckUpdate::ResumeResult(ack)),
{
}

// ---- what the deck shows of replies ----

/// A reply with a text shows that text as the last entry; one with a context shows that;
/// and the panels open that were asked for, each its own.
pub proof fn law_replies_are_shown(
    d: DeckV,
    now: u64,
    after: DeckV,
    text: String,
    state: ContextState,
    u: DeckUpdate,
)
    requires
        d.updated(u, now, after),
    ensures
        u == DeckUpdate::ShowResult(text) ==> after.panel.entries == d.panel.entries.push(
            EntryV::CommandResult(text@),
        ) && after.open == d.open,
        u == DeckUpdate::ContextDisplay(state) ==> after.panel.entries == d.panel.entries.push(
            EntryV::ContextDisplay(state),
        ),
        u is McpStatus ==> after.open.mcp && after.open.lsp == d.open.lsp && after.open.model
            == d.open.model && after.panel == d.panel,
        u is LspStatus ==> after.open.lsp && after.open.mcp == d.open.mcp && after.panel
            == d.panel,
        u is ModelStatus ==> after.open.model && after.open.mcp == d.open.mcp && after.panel
            == d.panel,
        u is PermissionsStatus ==> after.open.permissions && after.open.model == d.open.model
            && after.panel == d.panel,
        u is RewindOptions ==> after.open.rewind && after.open.sessions == d.open.sessions
            && after.panel == d.panel,
        u is Forks ==> after.forks is Some && after.panel == d.panel && after.open == d.open,
        u is TasksList ==> after.tasks is Some && after.panel == d.panel,
        u is TasksList && d.tasks is None ==> after.background.unread == Set::<JobId>::empty(),
        u is WakesList && d.tasks is None ==> after == d,
{
    reveal(DeckV::updated);
}

/// That a command was carried out is shown where there is something to say; that a fork
/// could not be switched to is shown in its picker.
pub proof fn law_acknowledgements_are_shown(d: DeckV, ack: CommandAck)
    ensures
        d.forks is None && ack.message@.len() > 0 ==> d.acknowledged(ack).panel.entries
            == d.panel.entries.push(EntryV::CommandResult(ack.message@)),
        d.forks is None && ack.message@.len() == 0 ==> d.acknowledged(ack) == d,
        d.forks is Some && !ack.ok ==> d.acknowledged(ack).forks is Some && (d.acknowledged(
            ack,
        ).forks->0).error == Some(ack.message) && (d.acknowledged(ack).forks->0).state is Browsing
            && d.acknowledged(ack).panel == d.panel,
{
}

/// A session that was resumed is announced and its picker closes. One that could not be
/// is an error in the picker where that is open, and else in the conversation.
pub proof fn law_resumptions_are_shown(d: DeckV, ack: CommandAck)
    ensures
        ack.ok ==> d.resumed(ack).panel.entries == d.panel.entries.push(
            EntryV::SessionNotice(ack.message@),
        ) && !d.resumed(ack).open.sessions,
        !ack.ok && d.open.sessions ==> d.resumed(ack) == d && d.update_effects(
            DeckUpdate::ResumeResult(ack),
        ) == seq![EffectV::ResumeFailed(ack.message@)],
        !ack.ok && !d.open.sessions ==> d.resumed(ack).panel.entries == d.panel.entries.push(
            EntryV::Error(ack.message@),
        ) && d.update_effects(DeckUpdate::ResumeResult(ack)).len() == 0,
{
    reveal(DeckV::update_effects);
}

/// A request for permission opens the prompt for the tool that it names, and is flagged
/// in the title where nobody looks. One of a subagent shows that subagent.
pub proof fn law_requests_for_permission_are_shown(d: DeckV, r: PermitRequest)
    requires
        d.panel.turnActive,
    ensures
        ({
            let q = d.permit_asked(r);
            &&& q.panel.permit.pending
            &&& q.panel.permit.toolName == r.name@
            &&& q.panel.permit.toolSummary == r.summary@
            &&& q.panel.permit.patterns == texts(r.patterns@)
            &&& q.panel.permit.explanation == opt_text(r.explanation)
            &&& q.panel.permit.impact == r.impact
            &&& q.panel.permit.origin == Some(r.origin@)
            &&& q.panel.entries.last() == (EntryV::ToolRequest {
                summary: r.summary@,
                diff: opt_text(r.diff),
                command: opt_text(r.command),
            })
            &&& !d.title.windowFocused ==> q.title.unseenPermit && d.permit_effects().len() == 1
            &&& d.title.windowFocused ==> q.title == d.title && d.permit_effects().len() == 0
            &&& r.origin@ is Top ==> !q.open.subagents
            &&& r.origin@ is Subagent && d.open.subagents ==> q.open.subagents
        }),
{
}

// ---- the title ----

/// The title names what the session is about behind its glyph, and the deck where it is
/// about nothing yet. What waits to be seen comes first.
pub proof fn law_the_title_names_the_topic(t: TitleV, glyph: Seq<char>, topic: Seq<char>)
    ensures
        topic.len() > 0 ==> title_text(glyph, Some(topic)) == glyph + " "@ + topic,
        title_text(glyph, None) == "flatline"@,
        topic.len() == 0 ==> title_text(glyph, Some(topic)) == "flatline"@,
        t.unseenPermit ==> t.topic_glyph(true) == "\u{26A0}\u{FE0E}"@ && t.topic_glyph(false)
            == "\u{26A0}\u{FE0E}"@,
        t.unseenWork && !t.unseenPermit ==> t.topic_glyph(true) == "\u{2709}\u{FE0E}"@
            && t.topic_glyph(false) == "\u{2709}\u{FE0E}"@,
        !t.unseenWork && !t.unseenPermit ==> t.topic_glyph(false) == "\u{1F0B1}"@,
        t.focused(false).windowFocused,
        !t.focused(false).unseenWork && !t.focused(false).unseenPermit,
        t.focused(true).unseenPermit == t.unseenPermit,
        t.focused(true).topic == t.topic,
{
}

// ---- models ----

/// A profile is shown as it is set, and counts as configured where its provider can be
/// used: with a key, or with a login where the provider wants one.
pub proof fn law_profiles_are_shown_as_set(s: ModelProfileStatus, p: ModelProfile, codex: bool)
    requires
        shows_profile(s, p, codex),
    ensures
        s.name@ == p.name@,
        s.provider@ == p.provider@,
        s.model@ == p.model@,
        s.contextWindow == p.contextWindow,
        s.promptThinking == p.promptThinking,
        opt_text(s.reasoningEffort) == opt_text(p.reasoningEffort),
        p.provider@ == "openai-codex"@ ==> s.configured == codex,
        p.provider@ != "openai-codex"@ ==> s.configured == (p.key@.len() > 0),
{
}

/// The scopes that have a file are listed with it, in order; the others are left out.
pub proof fn law_scopes_with_a_file_are_listed(s: Seq<ModelScope>, m: ModelScope)
    ensures
        m.path matches Some(p) ==> kept_scopes(s.push(m)) == kept_scopes(s).push((m.label@, p@)),
        m.path is None ==> kept_scopes(s.push(m)) == kept_scopes(s),
        kept_scopes(Seq::empty()).len() == 0,
{
    assert(s.push(m).drop_last() =~= s);
}

// ---- the status bar ----

/// The bar shows how many tasks run, what the session costs and how full the context is,
/// in this order, and only what there is to show.
pub proof fn law_the_bar_shows_what_there_is(s: StatusInput)
    ensures
        ({
            let c = chips_of(s);
            let jobs: int = if s.running > 0 || s.background {
                1
            } else {
                0
            };
            let cost: int = if s.cost@.len() > 0 {
                1
            } else {
                0
            };
            let full: int = if s.tokens > 0 && s.window > 0 {
                1
            } else {
                0
            };
            &&& c.len() == jobs + cost + full
            &&& jobs == 1 ==> c[0].kind is Jobs
            &&& s.running > 1 ==> c[0].text == "\u{25F4} "@ + dec(s.running as nat) + " tasks"@
            &&& s.running == 1 ==> c[0].text == "\u{25F4} 1 task"@
            &&& cost == 1 ==> c[jobs].kind is Cost && c[jobs].text == s.cost@
            &&& full == 1 ==> c[jobs + cost].kind is Context
        }),
{
    reveal_strlit("ctx ");
    reveal_strlit(" task");
    reveal_strlit("s");
    reveal_strlit(" tasks");
    reveal_strlit("");
    reveal_strlit("\u{25F4} ");
    reveal_strlit("\u{25F4} 1 task");
    let c = chips_of(s);
    if s.running > 1 {
        assert(c[0].text =~= "\u{25F4} "@ + dec(s.running as nat) + " tasks"@);
    }
    if s.running == 1 {
        assert(dec(1) =~= seq!['1']);
        assert(c[0].text =~= "\u{25F4} 1 task"@);
    }
}

/// A click on a chip finds the chip that is drawn there.
pub proof fn law_a_click_finds_its_chip(c: Seq<ChipSpot>, x: u16, y: u16, from: int)
    requires
        0 <= from,
    ensures
        match chip_at(c, x, y, from) {
            Some(i) => from <= i < c.len() && c[i].y == y && c[i].xs <= x < c[i].xe,
            None => forall|i: int|
                from <= i < c.len() ==> !((#[trigger] c[i]).y == y && c[i].xs <= x < c[i].xe),
        },
    decreases c.len() - from,
{
    if from < c.len() {
        law_a_click_finds_its_chip(c, x, y, from + 1);
    }
}

/// The sign of the cache is shown where there is caching, warmer the newer the last hit.
pub proof fn law_the_cache_cools_down(last: u64, now: u64, bg: Color)
    requires
        last <= now,
    ensures
        cache_span(false, Some(last), now, bg) is None,
        cache_span(true, None, now, bg) is Some,
        now - last < 60_000 ==> (cache_span(true, Some(last), now, bg)->0).style.fg == Some(
            Color::Red,
        ),
        now - last >= 300_000 ==> (cache_span(true, Some(last), now, bg)->0).text
            == "\u{2744}\u{FE0E}"@,
        now - last < 300_000 ==> (cache_span(true, Some(last), now, bg)->0).text
            == "\u{2668}\u{FE0E}"@,
{
}

// ---- pace ----

/// A second press counts within a second, and the axis of a scroll holds for the events
/// that follow closely.
pub proof fn law_closeness_in_time(
    l: ScrollAxisLock,
    a: ScrollAxis,
    last: u64,
    now: u64,
)
    requires
        last <= now,
        l.lastEvent <= now,
    ensures
        presses_again(Some(last), now) <==> now - last < 1000,
        !presses_again(None, now),
        l.axis matches Some(b) && a != b ==> (l.allows(a, now) <==> now - l.lastEvent > 150),
        l.axis == Some(a) || l.axis is None ==> l.allows(a, now),
        l.allows(a, now) ==> l.after(a, now).axis == Some(a),
        l.after(a, now).lastEvent == now,
{
}

// ---- the layout that is found ----

/// The layout that was found is used where it can be read, and a file that cannot be is
/// named in a warning.
pub proof fn law_the_found_layout_is_used(d: DiscoveredLayout, open: bool)
    ensures
        d.result matches Ok(l) ==> found_layout(Some(d)) == l@ && ignored_file(
            Some(d),
            open,
        ).len() == 0,
        d.result matches Err(m) ==> ignored_file(Some(d), open).len() > 0 && ignored_file(
            Some(d),
            open,
        )[0] is Record && (ignored_file(Some(d), open)[0]->Record_0).detail == Some(
            d.path@ + ": "@ + m@,
        ),
        found_path(Some(d)) == Some(d.path@),
        found_path(None) is None,
        ignored_file(None, open).len() == 0,
        found_layout(None) == crate::layout::default_phase1(),
{
}

// ---- the output of jobs ----

/// Output is shown where it was asked for: for the job that is shown, from the line that
/// it was asked from; what comes late for another is dropped. A job is opened where the
/// panel is.
pub proof fn law_output_is_shown_where_it_was_asked_for(
    d: DeckV,
    p: JobsPanel,
    id: JobId,
    since: Option<u64>,
    snap: JobOutputSnapshot,
    now: u64,
    after: DeckV,
)
    requires
        d.tasks == Some(p),
    ensures
        p.accepts(id, since) ==> d.output_refreshed(id, since, Some(snap)).tasks == Some(
            p.showing(snap),
        ),
        !p.accepts(id, since) ==> d.output_refreshed(id, since, Some(snap)).tasks == Some(p),
        d.output_refreshed(id, since, None).tasks == Some(p),
        d.updated(DeckUpdate::TaskOutputOpen { id, snap }, now, after) ==> after.tasks == Some(
            p.opened(id, snap),
        ) && after.panel == d.panel,
        !d.inspector.dirty ==> !d.output_refreshed(id, since, Some(snap)).inspector.inFlight,
{
    reveal(DeckV::updated);
}

} // verus!
