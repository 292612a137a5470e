//! What the deck makes of what the session tells.

use vstd::prelude::*;
use crate::agent_panel::entry::EntryV;
use crate::agent_panel::state::Attachment;
use crate::agent_panel::turn_laws::{
    has_start, is_block_of, is_subagent, law_a_cancelled_turn_is_marked,
    law_a_complete_message_is_shown, law_a_result_is_shown, law_a_subagent_gets_a_block,
    law_a_subagent_speaks_for_itself, law_a_subagents_work_is_in_its_block,
    law_waiting_messages_are_shown_in_order, law_what_streams_in_is_added, message, no_active,
};
use crate::app::deck::DeckV;
use crate::app::effect::{EffectV, LogLevel};
use crate::app::event::LogEvent;
use crate::app::replay::replayed;
use crate::jobs_panel::JobId;
use crate::text::{byte_len, dec, dec_int, has_prefix, texts};

verus! {

// ---- the turn ----

/// What the model writes is added to the message that streams in, and what it thinks to
/// its reasoning.
pub proof fn law_deltas_are_taken_up(d: DeckV, t: String, images: Seq<Attachment>, now: u64)
    requires
        d.panel.turnActive,
    ensures
        ({
            let c = d.after(LogEvent::ContentDelta(t), images, now).panel;
            let r = d.after(LogEvent::ReasoningDelta(t), images, now).panel;
            &&& message(c) == message(d.panel) + t@
            &&& c.stream.reasoning == d.panel.stream.reasoning
            &&& r.stream.reasoning == d.panel.stream.reasoning + t@
            &&& message(r) == message(d.panel)
            &&& c.entries == d.panel.entries && r.entries == d.panel.entries
        }),
{
    reveal(DeckV::after);
    reveal(DeckV::stream_panel);
    law_what_streams_in_is_added(d.panel, t@, now);
}

/// A tool that starts is shown as running, and its result as the last entry under its
/// name. The tools that have a receipt or a block of their own are shown there.
pub proof fn law_tools_are_followed(
    d: DeckV,
    name: String,
    summary: String,
    output: String,
    images: Seq<Attachment>,
    now: u64,
)
    requires
        d.panel.turnActive,
        name@ != "task"@,
    ensures
        ({
            let s = d.after(LogEvent::ToolStarted { name, summary }, images, now).panel;
            let r = d.after(LogEvent::ToolResult { name, output }, images, now).panel;
            let waking = name@ == "scheduleWakeup"@ || name@ == "cronCreate"@ || name@
                == "fileWatch"@ || name@ == "cronDelete"@;
            let receipt = waking && (has_prefix(output@, "Armed wake #"@) || has_prefix(
                output@,
                "Disarmed wake #"@,
            ));
            &&& s.entries.last() == EntryV::ToolActive(summary@)
            &&& s.tools.active
            &&& s.tools.startTime == Some(now)
            &&& !receipt ==> r.entries.last() == (EntryV::ToolResult {
                name: name@,
                output: output@,
            })
            &&& !r.tools.active
            &&& no_active(d.panel.entries) ==> has_start(r.entries, d.panel.entries)
        }),
{
    reveal(DeckV::after);
    reveal(DeckV::stream_panel);
    law_a_result_is_shown(d.panel, name@, output@, now);
    let r = d.after(LogEvent::ToolResult { name, output }, images, now).panel;
    if no_active(d.panel.entries) {
        crate::agent_panel::turn_laws::lemma_no_active(
            d.panel.entries,
            d.panel.entries.len() as int,
        );
        assert(r.entries.take(d.panel.entries.len() as int) =~= d.panel.entries);
    }
}

/// The end of a task's tool is not shown twice: its subagent has a block.
pub proof fn law_tasks_are_shown_by_their_block(
    d: DeckV,
    name: String,
    summary: String,
    output: String,
    images: Seq<Attachment>,
    now: u64,
)
    requires
        name@ == "task"@,
    ensures
        d.after(LogEvent::ToolStarted { name, summary }, images, now).panel == d.panel,
        d.after(LogEvent::ToolResult { name, output }, images, now).panel == d.panel,
{
    reveal(DeckV::after);
    reveal(DeckV::stream_panel);
}

/// What was decided about a tool is shown under its name: that a rule allowed it, that
/// the user or a rule refused it, or that the turn ended on it.
pub proof fn law_decisions_on_tools_are_shown(
    d: DeckV,
    name: String,
    summary: String,
    images: Seq<Attachment>,
    now: u64,
)
    requires
        d.panel.turnActive,
        name@ != "scheduleWakeup"@ && name@ != "cronCreate"@ && name@ != "fileWatch"@ && name@
            != "cronDelete"@,
    ensures
        d.after(LogEvent::ToolAutoApproved { name, summary }, images, now).panel.entries.last()
            == EntryV::ToolApproved(name@ + ": "@ + summary@),
        d.after(LogEvent::ToolDenied { name }, images, now).panel.entries == d.panel.entries.push(
            EntryV::ToolDenied(name@),
        ),
        d.after(LogEvent::ToolAutoDenied { name, summary }, images, now).panel.entries
            == d.panel.entries.push(EntryV::ToolAutoDenied { name: name@, summary: summary@ }),
        d.after(LogEvent::TurnAborted { name }, images, now).panel.entries == d.panel.entries.push(
            EntryV::Error("Turn aborted: "@ + name@ + " not permitted"@),
        ),
{
    reveal(DeckV::after);
    reveal(DeckV::permit_panel);
}

/// A turn that ends leaves its message in the conversation, or to be revealed; one that
/// is cancelled leaves a mark; one that fails leaves the error. None takes an entry away.
pub proof fn law_turns_end(d: DeckV, msg: String, images: Seq<Attachment>, now: u64)
    requires
        d.panel.turnActive,
    ensures
        ({
            let done = d.after(LogEvent::TurnComplete, images, now).panel;
            let gone = d.after(LogEvent::TurnCancelled, images, now).panel;
            let bad = d.after(LogEvent::Error(msg), images, now).panel;
            let n = d.panel.entries.len() as int;
            &&& !done.turnActive && !gone.turnActive && !bad.turnActive
            &&& has_start(done.entries, d.panel.entries)
            &&& has_start(gone.entries, d.panel.entries)
            &&& has_start(bad.entries, d.panel.entries)
            &&& gone.entries.last() == EntryV::Cancelled
            &&& bad.entries.len() > n
            &&& bad.entries[n] == EntryV::Error(msg@)
            &&& d.panel.stream.pending.len() == 0 && d.panel.stream.content.len() > 0
                ==> done.entries.last() == EntryV::Assistant(d.panel.stream.content)
            &&& done.compose.queue == d.panel.compose.queue
            &&& gone.compose.queue.len() == 0
        }),
{
    reveal(DeckV::after);
    reveal(DeckV::turn_panel);
    law_a_cancelled_turn_is_marked(d.panel);
    law_a_complete_message_is_shown(d.panel);
    let e = d.panel.entries;
    let done = d.after(LogEvent::TurnComplete, images, now).panel;
    let gone = d.after(LogEvent::TurnCancelled, images, now).panel;
    let bad = d.after(LogEvent::Error(msg), images, now).panel;
    assert(done.entries.take(e.len() as int) =~= e);
    assert(gone.entries.take(e.len() as int) =~= e);
    assert(bad.entries.take(e.len() as int) =~= e);
}

/// Messages that were handed to the running turn are shown in order and wait no more.
pub proof fn law_steered_messages_are_shown(
    d: DeckV,
    t: Vec<String>,
    images: Seq<Attachment>,
    now: u64,
    i: int,
)
    requires
        0 <= i < t@.len(),
    ensures
        ({
            let p = d.after(LogEvent::SteerInjected { texts: t }, images, now).panel;
            &&& p.entries.len() == d.panel.entries.len() + t@.len()
            &&& p.entries[d.panel.entries.len() + i] == EntryV::User(t@[i]@)
            &&& has_start(p.entries, d.panel.entries)
            &&& p.compose.queue.len() == 0
        }),
{
    reveal(DeckV::after);
    reveal(DeckV::turn_panel);
    law_waiting_messages_are_shown_in_order(d.panel, texts(t@), i);
}

// ---- subagents ----

/// A subagent is shown in a block from its start to its end: what its tools do as lines,
/// what it says in its transcript, and its reply in the block.
pub proof fn law_subagents_are_followed(
    d: DeckV,
    sid: String,
    kind: String,
    text: String,
    turns: usize,
    images: Seq<Attachment>,
    now: u64,
    i: int,
)
    ensures
        ({
            let s = d.after(
                LogEvent::SubagentStarted { sessionId: sid, agentType: kind, prompt: text },
                images,
                now,
            ).panel;
            let c = d.after(
                LogEvent::SubagentComplete {
                    sessionId: sid,
                    agentType: kind,
                    turns,
                    content: text,
                },
                images,
                now,
            ).panel;
            &&& is_block_of(s.entries, sid@, s.entries.len() - 1)
            &&& s.entries.last()->SubagentBlock_0.agentType == kind@
            &&& s.entries.last()->SubagentBlock_0.prompt == text@
            &&& s.subs.active.last().sessionId == sid@
            &&& is_block_of(d.panel.entries, sid@, i) ==> {
                &&& c.entries.len() == d.panel.entries.len()
                &&& c.entries[i] is SubagentBlock
                &&& c.entries[i]->SubagentBlock_0.done
                &&& c.entries[i]->SubagentBlock_0.turns == turns
                &&& text@.len() > 0 ==> c.entries[i]->SubagentBlock_0.content == Some(text@)
            }
        }),
{
    reveal(DeckV::after);
    reveal(DeckV::subagent_panel);
    law_a_subagent_gets_a_block(d.panel, sid@, kind@, text@, now);
    if is_block_of(d.panel.entries, sid@, i) {
        law_a_subagents_work_is_in_its_block(d.panel, sid@, i, kind@, text@, turns, text@);
    }
}

/// What a subagent's tools do and put out are lines of its block; what it writes is in
/// its transcript and not in the conversation.
pub proof fn law_a_subagents_news_stay_with_it(
    d: DeckV,
    sid: String,
    name: String,
    text: String,
    images: Seq<Attachment>,
    now: u64,
    i: int,
    k: int,
    started: LogEvent,
    result: LogEvent,
    delta: LogEvent,
    error: LogEvent,
)
    requires
        is_block_of(d.panel.entries, sid@, i),
        is_subagent(d.panel.subs, sid@, k),
        started matches LogEvent::SubagentEvent { sessionId, event } && sessionId@ == sid@ && *event
            == (LogEvent::ToolStarted { name, summary: text }),
        result matches LogEvent::SubagentEvent { sessionId, event } && sessionId@ == sid@ && *event
            == (LogEvent::ToolResult { name, output: text }),
        delta matches LogEvent::SubagentEvent { sessionId, event } && sessionId@ == sid@ && *event
            == LogEvent::ContentDelta(text),
        error matches LogEvent::SubagentEvent { sessionId, event } && sessionId@ == sid@ && *event
            == LogEvent::Error(text),
    ensures
        ({
            let lines = d.panel.entries[i]->SubagentBlock_0.toolLines;
            let s = d.after(started, images, now).panel;
            let r = d.after(result, images, now).panel;
            let w = d.after(delta, images, now).panel;
            let x = d.after(error, images, now).panel;
            &&& s.entries[i]->SubagentBlock_0.toolLines == lines.push((name@, text@))
            &&& x.entries[i]->SubagentBlock_0.toolLines == lines.push(("error"@, text@))
            &&& byte_len(text@) <= 60 ==> r.entries[i]->SubagentBlock_0.toolLines == lines.push(
                (name@, text@),
            )
            &&& r.subs.active[k].transcript.last() == (EntryV::ToolResult {
                name: name@,
                output: text@,
            })
            &&& s.entries.len() == d.panel.entries.len()
            &&& r.entries.len() == d.panel.entries.len()
            &&& w.entries == d.panel.entries
            &&& w.subs.active[k].transcript.len() > 0
            &&& w.subs.active[k].transcript.last() matches EntryV::Assistant(t)
                && t.len() >= text@.len() && t.skip(t.len() - text@.len()) == text@
        }),
{
    reveal(DeckV::after);
    reveal(DeckV::subagent_panel);
    let p = d.panel;
    law_a_subagents_work_is_in_its_block(p, sid@, i, name@, text@, 0, text@);
    law_a_subagents_work_is_in_its_block(p, sid@, i, "error"@, text@, 0, text@);
    law_a_subagents_work_is_in_its_block(
        p,
        sid@,
        i,
        name@,
        crate::text::brief(text@, 60),
        0,
        text@,
    );
    law_a_subagent_speaks_for_itself(p.subs, sid@, k, text@, EntryV::Cancelled);
    let q = p.subagent_tool(sid@, name@, crate::text::brief(text@, 60));
    let note = EntryV::ToolApproved(name@ + ": "@ + crate::text::brief(text@, 60));
    law_a_subagent_speaks_for_itself(p.subs, sid@, k, text@, note);
    assert(q.subs == p.subs.noted(sid@, note));
    assert(is_subagent(q.subs, sid@, k)) by {
        assert forall|j: int| 0 <= j < k implies (#[trigger] q.subs.active[j]).sessionId
            != sid@ by {
            assert(q.subs.active[j] == p.subs.active[j]);
        }
    }
    law_a_subagent_speaks_for_itself(
        q.subs,
        sid@,
        k,
        text@,
        EntryV::ToolResult { name: name@, output: text@ },
    );
    let t = p.subs.active[k].transcript;
    let w = d.after(delta, images, now).panel.subs.active[k].transcript.last()->Assistant_0;
    if t.len() > 0 && t.last() is Assistant {
        assert(w.skip(w.len() - text@.len()) =~= text@);
    } else {
        assert(w.skip(0) =~= text@);
    }
}

// ---- the session ----

/// A session that is resumed shows what was recorded of it and nothing else; its tokens
/// and its background start from nothing.
pub proof fn law_a_resumed_session_shows_its_record(
    d: DeckV,
    turns: Vec<crate::transcript::Turn>,
    children: Vec<crate::app::replay::ChildSession>,
    images: Seq<Attachment>,
    now: u64,
    e: LogEvent,
)
    requires
        e matches LogEvent::SessionRestored { turns: t, children: c, markers: m } && t == turns && c
            == children && m@.len() == 0,
    ensures
        ({
            let r = d.after(e, images, now);
            &&& r.panel.entries == replayed(Seq::empty(), turns@, children@).entries
            &&& r.usage.tokens == 0
            &&& r.background.running == 0 && r.background.monitors == 0 && r.background.wakes == 0
            &&& !r.panel.turnActive
            &&& !r.panel.permit.pending
            &&& message(r.panel).len() == 0
        }),
{
    reveal(DeckV::after);
}

/// What the session costs and how full its context is, is what it told last; a hit of the
/// cache is dated.
pub proof fn law_usage_is_what_was_told(
    d: DeckV,
    tokens: usize,
    cost: String,
    hits: usize,
    images: Seq<Attachment>,
    now: u64,
)
    ensures
        ({
            let u = d.after(
                LogEvent::TokenUpdate {
                    contextTokens: tokens,
                    sessionCost: cost,
                    cacheReadTokens: hits,
                },
                images,
                now,
            ).usage;
            &&& u.tokens == tokens
            &&& u.cost == cost@
            &&& hits > 0 ==> u.cacheHitAt == Some(now)
            &&& hits == 0 ==> u.cacheHitAt == d.usage.cacheHitAt
        }),
{
    reveal(DeckV::after);
}

/// Jobs, monitors and wake sources are counted as they come and go, each for itself.
pub proof fn law_the_background_is_counted(
    d: DeckV,
    id: JobId,
    monitor: u64,
    text: String,
    images: Seq<Attachment>,
    now: u64,
)
    requires
        d.background.running > 0,
        d.background.monitors > 0,
        d.background.wakes > 0,
    ensures
        ({
            let b = d.background;
            let spawned = d.after(LogEvent::JobSpawned { id, command: text }, images, now);
            let stopped = d.after(LogEvent::JobStopped { id, reason: text }, images, now);
            let ended = d.after(LogEvent::JobComplete { id, exitCode: None }, images, now);
            let watched = d.after(
                LogEvent::MonitorRegistered { id: monitor, description: text, filter: text },
                images,
                now,
            );
            let given_up = d.after(
                LogEvent::MonitorAutoStopped { id: monitor, reason: text },
                images,
                now,
            );
            let quit = d.after(LogEvent::MonitorStopped { id: monitor }, images, now);
            let disarmed = d.after(LogEvent::WakeDisarmed { id: monitor }, images, now);
            &&& spawned.background.running == b.running + 1
            &&& stopped.background.running == b.running - 1
            &&& ended.background.running == b.running - 1
            &&& watched.background.monitors == b.monitors + 1
            &&& given_up.background.monitors == b.monitors - 1
            &&& quit.background.monitors == b.monitors - 1
            &&& disarmed.background.wakes == b.wakes - 1
            &&& spawned.background.monitors == b.monitors && spawned.background.wakes == b.wakes
            &&& watched.background.running == b.running && watched.background.wakes == b.wakes
            &&& disarmed.background.running == b.running
            &&& disarmed.background.monitors == b.monitors
            &&& spawned.panel == d.panel && ended.panel == d.panel && watched.panel == d.panel
        }),
{
    reveal(DeckV::after);
}

// ---- the log ----

/// The record that an event leaves in the log.
pub open spec fn record_of(e: Seq<EffectV>) -> crate::app::effect::NoteV {
    e[0]->Record_0
}

/// What goes wrong is logged as such, with what the session told of it, and is shown.
pub proof fn law_trouble_is_logged(d: DeckV, text: String, id: JobId, monitor: u64)
    ensures
        ({
            let error = d.outside(LogEvent::Error(text));
            let stopped = d.outside(LogEvent::JobStopped { id, reason: text });
            let given_up = d.outside(LogEvent::MonitorAutoStopped { id: monitor, reason: text });
            &&& error[0] is Record && record_of(error).level == LogLevel::Error
            &&& record_of(error).detail == Some(text@)
            &&& error.len() > 1 && error[1] == EffectV::Toast
            &&& stopped[0] is Record && record_of(stopped).level == LogLevel::Warning
            &&& record_of(stopped).detail == Some(text@)
            &&& record_of(stopped).title == "task #"@ + dec(id as nat) + " stopped"@
            &&& stopped.len() > 1 && stopped[1] == EffectV::Toast
            &&& given_up[0] is Record && record_of(given_up).level == LogLevel::Warning
            &&& record_of(given_up).detail == Some(text@)
            &&& record_of(given_up).title == "monitor #"@ + dec(monitor as nat) + " auto-stopped"@
            &&& given_up.len() > 1 && given_up[1] == EffectV::Toast
        }),
{
    reveal(DeckV::outside);
}

/// A task that ends is logged with its number and how it ended.
pub proof fn law_ended_tasks_are_logged(d: DeckV, id: JobId, code: i32, command: String)
    ensures
        ({
            let ended = d.outside(LogEvent::JobComplete { id, exitCode: Some(code) });
            let unknown = d.outside(LogEvent::JobComplete { id, exitCode: None });
            let spawned = d.outside(LogEvent::JobSpawned { id, command });
            &&& ended[0] is Record && record_of(ended).level == LogLevel::Success
            &&& record_of(ended).title == "task #"@ + dec(id as nat) + " completed"@
            &&& record_of(ended).detail == Some("exit "@ + dec_int(code as int))
            &&& record_of(unknown).detail != record_of(ended).detail
            &&& spawned[0] is Record && record_of(spawned).level == LogLevel::Info
            &&& record_of(spawned).detail == Some(command@)
            &&& record_of(spawned).title == "task #"@ + dec(id as nat) + " spawned"@
        }),
{
    reveal(DeckV::outside);
    reveal_strlit("exit ");
    reveal_strlit("\u{2014}");
    assert("\u{2014}"@[0] != ("exit "@ + dec_int(code as int))[0]);
}

/// A terminal that closed loses its tab, and what a subagent's shell puts out goes to the
/// screen of that subagent, byte for byte.
pub proof fn law_terminals_and_shells_are_followed(
    d: DeckV,
    name: String,
    sid: String,
    data: Vec<u8>,
)
    ensures
        d.outside(LogEvent::TerminalClosed { name }).last() == EffectV::RemoveTerminal(name@),
        d.outside(LogEvent::SubagentShellOutput { sessionId: sid, data }).last()
            == (EffectV::FeedShell { sessionId: sid@, data: data@ }),
{
    reveal(DeckV::outside);
}

} // verus!
