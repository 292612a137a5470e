//! Replies to what the deck asked for, requests for permission, and the passing of
//! time.

use vstd::prelude::*;
use vstd::string::*;
use crate::agent_panel::entry::{ContextState, EntryV, PanelEntry, addEntry};
use crate::agent_panel::scrolling::{THROBBER_STEP, has_countdown};
use crate::agent_panel::state::{OriginV, PanelV, PermitOrigin, Ticks};
use crate::app::deck::{BackgroundV, Deck, DeckV, Inspector, Overlays};
use crate::app::effect::{Effect, EffectV, addEffect, effects};
use crate::app::title::{TITLE_PERMIT_GLYPH, TitleV, titleText};
use crate::fork_picker::{Fork, ForkPicker, PickerState};
use crate::impact::ShellImpact;
use crate::jobs_panel::{JobId, JobInfo, JobOutputSnapshot, JobsPanel, WakeSourceInfo};
use crate::text::{opt_text, texts};

verus! {

/// Whether a command was carried out, and what there is to say of it.
#[derive(Debug)]
pub struct CommandAck {
    pub ok: bool,
    pub message: String,
}

/// A reply to something that the deck asked for. What only a panel kept elsewhere
/// shows stays with that panel.
#[derive(Debug)]
pub enum DeckUpdate {
    McpStatus,
    LspStatus,
    ModelStatus,
    ModelCatalog,
    PermissionsStatus,
    ContextDisplay(ContextState),
    RewindOptions,
    Forks(Vec<Fork>),
    ShowResult(String),
    CommandAck(CommandAck),
    TasksList(Vec<JobInfo>),
    WakesList(Vec<WakeSourceInfo>),
    TaskOutputOpen { id: JobId, snap: JobOutputSnapshot },
    TaskOutputRefresh { id: JobId, sinceLine: Option<u64>, snap: Option<JobOutputSnapshot> },
    ResumeResult(CommandAck),
}

// ---- replies ----

impl DeckV {
    pub open spec fn opening(self, open: Overlays) -> DeckV {
        DeckV { open, ..self }
    }

    pub open spec fn with_tasks(self, p: JobsPanel) -> DeckV {
        DeckV { tasks: Some(p), ..self }
    }

    /// The deck once the output of a task is shown.
    pub open spec fn shows_output(
        self,
        id: JobId,
        since: Option<u64>,
        snap: Option<JobOutputSnapshot>,
    ) -> DeckV {
        match (self.tasks, snap) {
            (Some(p), Some(s)) => if p.accepts(id, since) {
                self.with_tasks(p.showing(s))
            } else {
                self
            },
            _ => self,
        }
    }

    /// Whether the output of the task `id` is asked for again once a reply is here:
    /// where there was more since it was asked for, and it is still shown.
    pub open spec fn asks_again(self, id: JobId) -> bool {
        self.inspector.dirty && self.inspects(id)
    }

    /// The deck after the reply to a request for output.
    pub open spec fn output_refreshed(
        self,
        id: JobId,
        since: Option<u64>,
        snap: Option<JobOutputSnapshot>,
    ) -> DeckV {
        DeckV {
            inspector: Inspector { inFlight: self.asks_again(id), dirty: false },
            ..self.shows_output(id, since, snap)
        }
    }

    /// The deck after a command was carried out or failed. The picker of forks
    /// shows that switching failed.
    pub open spec fn acknowledged(self, ack: CommandAck) -> DeckV {
        if self.forks is Some && !ack.ok {
            DeckV {
                forks: Some(
                    ForkPicker {
                        error: Some(ack.message),
                        state: PickerState::Browsing,
                        ..self.forks->0
                    },
                ),
                ..self
            }
        } else if ack.message@.len() > 0 {
            self.with_panel(self.panel.answered(EntryV::CommandResult(ack.message@)))
        } else {
            self
        }
    }

    /// The deck after a session was resumed or could not be.
    pub open spec fn resumed(self, ack: CommandAck) -> DeckV {
        if ack.ok {
            DeckV {
                panel: self.panel.with_entry(EntryV::SessionNotice(ack.message@)),
                open: Overlays { sessions: false, ..self.open },
                ..self
            }
        } else if self.open.sessions {
            self
        } else {
            self.with_panel(self.panel.with_entry(EntryV::Error(ack.message@)))
        }
    }

    /// Whether `d` is the deck after the reply `u`.
    #[verifier::opaque]
    pub open spec fn updated(self, u: DeckUpdate, now: u64, d: DeckV) -> bool {
        match u {
            DeckUpdate::McpStatus => d == self.opening(Overlays { mcp: true, ..self.open }),
            DeckUpdate::LspStatus => d == self.opening(Overlays { lsp: true, ..self.open }),
            DeckUpdate::ModelStatus => d == self.opening(Overlays { model: true, ..self.open }),
            DeckUpdate::ModelCatalog => d == self,
            DeckUpdate::PermissionsStatus => d == self.opening(
                Overlays { permissions: true, ..self.open },
            ),
            DeckUpdate::ContextDisplay(state) => d == self.with_panel(
                self.panel.answered(EntryV::ContextDisplay(state)),
            ),
            DeckUpdate::RewindOptions => d == self.opening(
                Overlays { rewind: true, ..self.open },
            ),
            DeckUpdate::Forks(forks) => {
                &&& d.forks is Some
                &&& d.forks->0.is_new(forks@, now)
                &&& d == (DeckV { forks: d.forks, ..self })
            },
            DeckUpdate::ShowResult(text) => d == self.with_panel(
                self.panel.answered(EntryV::CommandResult(text@)),
            ),
            DeckUpdate::CommandAck(ack) => d == self.acknowledged(ack),
            DeckUpdate::TasksList(jobs) => match self.tasks {
                Some(p) => d == self.with_tasks(p.refreshed(jobs)),
                None => {
                    &&& d.tasks is Some
                    &&& d.tasks->0.is_new(jobs)
                    &&& d == (DeckV {
                        tasks: d.tasks,
                        background: BackgroundV { unread: Set::empty(), ..self.background },
                        ..self
                    })
                },
            },
            DeckUpdate::WakesList(wakes) => match self.tasks {
                Some(p) => d == self.with_tasks(JobsPanel { wakes, ..p }),
                None => d == self,
            },
            DeckUpdate::TaskOutputOpen { id, snap } => match self.tasks {
                Some(p) => d == self.with_tasks(p.opened(id, snap)),
                None => d == self,
            },
            DeckUpdate::TaskOutputRefresh { id, sinceLine, snap } => d == self.output_refreshed(
                id,
                sinceLine,
                snap,
            ),
            DeckUpdate::ResumeResult(ack) => d == self.resumed(ack),
        }
    }

    /// What a reply brings about outside the deck.
    #[verifier::opaque]
    pub open spec fn update_effects(self, u: DeckUpdate) -> Seq<EffectV> {
        match u {
            DeckUpdate::ModelCatalog => if self.open.model {
                seq![EffectV::ShowCatalog]
            } else {
                Seq::empty()
            },
            DeckUpdate::TaskOutputRefresh { id, .. } => if self.asks_again(id) {
                seq![EffectV::FetchOutput { id, sinceLine: (self.inspected()->0).1 }]
            } else {
                Seq::empty()
            },
            DeckUpdate::ResumeResult(ack) => if !ack.ok && self.open.sessions {
                seq![EffectV::ResumeFailed(ack.message@)]
            } else {
                Seq::empty()
            },
            _ => Seq::empty(),
        }
    }
}

impl Deck {
    /// The reply to a request for the output of a task arrived.
    fn outputRefreshed(
        &mut self,
        id: JobId,
        sinceLine: Option<u64>,
        snap: Option<JobOutputSnapshot>,
        out: &mut Vec<Effect>,
    )
        ensures
            final(self)@ == old(self)@.output_refreshed(id, sinceLine, snap),
            effects(final(out)@) == effects(old(out)@) + old(self)@.update_effects(
                DeckUpdate::TaskOutputRefresh { id, sinceLine, snap },
            ),
    {
        proof {
            reveal(DeckV::update_effects);
        }
        match snap {
            Some(s) => match &mut self.tasks {
                Some(p) => {
                    let _ = p.applyInspectorSnapshot(id, sinceLine, s);
                },
                None => {},
            },
            None => {},
        }
        let dirty = self.inspector.dirty;
        self.inspector.inFlight = false;
        self.inspector.dirty = false;
        if dirty {
            let mut since: Option<u64> = None;
            let mut on = false;
            match &self.tasks {
                Some(p) => match p.inspectorTaskId() {
                    Some(t) => {
                        on = t == id;
                        since = p.inspectorSinceLine();
                    },
                    None => {},
                },
                None => {},
            }
            if on {
                self.inspector.inFlight = true;
                addEffect(out, Effect::FetchOutput { id, sinceLine: since });
            }
        }
        proof {
            assert(effects(out@) =~= effects(old(out)@) + old(self)@.update_effects(
                DeckUpdate::TaskOutputRefresh { id, sinceLine, snap },
            ));
        }
    }

    /// A command was carried out or failed.
    fn acknowledge(&mut self, ack: CommandAck)
        ensures
            final(self)@ == old(self)@.acknowledged(ack),
    {
        if self.forks.is_some() && !ack.ok {
            match &mut self.forks {
                Some(p) => {
                    p.switchFailed(ack.message);
                },
                None => {},
            }
        } else if ack.message.as_str().unicode_len() > 0 {
            self.panel.pushCommandResult(ack.message.as_str());
        }
    }

    /// A session was resumed or could not be.
    fn resumeResult(&mut self, ack: CommandAck, out: &mut Vec<Effect>)
        ensures
            final(self)@ == old(self)@.resumed(ack),
            effects(final(out)@) == effects(old(out)@) + old(self)@.update_effects(
                DeckUpdate::ResumeResult(ack),
            ),
    {
        proof {
            reveal(DeckV::update_effects);
        }
        if ack.ok {
            self.open.sessions = false;
            addEntry(&mut self.panel.entries, PanelEntry::SessionNotice(ack.message));
        } else if self.open.sessions {
            addEffect(out, Effect::ResumeFailed(ack.message));
        } else {
            self.panel.pushError(ack.message.as_str());
        }
        proof {
            assert(effects(out@) =~= effects(old(out)@) + old(self)@.update_effects(
                DeckUpdate::ResumeResult(ack),
            ));
        }
    }

    /// The list of tasks arrived. A panel that opens by that clears what is unread.
    fn tasksList(&mut self, jobs: Vec<JobInfo>)
        ensures
            old(self)@.updated(DeckUpdate::TasksList(jobs), 0, final(self)@),
    {
        proof {
            reveal(DeckV::updated);
        }
        match &mut self.tasks {
            Some(p) => {
                p.refresh(jobs);
                return;
            },
            None => {},
        }
        self.background.unread.clear();
        self.tasks = Some(JobsPanel::new(jobs));
    }

    /// Opens the panel that was asked for.
    fn openUpdate(&mut self, u: DeckUpdate, now: u64, out: &mut Vec<Effect>)
        requires
            u is McpStatus || u is LspStatus || u is ModelStatus || u is PermissionsStatus || u is RewindOptions || u is ModelCatalog,
        ensures
            old(self)@.updated(u, now, final(self)@),
            effects(final(out)@) == effects(old(out)@) + old(self)@.update_effects(u),
    {
        proof {
            reveal(DeckV::updated);
            reveal(DeckV::update_effects);
            assert(effects(out@) + Seq::<EffectV>::empty() =~= effects(out@));
        }
        match u {
            DeckUpdate::McpStatus => {
                self.open.mcp = true;
            },
            DeckUpdate::LspStatus => {
                self.open.lsp = true;
            },
            DeckUpdate::ModelStatus => {
                self.open.model = true;
            },
            DeckUpdate::PermissionsStatus => {
                self.open.permissions = true;
            },
            DeckUpdate::RewindOptions => {
                self.open.rewind = true;
            },
            DeckUpdate::ModelCatalog => {
                if self.open.model {
                    addEffect(out, Effect::ShowCatalog);
                }
            },
            _ => {},
        }
    }

    /// Shows an answer in the conversation.
    fn answerUpdate(&mut self, u: DeckUpdate, now: u64, out: &mut Vec<Effect>)
        requires
            u is ContextDisplay || u is ShowResult || u is CommandAck,
        ensures
            old(self)@.updated(u, now, final(self)@),
            effects(final(out)@) == effects(old(out)@) + old(self)@.update_effects(u),
    {
        proof {
            reveal(DeckV::updated);
            reveal(DeckV::update_effects);
            assert(effects(out@) + Seq::<EffectV>::empty() =~= effects(out@));
        }
        match u {
            DeckUpdate::ContextDisplay(state) => {
                self.panel.pushContextDisplay(state);
            },
            DeckUpdate::ShowResult(text) => {
                self.panel.pushCommandResult(text.as_str());
            },
            DeckUpdate::CommandAck(ack) => {
                self.acknowledge(ack);
            },
            _ => {},
        }
    }

    /// Shows an answer in a picker.
    fn pickerUpdate(&mut self, u: DeckUpdate, now: u64, out: &mut Vec<Effect>)
        requires
            u is Forks || u is ResumeResult,
        ensures
            old(self)@.updated(u, now, final(self)@),
            effects(final(out)@) == effects(old(out)@) + old(self)@.update_effects(u),
    {
        proof {
            reveal(DeckV::updated);
            reveal(DeckV::update_effects);
            assert(effects(out@) + Seq::<EffectV>::empty() =~= effects(out@));
        }
        match u {
            DeckUpdate::Forks(forks) => {
                self.forks = Some(ForkPicker::new(&forks, now));
            },
            DeckUpdate::ResumeResult(ack) => {
                self.resumeResult(ack, out);
            },
            _ => {},
        }
    }

    /// Shows an answer in the panel of tasks.
    fn taskUpdate(&mut self, u: DeckUpdate, now: u64, out: &mut Vec<Effect>)
        requires
            u is TasksList || u is WakesList || u is TaskOutputOpen || u is TaskOutputRefresh,
        ensures
            old(self)@.updated(u, now, final(self)@),
            effects(final(out)@) == effects(old(out)@) + old(self)@.update_effects(u),
    {
        proof {
            reveal(DeckV::updated);
            reveal(DeckV::update_effects);
            assert(effects(out@) + Seq::<EffectV>::empty() =~= effects(out@));
        }
        match u {
            DeckUpdate::TasksList(jobs) => {
                self.tasksList(jobs);
            },
            DeckUpdate::WakesList(wakes) => {
                match &mut self.tasks {
                    Some(p) => {
                        p.refreshWakes(wakes);
                    },
                    None => {},
                }
            },
            DeckUpdate::TaskOutputOpen { id, snap } => {
                match &mut self.tasks {
                    Some(p) => {
                        p.applyInspectorOpen(id, snap);
                    },
                    None => {},
                }
            },
            DeckUpdate::TaskOutputRefresh { id, sinceLine, snap } => {
                self.outputRefreshed(id, sinceLine, snap, out);
            },
            _ => {},
        }
    }

    /// Handles a reply to something that the deck asked for.
    pub fn handleUpdate(&mut self, u: DeckUpdate, now: u64, out: &mut Vec<Effect>)
        ensures
            old(self)@.updated(u, now, final(self)@),
            effects(final(out)@) == effects(old(out)@) + old(self)@.update_effects(u),
    {
        match u {
            DeckUpdate::McpStatus
            | DeckUpdate::LspStatus
            | DeckUpdate::ModelStatus
            | DeckUpdate::PermissionsStatus
            | DeckUpdate::RewindOptions
            | DeckUpdate::ModelCatalog => {
                self.openUpdate(u, now, out);
            },
            DeckUpdate::ContextDisplay(_)
            | DeckUpdate::ShowResult(_)
            | DeckUpdate::CommandAck(_) => {
                self.answerUpdate(u, now, out);
            },
            DeckUpdate::Forks(_)
            | DeckUpdate::ResumeResult(_) => {
                self.pickerUpdate(u, now, out);
            },
            DeckUpdate::TasksList(_)
            | DeckUpdate::WakesList(_)
            | DeckUpdate::TaskOutputOpen { .. }
            | DeckUpdate::TaskOutputRefresh { .. } => {
                self.taskUpdate(u, now, out);
            },
        }
    }
}

// ---- requests for permission ----

/// A tool asks for permission.
#[derive(Debug)]
pub struct PermitRequest {
    pub origin: PermitOrigin,
    pub name: String,
    pub summary: String,
    pub command: Option<String>,
    pub patterns: Vec<String>,
    pub diff: Option<String>,
    pub explanation: Option<String>,
    pub impact: ShellImpact,
}

impl DeckV {
    /// The deck after a request for permission. The tab of a subagent that asks is
    /// shown, in the popup where several run; a request of the agent itself closes
    /// the popup.
    pub open spec fn permit_asked(self, r: PermitRequest) -> DeckV {
        let p = self.panel.tool_request(
            r.name@,
            r.summary@,
            opt_text(r.command),
            texts(r.patterns@),
            opt_text(r.diff),
            opt_text(r.explanation),
            r.impact,
            r.origin@,
        );
        DeckV {
            panel: match r.origin@ {
                OriginV::Subagent(sid) => p.selecting_subagent(sid),
                OriginV::Top => p,
            },
            title: TitleV {
                unseenPermit: self.title.unseenPermit || !self.title.windowFocused,
                ..self.title
            },
            open: Overlays {
                subagents: match r.origin@ {
                    OriginV::Subagent(_) => self.open.subagents || p.subs.active.len() > 1,
                    OriginV::Top => false,
                },
                ..self.open
            },
            ..self
        }
    }

    /// The title that a request for permission sets.
    pub open spec fn permit_effects(self) -> Seq<EffectV> {
        if self.title.windowFocused {
            Seq::empty()
        } else {
            seq![EffectV::Title(self.title.text(TITLE_PERMIT_GLYPH@))]
        }
    }
}

impl Deck {
    /// Handles a request for permission.
    #[verifier::rlimit(40)]
    #[verifier::spinoff_prover]
    pub fn handlePermit(&mut self, r: PermitRequest, out: &mut Vec<Effect>)
        ensures
            final(self)@ == old(self)@.permit_asked(r),
            effects(final(out)@) == effects(old(out)@) + old(self)@.permit_effects(),
    {
        let sid: Option<String> = match &r.origin {
            PermitOrigin::Subagent { sessionId } => Some(sessionId.clone()),
            PermitOrigin::Top => None,
        };
        self.panel.showToolRequest(
            r.name.as_str(),
            r.summary.as_str(),
            r.command,
            r.patterns,
            r.diff,
            r.explanation,
            r.impact,
            r.origin,
        );
        if !self.title.windowFocused {
            self.title.unseenPermit = true;
            addEffect(out, Effect::Title(titleText(TITLE_PERMIT_GLYPH, &self.title.topic)));
        }
        match sid {
            Some(s) => {
                self.panel.selectSubagentBySessionId(s.as_str());
                proof {
                    assert(self@.panel.subs.active.len() == self.panel.subs.active@.len());
                }
                if self.panel.subs.active.len() > 1 {
                    self.open.subagents = true;
                }
            },
            None => {
                self.open.subagents = false;
            },
        }
        proof {
            assert(effects(out@) =~= effects(old(out)@) + old(self)@.permit_effects());
        }
    }
}

// ---- the passing of time ----

impl PanelV {
    /// The panel after the throbber may have turned, and whether it did.
    pub open spec fn throbbed(self, now: u64) -> (PanelV, bool) {
        if self.waiting() && now >= self.ticks.throbber + THROBBER_STEP {
            (PanelV { ticks: Ticks { throbber: now, ..self.ticks }, ..self }, true)
        } else {
            (self, false)
        }
    }

    /// The panel after countdowns may have been shown anew, and whether they were.
    pub open spec fn counted_down(self, now: u64) -> (PanelV, bool) {
        if has_countdown(self.entries) && now >= self.ticks.wakeSchedules + 1000 {
            (PanelV { ticks: Ticks { wakeSchedules: now, ..self.ticks }, ..self }, true)
        } else {
            (self, false)
        }
    }
}

impl Deck {
    /// Lets time pass. Returns whether the screen has to be drawn anew.
    pub fn tick(&mut self, now: u64, out: &mut Vec<Effect>) -> (r: bool)
        requires
            old(self).title.spinner.wf(),
        ensures
            ({
                let a = old(self)@.panel.throbbed(now);
                let b = a.0.counted_down(now);
                let c = b.0.revealed(now);
                let active = old(self)@.panel.turnActive;
                &&& final(self)@ == (DeckV {
                    panel: c.0,
                    title: old(self)@.title.ticked(active, now),
                    ..old(self)@
                })
                &&& r == (a.1 || b.1 || c.1)
                &&& effects(final(out)@) == effects(old(out)@) + (match old(
                    self,
                )@.title.tick_title(active, now) {
                    Some(t) => seq![EffectV::Title(t)],
                    None => Seq::empty(),
                })
            }),
            final(self).title.spinner.wf(),
    {
        let a = self.panel.tickThrobber(now);
        let b = self.panel.tickWakeSchedules(now);
        let active = self.panel.isActive();
        let title = self.title.tick(active, now);
        match title {
            Some(t) => {
                addEffect(out, Effect::Title(t));
            },
            None => {},
        }
        let c = self.panel.tickReveal(now);
        proof {
            let add = match old(self)@.title.tick_title(active, now) {
                Some(t) => seq![EffectV::Title(t)],
                None => Seq::empty(),
            };
            assert(effects(out@) =~= effects(old(out)@) + add);
        }
        a || b || c
    }
}

} // verus!
