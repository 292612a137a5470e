//! Background-job status panel.
//!
//! Lists unfinished tasks by default, with an in-panel toggle for completed
//! and stopped rows. Each row shows id, command preview, age and state. `k`
//! kills the selected task; Enter opens an inspect popup that shows the
//! task's output with scrolling and autoscroll.

use vstd::prelude::*;
use crate::draw::{max, min, minus};
use crate::keys::{KeyCode, KeyEvent};

verus! {

// ---- jobs ----

/// Identifies a background job.
pub type JobId = u64;

/// What runs in a background job.
#[derive(Clone, Copy, Debug, PartialEq, Eq, Structural)]
pub enum JobKind {
    Bash,
    Subagent,
}

/// How far a job has come.
#[derive(Clone, Debug)]
pub enum JobState {
    Running,
    Completed { exitCode: i32 },
    Killed,
    Errored(String),
}

impl JobState {
    /// Whether the job will not change any more.
    #[verifier::allow_in_spec]
    pub fn isTerminal(&self) -> bool
        returns
            !(*self is Running),
    {
        match self {
            JobState::Running => false,
            _ => true,
        }
    }
}

/// A background job. Times are in milliseconds.
#[derive(Clone, Debug)]
pub struct JobInfo {
    pub id: JobId,
    pub kind: JobKind,
    pub command: String,
    pub state: JobState,
    pub spawnedAt: u64,
    pub completedAt: Option<u64>,
    pub totalLines: u64,
}

/// A slice of a job's output.
#[derive(Clone, Debug)]
pub struct JobOutputSnapshot {
    pub command: String,
    pub lines: Vec<String>,
    pub firstLine: u64,
    pub totalLines: u64,
    pub earliestBuffered: u64,
    pub state: JobState,
}

/// What wakes the agent.
#[derive(Clone, Copy, Debug, PartialEq, Eq, Structural)]
pub enum WakeKind {
    Delay,
    Cron,
    FileWatch,
    MonitorMatch,
    TaskComplete,
}

/// A registered wake source. `kindName` is the name that the wake plane gives
/// to `kind`.
#[derive(Clone, Debug)]
pub struct WakeSourceInfo {
    pub id: u64,
    pub kind: WakeKind,
    pub kindName: String,
    pub summary: String,
    pub prompt: Option<String>,
    pub firesSoFar: u64,
}

// ---- panel state ----

/// Outcome of a key event.
#[derive(Clone, Copy, Debug, PartialEq, Eq, Structural)]
pub enum PanelAction {
    /// Nothing to propagate, panel stays open.
    Stay,
    /// Close the panel.
    Close,
    /// Kill the task at the selected row.
    Kill(JobId),
    /// Open the inspect popup for a task. The caller fetches a snapshot and
    /// hands it to [`JobsPanel::applyInspectorOpen`].
    Inspect(JobId),
    /// The inspector's window changed: the caller fetches the output again
    /// from [`JobsPanel::inspectorSinceLine`] on.
    Refetch(JobId),
}

/// Inspector subview: cached output and scroll position.
pub struct InspectorState {
    pub id: JobId,
    pub command: String,
    /// All cached lines.
    pub lines: Vec<String>,
    /// Number of the first of `lines` in the task's line counter.
    pub firstLine: u64,
    /// Total lines emitted by the task.
    pub totalLines: u64,
    /// Earliest line still kept by the source.
    pub earliestBuffered: u64,
    pub state: JobState,
    /// Scroll offset in lines from the top of `lines`.
    pub scrollOffset: usize,
    /// Whether the bottom stays in view as output arrives.
    pub autoscroll: bool,
    /// Last rendered viewport height.
    pub lastViewportRows: usize,
    /// Pinned start line for pagination.
    pub requestedSinceLine: Option<u64>,
}

/// Top-level panel mode.
pub enum Mode {
    List,
    Inspect(InspectorState),
}

/// Interactive `/jobs` panel: jobs section and schedules section.
pub struct JobsPanel {
    pub jobs: Vec<JobInfo>,
    pub wakes: Vec<WakeSourceInfo>,
    /// Selected visible row. Hidden finished jobs are never selectable.
    pub selected: usize,
    pub scrollOffset: usize,
    pub lastVisibleCount: usize,
    pub showFinished: bool,
    pub mode: Mode,
}

// ---- what the panel shows and selects ----

/// Whether the list shows a job in the state `s`.
pub open spec fn shown(s: JobState, showFinished: bool) -> bool {
    showFinished || !s.isTerminal()
}

/// The indexes of the jobs that the list shows, in order.
pub open spec fn visible_of(jobs: Seq<JobInfo>, showFinished: bool) -> Seq<usize>
    decreases jobs.len(),
{
    if jobs.len() == 0 {
        Seq::empty()
    } else {
        let r = visible_of(jobs.drop_last(), showFinished);
        if shown(jobs.last().state, showFinished) {
            r.push((jobs.len() - 1) as usize)
        } else {
            r
        }
    }
}

/// The ids of the jobs that the list shows, in order.
pub open spec fn visible_ids(jobs: Seq<JobInfo>, showFinished: bool) -> Seq<JobId> {
    let v = visible_of(jobs, showFinished);
    Seq::new(v.len(), |i: int| jobs[v[i] as int].id)
}

/// The listed indexes are those of the jobs that are shown, in ascending order.
pub proof fn lemma_visible(jobs: Seq<JobInfo>, showFinished: bool)
    requires
        jobs.len() <= usize::MAX,
    ensures
        visible_of(jobs, showFinished).len() <= jobs.len(),
        forall|k: int|
            #![trigger visible_of(jobs, showFinished)[k]]
            0 <= k < visible_of(jobs, showFinished).len() ==> {
                let i = visible_of(jobs, showFinished)[k];
                i < jobs.len() && shown(jobs[i as int].state, showFinished)
            },
        forall|i: int|
            0 <= i < jobs.len() && shown(#[trigger] jobs[i].state, showFinished)
                ==> visible_of(jobs, showFinished).contains(i as usize),
        forall|a: int, b: int|
            #![trigger visible_of(jobs, showFinished)[a], visible_of(jobs, showFinished)[b]]
            0 <= a < b < visible_of(jobs, showFinished).len() ==> visible_of(
                jobs,
                showFinished,
            )[a] < visible_of(jobs, showFinished)[b],
    decreases jobs.len(),
{
    if jobs.len() > 0 {
        let d = jobs.drop_last();
        lemma_visible(d, showFinished);
        let r = visible_of(d, showFinished);
        let v = visible_of(jobs, showFinished);
        assert forall|i: int|
            0 <= i < jobs.len() && shown(#[trigger] jobs[i].state, showFinished) implies v.contains(
            i as usize,
        ) by {
            if i < d.len() {
                assert(d[i] == jobs[i]);
                assert(shown(d[i].state, showFinished));
                let k = choose|k: int| 0 <= k < r.len() && r[k] == i as usize;
                assert(v[k] == i as usize);
            } else {
                assert(v[v.len() - 1] == i as usize);
            }
        }
        assert forall|k: int| 0 <= k < v.len() implies {
            let i = #[trigger] v[k];
            i < jobs.len() && shown(jobs[i as int].state, showFinished)
        } by {
            if k < r.len() {
                assert(v[k] == r[k]);
                assert(d[r[k] as int] == jobs[r[k] as int]);
            }
        }
        assert forall|a: int, b: int| 0 <= a < b < v.len() implies #[trigger] v[a]
            < #[trigger] v[b] by {
            assert(v[a] == r[a]);
            if b < r.len() {
                assert(v[b] == r[b]);
            } else {
                assert(r[a] < d.len());
            }
        }
    }
}

impl JobsPanel {
    /// A panel that was just opened on `jobs`: a list without the finished ones.
    pub open spec fn is_new(self, jobs: Vec<JobInfo>) -> bool {
        &&& self.jobs == jobs
        &&& self.wakes@.len() == 0
        &&& self.selected == 0
        &&& self.scrollOffset == 0
        &&& self.lastVisibleCount == 0
        &&& !self.showFinished
        &&& self.mode is List
    }

    /// The indexes of the jobs that the list shows.
    pub open spec fn visible(self) -> Seq<usize> {
        visible_of(self.jobs@, self.showFinished)
    }

    /// The id of the job under the cursor.
    pub open spec fn selected_id(self) -> Option<JobId> {
        if self.selected < self.visible().len() {
            Some(self.jobs@[self.visible()[self.selected as int] as int].id)
        } else {
            None
        }
    }

    /// The cursor and the scroll offset point at shown rows, or are at the top.
    pub open spec fn wf(self) -> bool {
        &&& self.selected == 0 || self.selected < self.visible().len()
        &&& self.scrollOffset == 0 || self.scrollOffset < self.visible().len()
    }

    /// The panel with cursor and scroll offset brought back among the shown rows.
    pub open spec fn clamped(self) -> JobsPanel {
        let n = self.visible().len();
        if n == 0 {
            JobsPanel { selected: 0, scrollOffset: 0, ..self }
        } else {
            JobsPanel {
                selected: min(self.selected as int, n - 1) as usize,
                scrollOffset: min(self.scrollOffset as int, n - 1) as usize,
                ..self
            }
        }
    }

    /// The panel with the cursor on the first shown job `id`, if there is one.
    pub open spec fn selecting(self, id: Option<JobId>) -> JobsPanel {
        match id {
            Some(j) => match visible_ids(self.jobs@, self.showFinished).index_of_first(j) {
                Some(p) => JobsPanel { selected: p as usize, ..self },
                None => self,
            },
            None => self,
        }
    }

    /// The panel after its job list was replaced: the cursor stays on its job
    /// where that is still shown, and an inspector whose job is gone closes.
    pub open spec fn refreshed(self, jobs: Vec<JobInfo>) -> JobsPanel {
        let p = (JobsPanel { jobs, ..self }).selecting(self.selected_id()).clamped();
        let gone = match p.mode {
            Mode::Inspect(s) => !exists|i: int|
                0 <= i < jobs@.len() && (#[trigger] jobs@[i]).id == s.id,
            Mode::List => false,
        };
        if gone {
            JobsPanel { mode: Mode::List, ..p }
        } else {
            p
        }
    }

    /// The panel after finished jobs were shown or hidden: the cursor stays on
    /// its job where that is still shown.
    pub open spec fn toggled(self) -> JobsPanel {
        (JobsPanel { showFinished: !self.showFinished, ..self }).selecting(
            self.selected_id(),
        ).clamped()
    }

    /// The panel after `n` steps up.
    pub open spec fn up(self, n: int) -> JobsPanel {
        let s = minus(self.selected as int, n);
        JobsPanel {
            selected: s as usize,
            scrollOffset: if s < self.selected && s < self.scrollOffset {
                s as usize
            } else {
                self.scrollOffset
            },
            ..self
        }
    }

    /// The panel after `n` steps down.
    pub open spec fn down(self, n: int) -> JobsPanel {
        let len = self.visible().len();
        if n > 0 && self.selected + 1 < len {
            let s = min(self.selected + n, len - 1);
            let rows = max(self.lastVisibleCount as int, 1);
            JobsPanel {
                selected: s as usize,
                scrollOffset: if s >= self.scrollOffset + rows {
                    (s - (rows - 1)) as usize
                } else {
                    self.scrollOffset
                },
                ..self
            }
        } else {
            self
        }
    }

    /// What a key does in the list.
    pub open spec fn list_key(self, key: KeyEvent) -> (JobsPanel, PanelAction) {
        match key.code {
            KeyCode::Esc => (self, PanelAction::Close),
            KeyCode::Up => (self.up(1), PanelAction::Stay),
            KeyCode::Down => (self.down(1), PanelAction::Stay),
            KeyCode::PageUp => (self.up(10), PanelAction::Stay),
            KeyCode::PageDown => (self.down(10), PanelAction::Stay),
            KeyCode::Enter => match self.selected_id() {
                Some(id) => (self, PanelAction::Inspect(id)),
                None => (self, PanelAction::Stay),
            },
            KeyCode::Char(c) => if c == 'q' {
                (self, PanelAction::Close)
            } else if c == 'j' {
                (self.down(1), PanelAction::Stay)
            } else if c == 'f' && !key.modifiers.control {
                (self.toggled(), PanelAction::Stay)
            } else if c == 'k' && !key.modifiers.control {
                if self.selected < self.visible().len()
                    && self.jobs@[self.visible()[self.selected as int] as int].state is Running {
                    (self, PanelAction::Kill(self.selected_id()->0))
                } else {
                    (self, PanelAction::Stay)
                }
            } else {
                (self, PanelAction::Stay)
            },
            _ => (self, PanelAction::Stay),
        }
    }

    /// What a key does.
    #[verifier::opaque]
    pub open spec fn on_key(self, key: KeyEvent) -> (JobsPanel, PanelAction) {
        match self.mode {
            Mode::List => self.list_key(key),
            Mode::Inspect(s) => {
                let r = s.on_key(key);
                let mode = match r.0 {
                    Some(t) => Mode::Inspect(t),
                    None => Mode::List,
                };
                (JobsPanel { mode, ..self }, r.1)
            },
        }
    }
}

impl InspectorState {
    /// The number of rows that a page has.
    pub open spec fn page(self) -> int {
        max(self.lastViewportRows as int, 1)
    }

    /// The scroll offset at which the last line is on the last row.
    pub open spec fn bottom(self) -> int {
        minus(self.lines@.len() as int, self.page())
    }

    /// The inspector following the live tail.
    pub open spec fn following(self) -> (Option<InspectorState>, PanelAction) {
        let s = InspectorState {
            autoscroll: true,
            scrollOffset: self.bottom() as usize,
            requestedSinceLine: None,
            ..self
        };
        if self.requestedSinceLine is Some {
            (Some(s), PanelAction::Refetch(self.id))
        } else {
            (Some(s), PanelAction::Stay)
        }
    }

    /// What a key does: the inspector afterwards, or none when it closes.
    pub open spec fn on_key(self, key: KeyEvent) -> (Option<InspectorState>, PanelAction) {
        let still = InspectorState { autoscroll: false, ..self };
        match key.code {
            KeyCode::Esc => (None, PanelAction::Stay),
            KeyCode::Backspace => (None, PanelAction::Stay),
            KeyCode::Up => (Some(self.line_up()), PanelAction::Stay),
            KeyCode::Down => (Some(self.line_down()), PanelAction::Stay),
            KeyCode::PageUp => if self.scrollOffset > 0 {
                (
                    Some(
                        InspectorState {
                            scrollOffset: minus(self.scrollOffset as int, self.page()) as usize,
                            ..still
                        },
                    ),
                    PanelAction::Stay,
                )
            } else if self.firstLine > self.earliestBuffered {
                (
                    Some(
                        InspectorState {
                            requestedSinceLine: Some(
                                max(
                                    minus(self.firstLine as int, self.page()),
                                    self.earliestBuffered as int,
                                ) as u64,
                            ),
                            ..still
                        },
                    ),
                    PanelAction::Refetch(self.id),
                )
            } else {
                (Some(still), PanelAction::Stay)
            },
            KeyCode::PageDown => if self.scrollOffset + self.page() >= self.bottom() {
                self.following()
            } else {
                (
                    Some(
                        InspectorState {
                            scrollOffset: (self.scrollOffset + self.page()) as usize,
                            ..self
                        },
                    ),
                    PanelAction::Stay,
                )
            },
            KeyCode::Home => {
                let top = InspectorState { scrollOffset: 0, ..still };
                if self.firstLine > self.earliestBuffered {
                    (
                        Some(
                            InspectorState {
                                requestedSinceLine: Some(self.earliestBuffered),
                                ..top
                            },
                        ),
                        PanelAction::Refetch(self.id),
                    )
                } else {
                    (Some(top), PanelAction::Stay)
                }
            },
            KeyCode::End => self.following(),
            KeyCode::Char(c) => if c == 'q' {
                (None, PanelAction::Stay)
            } else if c == 'k' {
                (Some(self.line_up()), PanelAction::Stay)
            } else if c == 'j' {
                (Some(self.line_down()), PanelAction::Stay)
            } else if c == 'K' && self.state is Running {
                (Some(self), PanelAction::Kill(self.id))
            } else {
                (Some(self), PanelAction::Stay)
            },
            _ => (Some(self), PanelAction::Stay),
        }
    }

    /// One line up, which stops following.
    pub open spec fn line_up(self) -> InspectorState {
        InspectorState {
            autoscroll: false,
            scrollOffset: minus(self.scrollOffset as int, 1) as usize,
            ..self
        }
    }

    /// One line down, which follows again once the bottom is reached.
    pub open spec fn line_down(self) -> InspectorState {
        let s = if self.scrollOffset < self.bottom() {
            (self.scrollOffset + 1) as usize
        } else {
            self.scrollOffset
        };
        InspectorState { scrollOffset: s, autoscroll: self.autoscroll || s >= self.bottom(), ..self }
    }

    /// The number of rows that a page has.
    pub fn pageRows(&self) -> (r: usize)
        ensures
            r == self.page(),
    {
        if self.lastViewportRows > 1 {
            self.lastViewportRows
        } else {
            1
        }
    }

    /// The scroll offset of the tail.
    pub fn bottomOffset(&self) -> (r: usize)
        ensures
            r == self.bottom(),
    {
        self.lines.len().saturating_sub(self.pageRows())
    }

    /// The inspector with the output of `snap`. The scroll position stays unless
    /// autoscroll is active, in which case it goes to the tail.
    pub open spec fn refilled(self, snap: JobOutputSnapshot) -> InspectorState {
        let t = InspectorState {
            lines: snap.lines,
            firstLine: snap.firstLine,
            totalLines: snap.totalLines,
            earliestBuffered: snap.earliestBuffered,
            state: snap.state,
            command: snap.command,
            ..self
        };
        if self.autoscroll {
            InspectorState { scrollOffset: t.bottom() as usize, ..t }
        } else {
            t
        }
    }

    fn refill(&mut self, snap: JobOutputSnapshot)
        ensures
            *final(self) == old(self).refilled(snap),
    {
        self.lines = snap.lines;
        self.firstLine = snap.firstLine;
        self.totalLines = snap.totalLines;
        self.earliestBuffered = snap.earliestBuffered;
        self.state = snap.state;
        self.command = snap.command;
        if self.autoscroll {
            let bottom: usize = self.bottomOffset();
            self.scrollOffset = bottom;
        }
    }

    fn lineUp(&mut self)
        ensures
            *final(self) == old(self).line_up(),
    {
        self.autoscroll = false;
        self.scrollOffset = self.scrollOffset.saturating_sub(1);
    }

    fn lineDown(&mut self)
        ensures
            *final(self) == old(self).line_down(),
    {
        let bottom: usize = self.bottomOffset();
        if self.scrollOffset >= bottom {
            self.autoscroll = true;
        } else {
            self.scrollOffset = self.scrollOffset + 1;
            if self.scrollOffset >= bottom {
                self.autoscroll = true;
            }
        }
    }

    fn follow(&mut self) -> (r: PanelAction)
        ensures
            (Some(*final(self)), r) == old(self).following(),
    {
        let id = self.id;
        let bottom: usize = self.bottomOffset();
        let wasPaginating = self.requestedSinceLine.is_some();
        self.autoscroll = true;
        self.scrollOffset = bottom;
        self.requestedSinceLine = None;
        if wasPaginating {
            PanelAction::Refetch(id)
        } else {
            PanelAction::Stay
        }
    }

    /// Handles a key; the flag says whether the inspector stays open.
    pub fn handleKey(&mut self, key: KeyEvent) -> (r: (bool, PanelAction))
        ensures
            r.1 == old(self).on_key(key).1,
            r.0 == (old(self).on_key(key).0 is Some),
            r.0 ==> old(self).on_key(key).0 == Some(*final(self)),
    {
        match key.code {
            KeyCode::Esc => (false, PanelAction::Stay),
            KeyCode::Backspace => (false, PanelAction::Stay),
            KeyCode::Up => {
                self.lineUp();
                (true, PanelAction::Stay)
            },
            KeyCode::Down => {
                self.lineDown();
                (true, PanelAction::Stay)
            },
            KeyCode::PageUp => {
                let id = self.id;
                let page: usize = self.pageRows();
                self.autoscroll = false;
                if self.scrollOffset > 0 {
                    self.scrollOffset = self.scrollOffset.saturating_sub(page);
                    (true, PanelAction::Stay)
                } else if self.firstLine > self.earliestBuffered {
                    let back: u64 = self.firstLine.saturating_sub(page as u64);
                    let start: u64 = if back > self.earliestBuffered {
                        back
                    } else {
                        self.earliestBuffered
                    };
                    self.requestedSinceLine = Some(start);
                    (true, PanelAction::Refetch(id))
                } else {
                    (true, PanelAction::Stay)
                }
            },
            KeyCode::PageDown => {
                let page: usize = self.pageRows();
                let bottom: usize = self.bottomOffset();
                if self.scrollOffset >= bottom || bottom - self.scrollOffset <= page {
                    let action = self.follow();
                    (true, action)
                } else {
                    self.scrollOffset = self.scrollOffset + page;
                    (true, PanelAction::Stay)
                }
            },
            KeyCode::Home => {
                let id = self.id;
                let earliest: u64 = self.earliestBuffered;
                self.autoscroll = false;
                self.scrollOffset = 0;
                if self.firstLine > earliest {
                    self.requestedSinceLine = Some(earliest);
                    (true, PanelAction::Refetch(id))
                } else {
                    (true, PanelAction::Stay)
                }
            },
            KeyCode::End => {
                let action = self.follow();
                (true, action)
            },
            KeyCode::Char(c) => {
                if c == 'q' {
                    (false, PanelAction::Stay)
                } else if c == 'k' {
                    self.lineUp();
                    (true, PanelAction::Stay)
                } else if c == 'j' {
                    self.lineDown();
                    (true, PanelAction::Stay)
                } else if c == 'K' {
                    if !self.state.isTerminal() {
                        (true, PanelAction::Kill(self.id))
                    } else {
                        (true, PanelAction::Stay)
                    }
                } else {
                    (true, PanelAction::Stay)
                }
            },
            _ => (true, PanelAction::Stay),
        }
    }
}

impl JobsPanel {
    pub fn new(jobs: Vec<JobInfo>) -> (r: Self)
        ensures
            r.is_new(jobs),
            r.wf(),
    {
        JobsPanel {
            jobs,
            wakes: Vec::new(),
            selected: 0,
            scrollOffset: 0,
            lastVisibleCount: 0,
            showFinished: false,
            mode: Mode::List,
        }
    }

    /// Replaces the wake list, which drives the schedules section.
    pub fn refreshWakes(&mut self, wakes: Vec<WakeSourceInfo>)
        ensures
            *final(self) == (JobsPanel { wakes, ..*old(self) }),
    {
        self.wakes = wakes;
    }

    /// The indexes of the jobs that the list shows.
    pub fn visibleJobIndexes(&self) -> (r: Vec<usize>)
        ensures
            r@ == self.visible(),
    {
        let mut out: Vec<usize> = Vec::new();
        let mut i: usize = 0;
        while i < self.jobs.len()
            invariant
                i <= self.jobs.len(),
                out@ == visible_of(self.jobs@.take(i as int), self.showFinished),
            decreases self.jobs.len() - i,
        {
            proof {
                assert(self.jobs@.take(i + 1).drop_last() =~= self.jobs@.take(i as int));
                assert(self.jobs@.take(i + 1).last() == self.jobs@[i as int]);
            }
            if self.showFinished || !self.jobs[i].state.isTerminal() {
                out.push(i);
            }
            i = i + 1;
        }
        proof {
            assert(self.jobs@.take(self.jobs@.len() as int) =~= self.jobs@);
        }
        out
    }

    /// The job under the cursor.
    pub fn selectedJob(&self) -> (r: Option<&JobInfo>)
        ensures
            match r {
                Some(j) => self.selected < self.visible().len() && *j
                    == self.jobs@[self.visible()[self.selected as int] as int] && shown(
                    j.state,
                    self.showFinished,
                ),
                None => self.selected >= self.visible().len(),
            },
            self.selected_id() == (match r {
                Some(j) => Some(j.id),
                None => None,
            }),
    {
        let v = self.visibleJobIndexes();
        let count: usize = self.jobs.len();
        proof {
            assert(count == self.jobs@.len());
            lemma_visible(self.jobs@, self.showFinished);
        }
        if self.selected < v.len() {
            let i: usize = v[self.selected];
            Some(&self.jobs[i])
        } else {
            None
        }
    }

    fn selectedJobId(&self) -> (r: Option<JobId>)
        ensures
            r == self.selected_id(),
    {
        match self.selectedJob() {
            Some(j) => Some(j.id),
            None => None,
        }
    }

    fn clampSelection(&mut self)
        ensures
            *final(self) == old(self).clamped(),
            final(self).wf(),
    {
        let n: usize = self.visibleJobIndexes().len();
        if n == 0 {
            self.selected = 0;
            self.scrollOffset = 0;
            return;
        }
        if self.selected >= n {
            self.selected = n - 1;
        }
        if self.scrollOffset >= n {
            self.scrollOffset = n - 1;
        }
    }

    fn selectId(&mut self, id: Option<JobId>)
        ensures
            *final(self) == old(self).selecting(id),
    {
        let v = self.visibleJobIndexes();
        let count: usize = self.jobs.len();
        proof {
            assert(count == self.jobs@.len());
            lemma_visible(self.jobs@, self.showFinished);
        }
        let ghost ids = visible_ids(self.jobs@, self.showFinished);
        match id {
            Some(j) => {
                proof {
                    ids.index_of_first_ensures(j);
                }
                let mut k: usize = 0;
                while k < v.len()
                    invariant
                        k <= v.len(),
                        id == Some(j),
                        v@ == self.visible(),
                        *self == *old(self),
                        ids == visible_ids(self.jobs@, self.showFinished),
                        forall|q: int| 0 <= q < v.len() ==> #[trigger] v@[q] < self.jobs@.len(),
                        forall|q: int| 0 <= q < k ==> ids[q] != j,
                    decreases v.len() - k,
                {
                    let i: usize = v[k];
                    proof {
                        assert(ids[k as int] == self.jobs@[v@[k as int] as int].id);
                    }
                    if self.jobs[i].id == j {
                        proof {
                            ids.index_of_first_ensures(j);
                            assert(ids.contains(ids[k as int]));
                            assert(ids.index_of_first(j) == Some(k as int));
                        }
                        self.selected = k;
                        return;
                    }
                    k = k + 1;
                }
            },
            None => {},
        }
    }

    /// Updates the list while keeping the selection by job id. If the
    /// inspector is open on a job that is not in the new list, the panel falls
    /// back to the list view.
    pub fn refresh(&mut self, jobs: Vec<JobInfo>)
        ensures
            *final(self) == old(self).refreshed(jobs),
            final(self).wf(),
    {
        let id = self.selectedJobId();
        self.jobs = jobs;
        self.selectId(id);
        self.clampSelection();
        let mut gone = false;
        match &self.mode {
            Mode::Inspect(s) => {
                gone = true;
                let mut i: usize = 0;
                while i < self.jobs.len()
                    invariant
                        i <= self.jobs.len(),
                        gone == !(exists|q: int|
                            0 <= q < i && (#[trigger] self.jobs@[q]).id == s.id),
                    decreases self.jobs.len() - i,
                {
                    if self.jobs[i].id == s.id {
                        gone = false;
                    }
                    i = i + 1;
                }
            },
            Mode::List => {},
        }
        if gone {
            self.mode = Mode::List;
        }
    }

    fn toggleFinished(&mut self)
        ensures
            *final(self) == old(self).toggled(),
            final(self).wf(),
    {
        let id = self.selectedJobId();
        self.showFinished = !self.showFinished;
        self.selectId(id);
        self.clampSelection();
    }

    fn moveUp(&mut self, n: usize)
        ensures
            *final(self) == old(self).up(n as int),
            old(self).wf() ==> final(self).wf(),
    {
        let before: usize = self.selected;
        self.selected = before.saturating_sub(n);
        if self.selected < before && self.selected < self.scrollOffset {
            self.scrollOffset = self.selected;
        }
    }

    fn moveDown(&mut self, n: usize)
        requires
            n < 100,
        ensures
            *final(self) == old(self).down(n as int),
            old(self).wf() ==> final(self).wf(),
    {
        let len: usize = self.visibleJobIndexes().len();
        if n > 0 && self.selected < len && len - self.selected > 1 {
            if len - 1 - self.selected > n {
                self.selected = self.selected + n;
            } else {
                self.selected = len - 1;
            }
            let rows: usize = if self.lastVisibleCount > 1 {
                self.lastVisibleCount
            } else {
                1
            };
            if self.selected >= self.scrollOffset && self.selected - self.scrollOffset >= rows {
                self.scrollOffset = self.selected - (rows - 1);
            }
        }
    }

    fn handleKeyList(&mut self, key: KeyEvent) -> (r: PanelAction)
        ensures
            (*final(self), r) == old(self).list_key(key),
            old(self).wf() ==> final(self).wf(),
    {
        match key.code {
            KeyCode::Esc => PanelAction::Close,
            KeyCode::Up => {
                self.moveUp(1);
                PanelAction::Stay
            },
            KeyCode::Down => {
                self.moveDown(1);
                PanelAction::Stay
            },
            KeyCode::PageUp => {
                self.moveUp(10);
                PanelAction::Stay
            },
            KeyCode::PageDown => {
                self.moveDown(10);
                PanelAction::Stay
            },
            KeyCode::Enter => match self.selectedJobId() {
                Some(id) => PanelAction::Inspect(id),
                None => PanelAction::Stay,
            },
            KeyCode::Char(c) => {
                if c == 'q' {
                    PanelAction::Close
                } else if c == 'j' {
                    self.moveDown(1);
                    PanelAction::Stay
                } else if c == 'f' && !key.modifiers.control {
                    self.toggleFinished();
                    PanelAction::Stay
                } else if c == 'k' && !key.modifiers.control {
                    match self.selectedJob() {
                        Some(j) => if !j.state.isTerminal() {
                            PanelAction::Kill(j.id)
                        } else {
                            PanelAction::Stay
                        },
                        None => PanelAction::Stay,
                    }
                } else {
                    PanelAction::Stay
                }
            },
            _ => PanelAction::Stay,
        }
    }

    /// Handles a key event.
    pub fn handleKey(&mut self, key: KeyEvent) -> (r: PanelAction)
        ensures
            (*final(self), r) == old(self).on_key(key),
            old(self).wf() ==> final(self).wf(),
    {
        proof {
            reveal(JobsPanel::on_key);
        }
        let mut open = true;
        let mut action = PanelAction::Stay;
        let mut list = true;
        match &mut self.mode {
            Mode::List => {},
            Mode::Inspect(s) => {
                let r = s.handleKey(key);
                open = r.0;
                action = r.1;
                list = false;
            },
        }
        if list {
            return self.handleKeyList(key);
        }
        if !open {
            self.mode = Mode::List;
        }
        action
    }

    /// The id of the task being inspected, if any.
    pub fn inspectorTaskId(&self) -> (r: Option<JobId>)
        ensures
            r == (match self.mode {
                Mode::Inspect(s) => Some(s.id),
                Mode::List => None,
            }),
    {
        match &self.mode {
            Mode::Inspect(s) => Some(s.id),
            Mode::List => None,
        }
    }

    /// The line from which the next refresh fetches. `None` means the tail.
    pub fn inspectorSinceLine(&self) -> (r: Option<u64>)
        ensures
            r == (match self.mode {
                Mode::Inspect(s) => s.requestedSinceLine,
                Mode::List => None,
            }),
    {
        match &self.mode {
            Mode::Inspect(s) => s.requestedSinceLine,
            Mode::List => None,
        }
    }

    /// Whether a snapshot for `id` that was fetched from `since` on belongs to
    /// the window that the inspector shows now.
    pub open spec fn accepts(self, id: JobId, since: Option<u64>) -> bool {
        match self.mode {
            Mode::Inspect(s) => s.id == id && s.requestedSinceLine == since,
            Mode::List => false,
        }
    }

    /// The panel whose inspector shows `snap`. The scroll position stays unless
    /// autoscroll is active, in which case it goes to the tail.
    pub open spec fn showing(self, snap: JobOutputSnapshot) -> JobsPanel {
        JobsPanel { mode: Mode::Inspect(self.mode->Inspect_0.refilled(snap)), ..self }
    }

    /// Whether the inspector is open for the task `id`.
    pub open spec fn inspects(self, id: JobId) -> bool {
        match self.mode {
            Mode::Inspect(s) => s.id == id,
            Mode::List => false,
        }
    }

    /// The panel with its inspector opened for a task, at the tail. One that is open
    /// for the same job already only shows the new output; one that is open for another
    /// job keeps its page size.
    pub open spec fn opened(self, id: JobId, snap: JobOutputSnapshot) -> JobsPanel {
        let rows: int = match self.mode {
            Mode::Inspect(s) => s.page(),
            Mode::List => 1,
        };
        if self.inspects(id) {
            self.showing(snap)
        } else {
            JobsPanel {
                mode: Mode::Inspect(
                    InspectorState {
                        id,
                        command: snap.command,
                        lines: snap.lines,
                        firstLine: snap.firstLine,
                        totalLines: snap.totalLines,
                        earliestBuffered: snap.earliestBuffered,
                        state: snap.state,
                        scrollOffset: minus(snap.lines@.len() as int, rows) as usize,
                        autoscroll: true,
                        lastViewportRows: rows as usize,
                        requestedSinceLine: None,
                    },
                ),
                ..self
            }
        }
    }

    /// Replaces the inspector's cached output with a fresh snapshot, only if
    /// the snapshot was fetched against the inspector's current pin. Returns
    /// whether it was applied. The scroll position stays unless autoscroll is
    /// active, in which case it goes to the tail.
    pub fn applyInspectorSnapshot(
        &mut self,
        id: JobId,
        fetchedSinceLine: Option<u64>,
        snap: JobOutputSnapshot,
    ) -> (r: bool)
        ensures
            r == old(self).accepts(id, fetchedSinceLine),
            !r ==> *final(self) == *old(self),
            r ==> *final(self) == old(self).showing(snap),
    {
        match &mut self.mode {
            Mode::List => false,
            Mode::Inspect(s) => {
                if s.id != id {
                    return false;
                }
                let same = match (fetchedSinceLine, s.requestedSinceLine) {
                    (None, None) => true,
                    (Some(a), Some(b)) => a == b,
                    _ => false,
                };
                if !same {
                    return false;
                }
                s.refill(snap);
                true
            },
        }
    }

    /// Opens the inspector for a task with an initial output snapshot, at the
    /// tail. If the inspector is already open for the same task, this only refreshes
    /// what it caches: the scroll position, autoscroll and the pinned line stay. One
    /// that is open for another task keeps its page size.
    pub fn applyInspectorOpen(&mut self, id: JobId, snap: JobOutputSnapshot)
        ensures
            *final(self) == old(self).opened(id, snap),
    {
        let mut rows: usize = 1;
        match &mut self.mode {
            Mode::Inspect(s) => {
                if s.id == id {
                    s.refill(snap);
                    return;
                }
                rows = s.pageRows();
            },
            Mode::List => {},
        }
        let scrollOffset: usize = snap.lines.len().saturating_sub(rows);
        self.mode = Mode::Inspect(
            InspectorState {
                id,
                command: snap.command,
                lines: snap.lines,
                firstLine: snap.firstLine,
                totalLines: snap.totalLines,
                earliestBuffered: snap.earliestBuffered,
                state: snap.state,
                scrollOffset,
                autoscroll: true,
                lastViewportRows: rows,
                requestedSinceLine: None,
            },
        );
    }
}

// ---- laws ----

/// Nothing finished is listed, and so nothing finished can be selected, while
/// finished jobs are hidden; every unfinished job is listed.
pub proof fn law_hidden_jobs_are_never_selectable(p: JobsPanel)
    requires
        p.jobs@.len() <= usize::MAX,
        !p.showFinished,
    ensures
        forall|k: int|
            #![trigger p.visible()[k]]
            0 <= k < p.visible().len() ==> p.visible()[k] < p.jobs@.len()
                && p.jobs@[p.visible()[k] as int].state is Running,
        forall|i: int|
            0 <= i < p.jobs@.len() && (#[trigger] p.jobs@[i]).state is Running
                ==> p.visible().contains(i as usize),
{
    lemma_visible(p.jobs@, p.showFinished);
}

/// With finished jobs shown, every job is listed, in order.
pub proof fn law_showing_finished_lists_every_job(p: JobsPanel)
    requires
        p.showFinished,
    ensures
        p.visible() == Seq::new(p.jobs@.len(), |i: int| i as usize),
{
    lemma_all_visible(p.jobs@);
}

proof fn lemma_all_visible(jobs: Seq<JobInfo>)
    ensures
        visible_of(jobs, true) == Seq::new(jobs.len(), |i: int| i as usize),
    decreases jobs.len(),
{
    if jobs.len() > 0 {
        lemma_all_visible(jobs.drop_last());
    }
    assert(visible_of(jobs, true) =~= Seq::new(jobs.len(), |i: int| i as usize));
}

/// A refresh, and a toggle of finished rows, keep the cursor on its job
/// wherever that job is still listed.
pub proof fn law_selection_follows_the_job(p: JobsPanel, jobs: Vec<JobInfo>, id: JobId)
    requires
        p.selected_id() == Some(id),
        p.jobs@.len() <= usize::MAX,
        jobs@.len() <= usize::MAX,
    ensures
        visible_ids(jobs@, p.showFinished).contains(id) ==> p.refreshed(jobs).selected_id() == Some(
            id,
        ),
        visible_ids(p.jobs@, !p.showFinished).contains(id) ==> p.toggled().selected_id() == Some(id),
{
    lemma_selecting(JobsPanel { jobs, ..p }, id);
    lemma_selecting(JobsPanel { showFinished: !p.showFinished, ..p }, id);
}

proof fn lemma_selecting(p: JobsPanel, id: JobId)
    requires
        p.jobs@.len() <= usize::MAX,
    ensures
        visible_ids(p.jobs@, p.showFinished).contains(id) ==> p.selecting(
            Some(id),
        ).clamped().selected_id() == Some(id),
{
    let ids = visible_ids(p.jobs@, p.showFinished);
    ids.index_of_first_ensures(id);
    lemma_visible(p.jobs@, p.showFinished);
    if ids.contains(id) {
        let k = ids.index_of_first(id)->0;
        assert(ids[k] == id);
    }
}

/// Toggling finished rows twice shows the same rows again.
pub proof fn law_toggle_twice_shows_the_same(p: JobsPanel)
    ensures
        p.toggled().toggled().visible() == p.visible(),
        p.toggled().toggled().jobs == p.jobs,
{
}

/// A panel asks to kill only a job that is running.
pub proof fn law_kill_only_running(p: JobsPanel, key: KeyEvent, id: JobId)
    requires
        p.on_key(key).1 == PanelAction::Kill(id),
        p.jobs@.len() <= usize::MAX,
    ensures
        p.mode is Inspect ==> p.mode->Inspect_0.id == id && p.mode->Inspect_0.state is Running,
        p.mode is List ==> exists|i: int|
            0 <= i < p.jobs@.len() && (#[trigger] p.jobs@[i]).id == id && p.jobs@[i].state
                is Running,
{
    reveal(JobsPanel::on_key);
    lemma_visible(p.jobs@, p.showFinished);
    if p.mode is List {
        let i = p.visible()[p.selected as int] as int;
        assert(p.jobs@[i].id == id);
    }
}

/// A pin that paging sets never lies before the earliest line still kept.
pub proof fn law_pin_is_still_buffered(s: InspectorState, key: KeyEvent)
    requires
        s.requestedSinceLine matches Some(l) ==> l >= s.earliestBuffered,
    ensures
        s.on_key(key).0 matches Some(t) ==> (t.requestedSinceLine matches Some(l) ==> l
            >= t.earliestBuffered),
{
}

/// Opening the inspector again for the task that it shows keeps the reader's place:
/// the pinned line, the page size, and the scroll position unless it follows the tail.
pub proof fn law_opening_again_keeps_the_place(p: JobsPanel, id: JobId, snap: JobOutputSnapshot)
    requires
        p.inspects(id),
    ensures
        ({
            let s = p.mode->Inspect_0;
            let t = p.opened(id, snap).mode->Inspect_0;
            &&& p.opened(id, snap).mode is Inspect
            &&& t.id == id
            &&& t.lines == snap.lines
            &&& t.requestedSinceLine == s.requestedSinceLine
            &&& t.autoscroll == s.autoscroll
            &&& t.lastViewportRows == s.lastViewportRows
            &&& !s.autoscroll ==> t.scrollOffset == s.scrollOffset
        }),
{
}

/// In the list, enter opens the job that is chosen and `k` ends it where it runs; `q` and
/// escape close the list, and `f` shows or hides what has ended.
pub proof fn law_keys_act_on_the_chosen_job(p: JobsPanel, key: KeyEvent)
    requires
        p.mode is List,
        p.selected < p.visible().len(),
        !key.modifiers.control,
    ensures
        ({
            let job = p.jobs@[p.visible()[p.selected as int] as int];
            let (q, a) = p.on_key(key);
            &&& key.code == KeyCode::Enter ==> a == PanelAction::Inspect(job.id) && q == p
            &&& key.code == KeyCode::Char('k') && job.state is Running ==> a == PanelAction::Kill(
                job.id,
            ) && q == p
            &&& key.code == KeyCode::Char('k') && !(job.state is Running) ==> a
                == PanelAction::Stay && q == p
            &&& key.code == KeyCode::Char('q') || key.code == KeyCode::Esc ==> a
                == PanelAction::Close
            &&& a is Close ==> key.code == KeyCode::Char('q') || key.code == KeyCode::Esc
            &&& a is Kill ==> key.code == KeyCode::Char('k')
            &&& key.code == KeyCode::Char('f') ==> q.showFinished == !p.showFinished
            &&& key.code != KeyCode::Char('f') ==> q.showFinished == p.showFinished
            &&& q.jobs == p.jobs
        }),
{
    reveal(JobsPanel::on_key);
}

/// The arrows move the choice by one, and pages by ten, within what is listed.
pub proof fn law_the_choice_of_a_job_moves(p: JobsPanel, n: int)
    requires
        0 < n,
        p.selected < p.visible().len() <= usize::MAX,
    ensures
        p.selected >= n ==> p.up(n).selected == p.selected - n,
        p.selected < n ==> p.up(n).selected == 0,
        p.selected + n < p.visible().len() ==> p.down(n).selected == p.selected + n,
        p.selected + n >= p.visible().len() ==> p.down(n).selected == p.visible().len() - 1,
        p.up(n).jobs == p.jobs && p.down(n).jobs == p.jobs,
{
}

/// The list shows every job that runs, and those that have ended where they are wanted,
/// in their order.
pub proof fn law_the_list_shows_what_is_wanted(jobs: Seq<JobInfo>, j: JobInfo, all: bool)
    requires
        jobs.len() < usize::MAX,
    ensures
        j.state is Running || all ==> visible_of(jobs.push(j), all) == visible_of(jobs, all).push(
            jobs.len() as usize,
        ),
        !(j.state is Running) && !all ==> visible_of(jobs.push(j), all) == visible_of(jobs, all),
        visible_of(Seq::empty(), all).len() == 0,
{
    assert(jobs.push(j).drop_last() =~= jobs);
}

/// What is shown of a job is what was fetched for it: its lines, its state and what it
/// runs. It follows the end where it did before.
pub proof fn law_the_inspector_shows_what_was_fetched(
    p: JobsPanel,
    id: JobId,
    since: Option<u64>,
    snap: JobOutputSnapshot,
)
    ensures
        p.opened(id, snap).mode is Inspect,
        ({
            let s = p.opened(id, snap).mode->Inspect_0;
            &&& s.id == id
            &&& s.lines == snap.lines
            &&& s.firstLine == snap.firstLine
            &&& s.totalLines == snap.totalLines
            &&& s.earliestBuffered == snap.earliestBuffered
            &&& s.state == snap.state
            &&& s.command == snap.command
            &&& !p.inspects(id) ==> s.autoscroll && s.requestedSinceLine is None
        }),
        p.accepts(id, since) ==> p.showing(snap).mode is Inspect && ({
            let (s, t) = (p.mode->Inspect_0, p.showing(snap).mode->Inspect_0);
            &&& s.id == id && t.id == id
            &&& t.lines == snap.lines
            &&& t.firstLine == snap.firstLine
            &&& t.state == snap.state
            &&& t.autoscroll == s.autoscroll
            &&& !s.autoscroll ==> t.scrollOffset == s.scrollOffset
        }),
        p.mode matches Mode::Inspect(s) ==> (p.accepts(id, since) <==> s.id == id
            && s.requestedSinceLine == since),
        p.mode is List ==> !p.accepts(id, since),
{
}

/// In the inspector, `K` ends the job that is shown where it runs; `q`, escape and
/// backspace go back to the list; the arrows scroll by a line, and only scrolling up
/// stops following the end.
pub proof fn law_keys_of_the_inspector(s: InspectorState, key: KeyEvent)
    requires
        s.lines@.len() <= usize::MAX,
    ensures
        ({
            let (t, a) = s.on_key(key);
            &&& key.code == KeyCode::Char('K') && s.state is Running ==> a == PanelAction::Kill(
                s.id,
            ) && t == Some(s)
            &&& a is Kill ==> key.code == KeyCode::Char('K') && s.state is Running
            &&& t is None <==> key.code == KeyCode::Char('q') || key.code == KeyCode::Esc
                || key.code == KeyCode::Backspace
            &&& !(a is Close) && !(a is Inspect)
            &&& a matches PanelAction::Refetch(id) ==> id == s.id
            &&& key.code == KeyCode::Up && s.scrollOffset > 0 ==> t is Some
                && (t->0).scrollOffset == s.scrollOffset - 1 && !(t->0).autoscroll
            &&& key.code == KeyCode::Down && s.scrollOffset < s.bottom() ==> t is Some
                && (t->0).scrollOffset == s.scrollOffset + 1
            &&& key.code == KeyCode::End ==> t is Some && (t->0).autoscroll
                && (t->0).requestedSinceLine is None
            &&& key.code == KeyCode::Home ==> t is Some && (t->0).scrollOffset == 0
                && !(t->0).autoscroll
            &&& t is Some ==> (t->0).lines == s.lines && (t->0).id == s.id
        }),
{
}

/// A page further up than what is loaded asks for the page before it, as far as it is
/// still kept; a page down at the end follows the output again.
pub proof fn law_paging_asks_for_earlier_output(s: InspectorState, up: KeyEvent, down: KeyEvent)
    requires
        up.code == KeyCode::PageUp,
        down.code == KeyCode::PageDown,
        s.lastViewportRows > 0,
    ensures
        ({
            let n = s.lastViewportRows as int;
            let (t, a) = s.on_key(up);
            &&& s.scrollOffset == 0 && s.firstLine > s.earliestBuffered ==> a
                == PanelAction::Refetch(s.id) && t is Some
            &&& s.scrollOffset == 0 && s.firstLine >= s.earliestBuffered + n && s.firstLine
                > s.earliestBuffered ==> (t->0).requestedSinceLine == Some((s.firstLine - n) as u64)
            &&& s.scrollOffset == 0 && s.earliestBuffered < s.firstLine < s.earliestBuffered + n
                ==> (t->0).requestedSinceLine == Some(s.earliestBuffered)
            &&& s.scrollOffset >= n ==> t is Some && (t->0).scrollOffset == s.scrollOffset - n
            &&& s.scrollOffset + n >= s.bottom() ==> s.on_key(down).0 is Some && (
            s.on_key(down).0->0).autoscroll
        }),
{
}

} // verus!
