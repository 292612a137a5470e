//! The state of the deck, and what the events of the session make of it. Times are
//! in milliseconds.

use std::collections::HashSet;
use vstd::prelude::*;
use vstd::string::*;
use crate::agent_panel::entry::{EntryV, with_marker};
use crate::agent_panel::events::is_wake_receipt;
use crate::agent_panel::labels::is_wake_tool;
use crate::agent_panel::state::{AgentPanel, Attachment, ComposeV, PanelV};
use crate::app::effect::{EffectV, LogLevel, NoteV, logged};
use crate::app::event::{LogEvent, SpawnedBy};
use crate::app::replay::replayed;
use crate::app::title::{TITLE_IDLE_GLYPH, TITLE_UNSEEN_GLYPH, TitleState, TitleV, title_text};
use crate::draw::minus;
use crate::fork_picker::ForkPicker;
use crate::jobs_panel::{JobId, JobsPanel, Mode};
use crate::text::{brief, dec, dec_int, opt_text, texts};

verus! {

// ---- state ----

/// What runs in the background.
pub struct Background {
    pub running: usize,
    pub monitors: usize,
    pub wakes: usize,
    /// Tasks that ended while the panel of tasks was closed.
    pub unread: HashSet<JobId>,
}

/// What runs in the background, as a value.
pub ghost struct BackgroundV {
    pub running: int,
    pub monitors: int,
    pub wakes: int,
    pub unread: Set<JobId>,
}

impl View for Background {
    type V = BackgroundV;

    open spec fn view(&self) -> BackgroundV {
        BackgroundV {
            running: self.running as int,
            monitors: self.monitors as int,
            wakes: self.wakes as int,
            unread: self.unread@,
        }
    }
}

/// The output of the inspected task: one request is on its way at most, and
/// `dirty` tells that there was output since it was sent.
#[derive(Clone, Copy, Debug, PartialEq, Eq, Structural)]
pub struct Inspector {
    pub inFlight: bool,
    pub dirty: bool,
}

/// How much of the context is used, what the session cost so far as it is written,
/// and when the cache was hit last.
pub struct Usage {
    pub tokens: usize,
    pub cost: String,
    pub cacheHitAt: Option<u64>,
}

/// The usage as a value.
pub ghost struct UsageV {
    pub tokens: usize,
    pub cost: Seq<char>,
    pub cacheHitAt: Option<u64>,
}

impl View for Usage {
    type V = UsageV;

    open spec fn view(&self) -> UsageV {
        UsageV { tokens: self.tokens, cost: self.cost@, cacheHitAt: self.cacheHitAt }
    }
}

/// An image as the transcript keeps it, its bytes in base64.
#[derive(Debug)]
pub struct StoredAttachment {
    pub mimeType: String,
    pub data: String,
}

/// What goes back into the input once a rewind is done.
pub struct RewindPlan {
    pub message: Option<String>,
    pub attachments: Option<Vec<StoredAttachment>>,
}

/// What goes back into the input, as a value.
pub ghost struct RewindV {
    pub message: Option<Seq<char>>,
    pub attachments: Option<Seq<StoredAttachment>>,
}

impl View for RewindPlan {
    type V = RewindV;

    open spec fn view(&self) -> RewindV {
        RewindV {
            message: opt_text(self.message),
            attachments: match self.attachments {
                Some(a) => Some(a@),
                None => None,
            },
        }
    }
}

/// Which of the panels that are kept elsewhere are open.
#[derive(Clone, Copy, Debug, PartialEq, Eq, Structural)]
pub struct Overlays {
    pub sessions: bool,
    pub rewind: bool,
    pub mcp: bool,
    pub lsp: bool,
    pub model: bool,
    pub permissions: bool,
    pub subagents: bool,
    pub log: bool,
}

/// The deck.
pub struct Deck {
    pub panel: AgentPanel,
    pub tasks: Option<JobsPanel>,
    pub forks: Option<ForkPicker>,
    pub title: TitleState,
    pub background: Background,
    pub inspector: Inspector,
    pub usage: Usage,
    pub rewind: RewindPlan,
    pub open: Overlays,
}

/// The deck as a value.
pub ghost struct DeckV {
    pub panel: PanelV,
    pub tasks: Option<JobsPanel>,
    pub forks: Option<ForkPicker>,
    pub title: TitleV,
    pub background: BackgroundV,
    pub inspector: Inspector,
    pub usage: UsageV,
    pub rewind: RewindV,
    pub open: Overlays,
}

impl View for Deck {
    type V = DeckV;

    open spec fn view(&self) -> DeckV {
        DeckV {
            panel: self.panel@,
            tasks: self.tasks,
            forks: self.forks,
            title: self.title@,
            background: self.background@,
            inspector: self.inspector,
            usage: self.usage@,
            rewind: self.rewind@,
            open: self.open,
        }
    }
}

/// The panel that is open when the deck starts: none.
#[verifier::allow_in_spec]
pub fn allClosed() -> Overlays
    returns
        (Overlays {
            sessions: false,
            rewind: false,
            mcp: false,
            lsp: false,
            model: false,
            permissions: false,
            subagents: false,
            log: false,
        }),
{
    Overlays {
        sessions: false,
        rewind: false,
        mcp: false,
        lsp: false,
        model: false,
        permissions: false,
        subagents: false,
        log: false,
    }
}

/// Nothing runs in the background.
pub open spec fn idle_background() -> BackgroundV {
    BackgroundV { running: 0, monitors: 0, wakes: 0, unread: Set::empty() }
}

impl DeckV {
    /// The panel and the picker of forks are well-formed, and the spinner shows one of
    /// its frames.
    pub open spec fn wf(self) -> bool {
        &&& self.panel.wf()
        &&& self.title.spinner.wf()
        &&& self.forks matches Some(f) ==> f.wf()
    }
}

impl Deck {
    /// The deck around a panel at the start.
    pub fn new(panel: AgentPanel, now: u64) -> (r: Deck)
        ensures
            r@.panel == panel@,
            r@.tasks is None,
            r@.forks is None,
            r@.title.topic is None,
            r@.title.windowFocused,
            !r@.title.unseenWork,
            !r@.title.unseenPermit,
            r@.background == idle_background(),
            r@.inspector == (Inspector { inFlight: false, dirty: false }),
            r@.usage == (UsageV { tokens: 0, cost: Seq::empty(), cacheHitAt: None }),
            r@.rewind == (RewindV { message: None, attachments: None }),
            r@.open == allClosed(),
            r.title.spinner.wf(),
            panel@.wf() ==> r@.wf(),
    {
        let r = Deck {
            panel,
            tasks: None,
            forks: None,
            title: TitleState::new(now),
            background: Background { running: 0, monitors: 0, wakes: 0, unread: HashSet::new() },
            inspector: Inspector { inFlight: false, dirty: false },
            usage: Usage { tokens: 0, cost: String::new(), cacheHitAt: None },
            rewind: RewindPlan { message: None, attachments: None },
            open: allClosed(),
        };
        proof {
            assert(r@.usage.cost =~= Seq::<char>::empty());
            assert(r@.background =~= idle_background());
        }
        r
    }
}

// ---- images that come back ----

/// The bytes that `s` stands for in standard base64 with padding, as the `base64`
/// crate reads it; none where it does not.
pub uninterp spec fn base64_bytes(s: Seq<char>) -> Option<Seq<u8>>;

/// The bytes of an optional vector.
pub open spec fn opt_bytes(o: Option<Vec<u8>>) -> Option<Seq<u8>> {
    match o {
        Some(v) => Some(v@),
        None => None,
    }
}

/// Decodes with `base64::engine::general_purpose::STANDARD`. The outcome depends on
/// the text alone.
#[verifier::external_body]
pub(crate) fn decodeBase64(s: &str) -> (r: Option<Vec<u8>>)
    ensures
        opt_bytes(r) == base64_bytes(s@),
{
    base64::Engine::decode(&base64::engine::general_purpose::STANDARD, s).ok()
}

/// The bytes that were read, none at all where they could not be.
pub open spec fn read_bytes(b: Option<Seq<u8>>) -> Seq<u8> {
    match b {
        Some(v) => v,
        None => Seq::empty(),
    }
}

/// The image that comes back from a rewound turn, of the type `mimeType` with the
/// bytes that were read.
pub fn restoredImage(mimeType: &String, decoded: Option<Vec<u8>>) -> (r: Attachment)
    ensures
        r.mimeType@ == mimeType@,
        r.data@ == read_bytes(opt_bytes(decoded)),
        r.label@ == "restored image"@,
        r.rgbaDimensions is None,
{
    let data = match decoded {
        Some(v) => v,
        None => Vec::new(),
    };
    Attachment {
        mimeType: mimeType.clone(),
        data,
        label: String::from_str("restored image"),
        rgbaDimensions: None,
    }
}

/// Whether `a` is the image that comes back from `s`.
pub open spec fn restored(a: Attachment, s: StoredAttachment) -> bool {
    &&& a.mimeType@ == s.mimeType@
    &&& a.data@ == read_bytes(base64_bytes(s.data@))
    &&& a.label@ == "restored image"@
    &&& a.rgbaDimensions is None
}

/// Whether `a` are the images that come back from `s`.
pub open spec fn all_restored(a: Seq<Attachment>, s: Option<Seq<StoredAttachment>>) -> bool {
    match s {
        Some(s) => a.len() == s.len() && forall|i: int|
            0 <= i < s.len() ==> #[trigger] restored(a[i], s[i]),
        None => a.len() == 0,
    }
}

// ---- what events make of the deck ----

impl DeckV {
    pub open spec fn with_panel(self, panel: PanelV) -> DeckV {
        DeckV { panel, ..self }
    }

    /// What a record of the log brings about.
    pub open spec fn log(
        self,
        level: LogLevel,
        source: Seq<char>,
        title: Seq<char>,
        detail: Option<Seq<char>>,
        toast: bool,
    ) -> Seq<EffectV> {
        logged(self.open.log, NoteV { level, source, title, detail }, toast)
    }

    /// The task that is inspected, and the line from which on.
    pub open spec fn inspected(self) -> Option<(JobId, Option<u64>)> {
        match self.tasks {
            Some(p) => match p.mode {
                Mode::Inspect(s) => Some((s.id, s.requestedSinceLine)),
                Mode::List => None,
            },
            None => None,
        }
    }

    /// Whether the task `id` is inspected.
    pub open spec fn inspects(self, id: JobId) -> bool {
        self.inspected() matches Some(t) && t.0 == id
    }

    /// What is asked for to show the panel of tasks anew, where it is open.
    pub open spec fn refresh(self) -> Seq<EffectV> {
        if self.tasks is Some {
            seq![EffectV::ListJobs, EffectV::ListWakes] + (match self.inspected() {
                Some(t) => seq![EffectV::FetchOutput { id: t.0, sinceLine: t.1 }],
                None => Seq::empty(),
            })
        } else {
            Seq::empty()
        }
    }

    pub open spec fn counting(self, background: BackgroundV) -> DeckV {
        DeckV { background, ..self }
    }

    /// A task ended. One that ends while the panel of tasks is closed is unread.
    pub open spec fn task_ended(self, id: JobId) -> DeckV {
        self.counting(
            BackgroundV {
                running: minus(self.background.running, 1),
                unread: if self.tasks is None {
                    self.background.unread.insert(id)
                } else {
                    self.background.unread
                },
                ..self.background
            },
        )
    }

    pub open spec fn monitor_gone(self) -> DeckV {
        self.counting(
            BackgroundV { monitors: minus(self.background.monitors, 1), ..self.background },
        )
    }

    /// Another session is shown: nothing of it runs, and its conversation is empty.
    pub open spec fn emptied(self, now: u64) -> DeckV {
        DeckV {
            panel: self.panel.cleared(now),
            usage: UsageV { tokens: 0, ..self.usage },
            background: idle_background(),
            ..self
        }
    }

    /// What something of a subagent makes of the panel.
    pub open spec fn subagent_news(self, sid: Seq<char>, e: LogEvent) -> PanelV {
        match e {
            LogEvent::ToolAutoApproved { name, summary } => self.panel.subagent_tool(
                sid,
                name@,
                summary@,
            ),
            LogEvent::ToolStarted { name, summary } => self.panel.subagent_tool(
                sid,
                name@,
                summary@,
            ),
            LogEvent::ToolResult { name, output } => {
                let p = self.panel.subagent_tool(sid, name@, brief(output@, 60));
                PanelV {
                    subs: p.subs.noted(
                        sid,
                        EntryV::ToolResult { name: name@, output: output@ },
                    ),
                    ..p
                }
            },
            LogEvent::ContentDelta(text) => PanelV {
                subs: self.panel.subs.said(sid, text@),
                ..self.panel
            },
            LogEvent::Error(msg) => self.panel.subagent_tool(sid, "error"@, msg@),
            _ => self.panel,
        }
    }

    /// The panel after something that the model said, or a tool that started or
    /// returned.
    #[verifier::opaque]
    pub open spec fn stream_panel(self, e: LogEvent, now: u64) -> PanelV {
        let p = self.panel;
        match e {
            LogEvent::ContentDelta(t) => p.content_arrived(t@, now),
            LogEvent::ReasoningDelta(t) => p.reasoning_arrived(t@, now),
            LogEvent::ToolResult { name, output } => if name@ == "task"@ {
                p
            } else if is_wake_receipt(name@, output@) {
                p.silent_result(now)
            } else {
                p.tool_result(name@, output@, now)
            },
            LogEvent::ToolStarted { name, summary } => if name@ == "task"@ {
                p
            } else {
                p.tool_started(summary@, now)
            },
            _ => p,
        }
    }

    /// The panel after a bit of a tool call.
    #[verifier::opaque]
    pub open spec fn call_panel(self, e: LogEvent, now: u64) -> PanelV {
        let p = self.panel;
        match e {
            LogEvent::ToolCallPending { index, name } => p.call_pending(
                index as int,
                name@,
                now,
            ),
            LogEvent::ToolCallProgress { index, bytes } => p.call_progress(index as int, bytes),
            LogEvent::ToolCallPreview { index, preview } => p.call_preview(
                index as int,
                preview@,
            ),
            _ => p,
        }
    }

    /// The panel after a tool was allowed or denied.
    #[verifier::opaque]
    pub open spec fn permit_panel(self, e: LogEvent) -> PanelV {
        let p = self.panel;
        match e {
            LogEvent::ToolAutoApproved { name, summary } => if is_wake_tool(name@) {
                p
            } else {
                p.tool_approved(name@ + ": "@ + summary@)
            },
            LogEvent::ToolDenied { name } => p.tool_refused(EntryV::ToolDenied(name@)),
            LogEvent::ToolAutoDenied { name, summary } => p.tool_refused(
                EntryV::ToolAutoDenied { name: name@, summary: summary@ },
            ),
            LogEvent::TurnAborted { name } => p.with_entry(
                EntryV::Error("Turn aborted: "@ + name@ + " not permitted"@),
            ),
            _ => p,
        }
    }

    /// The panel after a turn ended or failed.
    #[verifier::opaque]
    pub open spec fn turn_panel(self, e: LogEvent, now: u64) -> PanelV {
        let p = self.panel;
        match e {
            LogEvent::TurnComplete => p.turn_finished(),
            LogEvent::TurnCancelled => p.turn_cancelled(),
            LogEvent::SteerInjected { texts: t } => p.promoted(texts(t@)),
            LogEvent::Retrying { attempt, maxAttempts } => p.retrying(attempt, maxAttempts, now),
            LogEvent::Error(msg) => {
                let q = p.with_entry(EntryV::Error(msg@)).turn_finished();
                PanelV { compose: ComposeV { errorHint: true, ..q.compose }, ..q }
            },
            _ => p,
        }
    }

    /// The panel after a subagent did something.
    #[verifier::opaque]
    pub open spec fn subagent_panel(self, e: LogEvent, now: u64) -> PanelV {
        let p = self.panel;
        match e {
            LogEvent::SubagentStarted { sessionId, agentType, prompt } => p.subagent_started(
                sessionId@,
                agentType@,
                prompt@,
                now,
            ),
            LogEvent::SubagentEvent { sessionId, event } => self.subagent_news(
                sessionId@,
                *event,
            ),
            LogEvent::SubagentComplete { sessionId, turns, content, .. } => p.subagent_done(
                sessionId@,
                turns,
                content@,
            ),
            _ => p,
        }
    }

    /// The panel after a wake source did something.
    #[verifier::opaque]
    pub open spec fn wake_panel(self, e: LogEvent, now: u64) -> PanelV {
        let p = self.panel;
        match e {
            LogEvent::WakeBatchInjected { summary, .. } => p.wake_fired(summary@).wake_turn(
                summary@,
                now,
            ),
            LogEvent::WakeRegistered { id, kind, summary, prompt, nextFireAt, .. } =>
                p.wake_registered(id, kind, summary@, opt_text(prompt), nextFireAt, now),
            LogEvent::WakeDisarmed { id } => p.wake_disarmed(id, now),
            _ => p,
        }
    }

    /// The deck after an event. `images` are the images that come back from a
    /// rewound turn.
    #[verifier::opaque]
    pub open spec fn after(self, e: LogEvent, images: Seq<Attachment>, now: u64) -> DeckV {
        let b = self.background;
        match e {
            LogEvent::ContentDelta(_) => self.with_panel(self.stream_panel(e, now)),
            LogEvent::ReasoningDelta(_) => self.with_panel(self.stream_panel(e, now)),
            LogEvent::ToolResult { .. } => self.with_panel(self.stream_panel(e, now)),
            LogEvent::ToolStarted { .. } => self.with_panel(self.stream_panel(e, now)),
            LogEvent::ToolCallPending { .. } => self.with_panel(self.call_panel(e, now)),
            LogEvent::ToolCallProgress { .. } => self.with_panel(self.call_panel(e, now)),
            LogEvent::ToolCallPreview { .. } => self.with_panel(self.call_panel(e, now)),
            LogEvent::ToolAutoApproved { .. } => self.with_panel(self.permit_panel(e)),
            LogEvent::ToolDenied { .. } => self.with_panel(self.permit_panel(e)),
            LogEvent::ToolAutoDenied { .. } => self.with_panel(self.permit_panel(e)),
            LogEvent::TurnAborted { .. } => self.with_panel(self.permit_panel(e)),
            LogEvent::TurnComplete => DeckV {
                panel: self.turn_panel(e, now),
                title: TitleV {
                    unseenWork: self.title.unseenWork || !self.title.windowFocused,
                    ..self.title
                },
                ..self
            },
            LogEvent::TurnCancelled => self.with_panel(self.turn_panel(e, now)),
            LogEvent::SteerInjected { .. } => self.with_panel(self.turn_panel(e, now)),
            LogEvent::Retrying { .. } => self.with_panel(self.turn_panel(e, now)),
            LogEvent::Error(_) => self.with_panel(self.turn_panel(e, now)),
            LogEvent::CompactionComplete { stage, markerBlock, .. } => match markerBlock {
                Some(k) => self.with_panel(
                    PanelV {
                        entries: with_marker(self.panel.entries, stage@, k as int),
                        ..self.panel
                    },
                ),
                None => self,
            },
            LogEvent::SubagentStarted { .. } => self.with_panel(self.subagent_panel(e, now)),
            LogEvent::SubagentEvent { .. } => self.with_panel(self.subagent_panel(e, now)),
            LogEvent::SubagentComplete { .. } => self.with_panel(self.subagent_panel(e, now)),
            LogEvent::WakeBatchInjected { .. } => self.with_panel(self.wake_panel(e, now)),
            LogEvent::TopicChanged { label } => DeckV {
                title: TitleV { topic: Some(label@), ..self.title },
                ..self
            },
            LogEvent::TokenUpdate { contextTokens, sessionCost, cacheReadTokens } => DeckV {
                usage: UsageV {
                    tokens: contextTokens,
                    cost: sessionCost@,
                    cacheHitAt: if cacheReadTokens > 0 {
                        Some(now)
                    } else {
                        self.usage.cacheHitAt
                    },
                },
                ..self
            },
            LogEvent::Cleared => DeckV {
                title: TitleV { topic: None, ..self.title },
                ..self.emptied(now)
            },
            LogEvent::Rewound { .. } => {
                let p = self.panel.cleared(now);
                DeckV {
                    panel: PanelV {
                        compose: ComposeV { attachments: images, ..p.compose },
                        ..p
                    },
                    forks: None,
                    usage: UsageV { tokens: 0, ..self.usage },
                    rewind: RewindV { message: None, attachments: None },
                    open: Overlays { rewind: false, ..self.open },
                    ..self
                }
            },
            LogEvent::SessionRestored { turns, children, markers } => {
                let d = self.emptied(now);
                DeckV {
                    panel: PanelV {
                        entries: marked(
                            replayed(d.panel.entries, turns@, children@).entries,
                            markers@,
                        ),
                        ..d.panel
                    },
                    ..d
                }
            },
            LogEvent::JobSpawned { .. } => self.counting(
                BackgroundV { running: b.running + 1, ..b },
            ),
            LogEvent::JobOutput { id, .. } => if self.inspects(id) {
                DeckV {
                    inspector: if self.inspector.inFlight {
                        Inspector { dirty: true, ..self.inspector }
                    } else {
                        Inspector { inFlight: true, ..self.inspector }
                    },
                    ..self
                }
            } else {
                self
            },
            LogEvent::JobComplete { id, .. } => self.task_ended(id),
            LogEvent::JobStopped { id, .. } => self.task_ended(id),
            LogEvent::MonitorRegistered { .. } => self.counting(
                BackgroundV { monitors: b.monitors + 1, ..b },
            ),
            LogEvent::MonitorAutoStopped { .. } => self.monitor_gone(),
            LogEvent::MonitorStopped { .. } => self.monitor_gone(),
            LogEvent::WakeRegistered { .. } => self.with_panel(self.wake_panel(e, now)).counting(
                BackgroundV { wakes: b.wakes + 1, ..b },
            ),
            LogEvent::WakeDisarmed { .. } => self.with_panel(self.wake_panel(e, now)).counting(
                BackgroundV { wakes: minus(b.wakes, 1), ..b },
            ),
            _ => self,
        }
    }

    /// What an event brings about outside the deck.
    #[verifier::opaque]
    pub open spec fn outside(self, e: LogEvent) -> Seq<EffectV> {
        match e {
            LogEvent::TurnComplete => if self.title.windowFocused {
                Seq::empty()
            } else {
                seq![EffectV::Title(self.title.text(TITLE_UNSEEN_GLYPH@))]
            },
            LogEvent::TopicChanged { label } => {
                let t = TitleV { topic: Some(label@), ..self.title };
                seq![EffectV::Title(t.text(t.topic_glyph(self.panel.turnActive)))]
            },
            LogEvent::LspHint { serverId, installHint } => self.log(
                LogLevel::Warning,
                "lsp"@,
                serverId@ + " not found"@,
                Some("install hint: "@ + installHint@),
                true,
            ),
            LogEvent::Retrying { attempt, maxAttempts } => self.log(
                LogLevel::Warning,
                "api"@,
                "retrying request ("@ + dec(attempt as nat) + "/"@ + dec(maxAttempts as nat)
                    + ")"@,
                None,
                true,
            ),
            LogEvent::Error(msg) => self.log(
                LogLevel::Error,
                "agent"@,
                "turn error"@,
                Some(msg@),
                true,
            ),
            LogEvent::BudgetWarning { sessionCost, limit } => self.log(
                LogLevel::Warning,
                "cost"@,
                "session cost limit exceeded"@,
                Some(sessionCost@ + " spent, "@ + limit@ + " limit"@),
                true,
            ),
            LogEvent::CompactionStarted { stage } => self.log(
                LogLevel::Info,
                "context"@,
                "compaction started: "@ + stage@,
                None,
                false,
            ),
            LogEvent::CompactionComplete { stage, reduction, .. } => self.log(
                LogLevel::Success,
                "context"@,
                "compaction complete: "@ + stage@,
                Some("reduction: "@ + reduction@),
                false,
            ),
            LogEvent::Cleared => self.log(
                LogLevel::Info,
                "session"@,
                "session cleared"@,
                None,
                true,
            ) + self.refresh() + seq![
                EffectV::Title(title_text(TITLE_IDLE_GLYPH@, None)),
            ],
            LogEvent::Rewound { targetTurnId } => self.log(
                LogLevel::Info,
                "session"@,
                "conversation rewound"@,
                Some("target turn: "@ + targetTurnId@),
                true,
            ) + (match self.rewind.message {
                Some(m) => seq![EffectV::SetInput(m)],
                None => Seq::empty(),
            }),
            LogEvent::SessionRestored { turns, markers, .. } => self.log(
                LogLevel::Info,
                "session"@,
                "session restored"@,
                Some(
                    dec(turns@.len()) + " turns, "@ + dec(markers@.len()) + " markers"@,
                ),
                true,
            ) + self.refresh(),
            LogEvent::SubagentStarted { sessionId, agentType, prompt } => self.log(
                LogLevel::Info,
                "subagent"@,
                agentType@ + " started"@,
                Some(sessionId@ + ": "@ + prompt@),
                false,
            ),
            LogEvent::SubagentShellOutput { sessionId, data } => self.log(
                LogLevel::Debug,
                "subagent"@,
                sessionId@ + " shell output"@,
                Some(dec(data@.len()) + " bytes"@),
                false,
            ) + seq![EffectV::FeedShell { sessionId: sessionId@, data: data@ }],
            LogEvent::SubagentComplete { sessionId, agentType, turns, .. } => self.log(
                LogLevel::Success,
                "subagent"@,
                agentType@ + " completed"@,
                Some(sessionId@ + ": "@ + dec(turns as nat) + " turns"@),
                false,
            ),
            LogEvent::ScratchpadRecovered { matchedTag, snippet, recoveredChars } => self.log(
                LogLevel::Warning,
                "parser"@,
                "scratchpad close recovered"@,
                Some(
                    "`"@ + matchedTag@ + "`, "@ + dec(recoveredChars as nat) + " chars: \""@
                        + snippet@ + "\""@,
                ),
                true,
            ),
            LogEvent::JobSpawned { id, command } => self.log(
                LogLevel::Info,
                "task"@,
                "task #"@ + dec(id as nat) + " spawned"@,
                Some(command@),
                true,
            ) + self.refresh(),
            LogEvent::JobOutput { id, line } => self.log(
                LogLevel::Debug,
                "task"@,
                "task #"@ + dec(id as nat) + " output"@,
                Some(line@),
                false,
            ) + (if self.inspects(id) && !self.inspector.inFlight {
                seq![EffectV::FetchOutput { id, sinceLine: (self.inspected()->0).1 }]
            } else {
                Seq::empty()
            }),
            LogEvent::JobComplete { id, exitCode } => self.log(
                LogLevel::Success,
                "task"@,
                "task #"@ + dec(id as nat) + " completed"@,
                Some(
                    match exitCode {
                        Some(c) => "exit "@ + dec_int(c as int),
                        None => "\u{2014}"@,
                    },
                ),
                true,
            ) + self.refresh(),
            LogEvent::JobStopped { id, reason } => self.log(
                LogLevel::Warning,
                "task"@,
                "task #"@ + dec(id as nat) + " stopped"@,
                Some(reason@),
                true,
            ) + self.refresh(),
            LogEvent::MonitorRegistered { id, description, filter } => self.log(
                LogLevel::Info,
                "monitor"@,
                "monitor #"@ + dec(id as nat) + " registered"@,
                Some(description@ + " \u{00B7} /"@ + filter@ + "/"@),
                true,
            ) + self.refresh(),
            LogEvent::MonitorEvent { id, line, eventCount } => self.log(
                LogLevel::Debug,
                "monitor"@,
                "monitor #"@ + dec(id as nat) + " matched ("@ + dec(eventCount as nat) + ")"@,
                Some(line@),
                false,
            ),
            LogEvent::MonitorAutoStopped { id, reason } => self.log(
                LogLevel::Warning,
                "monitor"@,
                "monitor #"@ + dec(id as nat) + " auto-stopped"@,
                Some(reason@),
                true,
            ) + self.refresh(),
            LogEvent::MonitorStopped { id } => self.log(
                LogLevel::Info,
                "monitor"@,
                "monitor #"@ + dec(id as nat) + " stopped"@,
                None,
                true,
            ) + self.refresh(),
            LogEvent::TerminalSpawned { name, spawnedBy } => self.log(
                LogLevel::Info,
                "terminal"@,
                "terminal '"@ + name@ + "' spawned"@,
                Some(
                    "spawned by "@ + (match spawnedBy {
                        SpawnedBy::User => "user"@,
                        SpawnedBy::Agent => "agent"@,
                    }),
                ),
                true,
            ),
            LogEvent::TerminalClosed { name } => self.log(
                LogLevel::Info,
                "terminal"@,
                "terminal '"@ + name@ + "' closed"@,
                None,
                false,
            ) + seq![EffectV::RemoveTerminal(name@)],
            LogEvent::TerminalActiveForAgent { name } => self.log(
                LogLevel::Info,
                "terminal"@,
                "agent target terminal changed"@,
                Some(name@),
                true,
            ),
            LogEvent::TerminalRenamed { from, to } => self.log(
                LogLevel::Info,
                "terminal"@,
                "terminal renamed"@,
                Some(from@ + " -> "@ + to@),
                true,
            ),
            LogEvent::WakeBatchInjected { count, summary } => self.log(
                LogLevel::Info,
                "wake"@,
                if count > 1 {
                    dec(count as nat) + " wakes"@
                } else {
                    "wake injected"@
                },
                Some(summary@),
                true,
            ),
            LogEvent::AutoBgWarning { command, elapsedSecs, userTriggered } => self.log(
                LogLevel::Warning,
                "shell"@,
                if userTriggered {
                    "shell moved to background (Ctrl+B)"@
                } else {
                    "shell moved to background ("@ + dec(elapsedSecs as nat) + "s elapsed)"@
                },
                Some(brief(command@, 80)),
                true,
            ),
            LogEvent::WakeRegistered { id, kindName, summary, .. } => self.log(
                LogLevel::Debug,
                "wake"@,
                "wake #"@ + dec(id as nat) + " registered"@,
                Some(kindName@ + " \u{00B7} "@ + summary@),
                false,
            ) + self.refresh(),
            LogEvent::WakeDisarmed { id } => self.log(
                LogLevel::Debug,
                "wake"@,
                "wake #"@ + dec(id as nat) + " disarmed"@,
                None,
                false,
            ) + self.refresh(),
            _ => Seq::empty(),
        }
    }
}

/// The deck and what is to be done outside it.
pub ghost struct Step {
    pub deck: DeckV,
    pub out: Seq<EffectV>,
}

impl DeckV {
    /// What an event makes of the deck, where `out` is to be done already.
    pub open spec fn step(
        self,
        e: LogEvent,
        images: Seq<Attachment>,
        now: u64,
        out: Seq<EffectV>,
    ) -> Step {
        Step { deck: self.after(e, images, now), out: out + self.outside(e) }
    }
}

/// The entries with markers placed, one after the other.
pub open spec fn marked(e: Seq<EntryV>, m: Seq<(String, usize)>) -> Seq<EntryV>
    decreases m.len(),
{
    if m.len() == 0 {
        e
    } else {
        with_marker(marked(e, m.drop_last()), m.last().0@, m.last().1 as int)
    }
}

} // verus!
