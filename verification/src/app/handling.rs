//! Handling the events of the session.

use vstd::prelude::*;
use vstd::string::*;
use crate::agent_panel::labels::isWakeToolName;
use crate::agent_panel::state::{ComposeV, PanelV};
use crate::app::deck::{
    Deck, DeckV, Step, StoredAttachment, all_restored, decodeBase64, idle_background, marked,
    restored, restoredImage,
};
use crate::app::effect::{Effect, EffectV, LogLevel, addEffect, effects, pushOperationalLog};
use crate::app::event::{LogEvent, SpawnedBy};
use crate::app::laws::law_events_keep_the_popup_on_a_running_subagent;
use crate::app::replay::{ChildSession, replayTranscript, replayed};
use crate::app::title::{TITLE_IDLE_GLYPH, TITLE_UNSEEN_GLYPH, titleText, title_text};
use crate::jobs_panel::JobId;
use crate::text::{
    briefly, cat2, cat3, cat4, cat5, decimal, decimalInt, opt_text, strEq,
};
use crate::transcript::Turn;

verus! {

/// Whether there is room to count what the event adds.
pub open spec fn countable(d: DeckV, e: LogEvent) -> bool {
    match e {
        LogEvent::ToolCallPending { index, .. } => index < usize::MAX,
        LogEvent::JobSpawned { .. } => d.background.running < usize::MAX,
        LogEvent::MonitorRegistered { .. } => d.background.monitors < usize::MAX,
        LogEvent::WakeRegistered { .. } => d.background.wakes < usize::MAX,
        _ => true,
    }
}

/// Sequences of effects behind one another may be put together in any order.
proof fn lemma_together(a: Seq<EffectV>, b: Seq<EffectV>, c: Seq<EffectV>)
    ensures
        a + b + c == a + (b + c),
        a + Seq::<EffectV>::empty() == a,
{
    assert(a + b + c =~= a + (b + c));
    assert(a + Seq::<EffectV>::empty() =~= a);
}

impl Deck {
    fn log(
        &self,
        out: &mut Vec<Effect>,
        level: LogLevel,
        source: &str,
        title: String,
        detail: Option<String>,
        toast: bool,
    )
        ensures
            effects(final(out)@) == effects(old(out)@) + self@.log(
                level,
                source@,
                title@,
                opt_text(detail),
                toast,
            ),
    {
        pushOperationalLog(out, self.open.log, level, source, title, detail, toast);
    }

    /// Asks for what shows the panel of tasks anew, where it is open.
    pub fn refreshTasksPanel(&self, out: &mut Vec<Effect>)
        ensures
            effects(final(out)@) == effects(old(out)@) + self@.refresh(),
    {
        match &self.tasks {
            Some(p) => {
                addEffect(out, Effect::ListJobs);
                addEffect(out, Effect::ListWakes);
                match p.inspectorTaskId() {
                    Some(id) => {
                        addEffect(
                            out,
                            Effect::FetchOutput { id, sinceLine: p.inspectorSinceLine() },
                        );
                    },
                    None => {},
                }
            },
            None => {},
        }
        proof {
            assert(effects(out@) =~= effects(old(out)@) + self@.refresh());
        }
    }

    /// Writes a record to the log and asks for what shows the panel of tasks anew.
    fn logAndRefresh(
        &self,
        out: &mut Vec<Effect>,
        level: LogLevel,
        source: &str,
        title: String,
        detail: Option<String>,
        toast: bool,
    )
        ensures
            effects(final(out)@) == effects(old(out)@) + (self@.log(
                level,
                source@,
                title@,
                opt_text(detail),
                toast,
            ) + self@.refresh()),
    {
        self.log(out, level, source, title, detail, toast);
        self.refreshTasksPanel(out);
        proof {
            lemma_together(
                effects(old(out)@),
                self@.log(level, source@, title@, opt_text(detail), toast),
                self@.refresh(),
            );
        }
    }

    /// Writes a record to the log, and then does `e`.
    fn logAndDo(
        &self,
        out: &mut Vec<Effect>,
        level: LogLevel,
        source: &str,
        title: String,
        detail: Option<String>,
        toast: bool,
        e: Effect,
    )
        ensures
            effects(final(out)@) == effects(old(out)@) + (self@.log(
                level,
                source@,
                title@,
                opt_text(detail),
                toast,
            ) + seq![e@]),
    {
        self.log(out, level, source, title, detail, toast);
        addEffect(out, e);
        proof {
            let l = self@.log(level, source@, title@, opt_text(detail), toast);
            assert(effects(out@) =~= effects(old(out)@) + (l + seq![e@]));
        }
    }

    /// Something of a subagent happened.
    fn subagentEvent(&mut self, sessionId: &str, e: &LogEvent)
        ensures
            final(self)@ == old(self)@.with_panel(old(self)@.subagent_news(sessionId@, *e)),
    {
        match e {
            LogEvent::ToolAutoApproved { name, summary } => {
                self.panel.subagentToolLine(sessionId, name.as_str(), summary.as_str());
            },
            LogEvent::ToolStarted { name, summary } => {
                self.panel.subagentToolLine(sessionId, name.as_str(), summary.as_str());
            },
            LogEvent::ToolResult { name, output } => {
                let short = briefly(output.as_str(), 60);
                self.panel.subagentToolLine(sessionId, name.as_str(), short.as_str());
                self.panel.subagentToolResult(sessionId, name.as_str(), output.as_str());
            },
            LogEvent::ContentDelta(text) => {
                self.panel.subagentContent(sessionId, text.as_str());
            },
            LogEvent::Error(msg) => {
                self.panel.subagentToolLine(sessionId, "error", msg.as_str());
            },
            _ => {},
        }
    }

    /// Another session is shown.
    fn empty(&mut self, now: u64)
        ensures
            final(self)@ == old(self)@.emptied(now),
    {
        self.panel.clearDisplay(now);
        self.usage.tokens = 0;
        self.background.running = 0;
        self.background.monitors = 0;
        self.background.wakes = 0;
        self.background.unread.clear();
        proof {
            assert(self@.background =~= idle_background());
        }
    }

    fn taskEnded(&mut self, id: JobId)
        ensures
            final(self)@ == old(self)@.task_ended(id),
    {
        broadcast use vstd::std_specs::hash::group_hash_axioms;

        self.background.running = self.background.running.saturating_sub(1);
        if self.tasks.is_none() {
            self.background.unread.insert(id);
        }
    }

    fn monitorGone(&mut self)
        ensures
            final(self)@ == old(self)@.monitor_gone(),
    {
        self.background.monitors = self.background.monitors.saturating_sub(1);
    }

    /// There is output of a task: asks for it where the task is inspected, with one
    /// request on its way at most.
    fn jobOutput(&mut self, out: &mut Vec<Effect>, id: JobId, line: String)
        ensures
            ({
                let e = LogEvent::JobOutput { id, line };
                &&& final(self)@ == old(self)@.after(e, Seq::empty(), 0)
                &&& effects(final(out)@) == effects(old(out)@) + old(self)@.outside(e)
            }),
    {
        proof {
            reveal(DeckV::after);
            reveal(DeckV::outside);
        }
        let mut since: Option<u64> = None;
        let mut on = false;
        match &self.tasks {
            Some(p) => match p.inspectorTaskId() {
                Some(t) => {
                    on = t == id;
                    since = p.inspectorSinceLine();
                },
                None => {},
            },
            None => {},
        }
        let title = cat3("task #", decimal(id).as_str(), " output");
        if on && !self.inspector.inFlight {
            self.inspector.inFlight = true;
            self.logAndDo(
                out,
                LogLevel::Debug,
                "task",
                title,
                Some(line),
                false,
                Effect::FetchOutput { id, sinceLine: since },
            );
        } else {
            if on {
                self.inspector.dirty = true;
            }
            self.log(out, LogLevel::Debug, "task", title, Some(line), false);
            proof {
                let l = self@.log(LogLevel::Debug, "task"@, title@, Some(line@), false);
                lemma_together(l, Seq::empty(), Seq::empty());
            }
        }
    }

    /// Puts the images of a rewound turn back.
    fn restoreImages(&mut self, stored: Vec<StoredAttachment>)
        requires
            old(self)@.panel.compose.attachments.len() == 0,
        ensures
            all_restored(final(self)@.panel.compose.attachments, Some(stored@)),
            final(self)@ == old(self)@.with_panel(
                PanelV {
                    compose: ComposeV {
                        attachments: final(self)@.panel.compose.attachments,
                        ..old(self)@.panel.compose
                    },
                    ..old(self)@.panel
                },
            ),
    {
        let mut i: usize = 0;
        while i < stored.len()
            invariant
                i <= stored@.len(),
                self@.panel.compose.attachments.len() == i,
                forall|k: int|
                    0 <= k < i ==> #[trigger] restored(
                        self@.panel.compose.attachments[k],
                        stored@[k],
                    ),
                self@ == old(self)@.with_panel(
                    PanelV {
                        compose: ComposeV {
                            attachments: self@.panel.compose.attachments,
                            ..old(self)@.panel.compose
                        },
                        ..old(self)@.panel
                    },
                ),
            decreases stored@.len() - i,
        {
            let ghost before = self@.panel.compose.attachments;
            let decoded = decodeBase64(stored[i].data.as_str());
            let att = restoredImage(&stored[i].mimeType, decoded);
            proof {
                assert(restored(att, stored@[i as int]));
            }
            self.panel.addAttachment(att);
            proof {
                assert forall|k: int| 0 <= k < i + 1 implies #[trigger] restored(
                    self@.panel.compose.attachments[k],
                    stored@[k],
                ) by {
                    if k < i {
                        assert(restored(before[k], stored@[k]));
                    }
                }
            }
            i = i + 1;
        }
    }

    /// The conversation was rewound.
    fn rewound(&mut self, out: &mut Vec<Effect>, targetTurnId: String, now: u64)
        ensures
            ({
                let e = LogEvent::Rewound { targetTurnId };
                let images = final(self)@.panel.compose.attachments;
                &&& final(self)@ == old(self)@.after(e, images, now)
                &&& all_restored(images, old(self)@.rewind.attachments)
                &&& effects(final(out)@) == effects(old(out)@) + old(self)@.outside(e)
            }),
    {
        proof {
            reveal(DeckV::after);
            reveal(DeckV::outside);
        }
        self.log(
            out,
            LogLevel::Info,
            "session",
            String::from_str("conversation rewound"),
            Some(cat2("target turn: ", targetTurnId.as_str())),
            true,
        );
        self.open.rewind = false;
        self.forks = None;
        self.panel.clearDisplay(now);
        self.usage.tokens = 0;
        let message = self.rewind.message.take();
        match message {
            Some(m) => {
                addEffect(out, Effect::SetInput(m));
            },
            None => {},
        }
        let stored = self.rewind.attachments.take();
        match stored {
            Some(s) => {
                self.restoreImages(s);
            },
            None => {},
        }
        proof {
            let e = LogEvent::Rewound { targetTurnId };
            assert(effects(out@) =~= effects(old(out)@) + old(self)@.outside(e));
        }
    }

    /// A session was resumed: shows its conversation.
    fn restore(
        &mut self,
        turns: Vec<Turn>,
        children: Vec<ChildSession>,
        markers: Vec<(String, usize)>,
        now: u64,
    )
        ensures
            final(self)@ == ({
                let d = old(self)@.emptied(now);
                d.with_panel(
                    PanelV {
                        entries: marked(
                            replayed(d.panel.entries, turns@, children@).entries,
                            markers@,
                        ),
                        ..d.panel
                    },
                )
            }),
    {
        self.empty(now);
        replayTranscript(&mut self.panel, &turns, &children);
        let ghost d = old(self)@.emptied(now);
        let ghost e = replayed(d.panel.entries, turns@, children@).entries;
        let mut i: usize = 0;
        proof {
            assert(markers@.take(0) =~= Seq::<(String, usize)>::empty());
        }
        while i < markers.len()
            invariant
                i <= markers@.len(),
                self@ == d.with_panel(
                    PanelV { entries: marked(e, markers@.take(i as int)), ..d.panel },
                ),
            decreases markers@.len() - i,
        {
            proof {
                assert(markers@.take(i + 1).drop_last() =~= markers@.take(i as int));
                assert(markers@.take(i + 1).last() == markers@[i as int]);
            }
            self.panel.pushCompactionMarker(markers[i].0.as_str(), markers[i].1);
            i = i + 1;
        }
        proof {
            assert(markers@.take(markers@.len() as int) =~= markers@);
        }
    }

    /// Handles what the model says.
    #[verifier::rlimit(40)]
    #[verifier::spinoff_prover]
    fn streamEvent(&mut self, e: LogEvent, now: u64, out: &mut Vec<Effect>)
        requires
            old(self)@.panel.subs.wf(),
            countable(old(self)@, e),
            e is ContentDelta || e is ReasoningDelta,
        ensures
            (Step { deck: final(self)@, out: effects(final(out)@) }) == old(self)@.step(
                e,
                final(self)@.panel.compose.attachments,
                now,
                effects(old(out)@),
            ),
            e is Rewound ==> all_restored(
                final(self)@.panel.compose.attachments,
                old(self)@.rewind.attachments,
            ),
    {
        proof {
            reveal(DeckV::stream_panel);
            reveal(DeckV::after);
            reveal(DeckV::outside);
            lemma_together(effects(out@), Seq::empty(), Seq::empty());
        }
        match e {
            LogEvent::ContentDelta(text) => {
                self.panel.appendContent(text.as_str(), now);
            },
            LogEvent::ReasoningDelta(text) => {
                self.panel.appendReasoning(text.as_str(), now);
            },
            _ => {},
        }
    }

    /// Handles tools that start and return.
    #[verifier::rlimit(40)]
    #[verifier::spinoff_prover]
    fn resultEvent(&mut self, e: LogEvent, now: u64, out: &mut Vec<Effect>)
        requires
            old(self)@.panel.subs.wf(),
            countable(old(self)@, e),
            e is ToolResult || e is ToolStarted,
        ensures
            (Step { deck: final(self)@, out: effects(final(out)@) }) == old(self)@.step(
                e,
                final(self)@.panel.compose.attachments,
                now,
                effects(old(out)@),
            ),
            e is Rewound ==> all_restored(
                final(self)@.panel.compose.attachments,
                old(self)@.rewind.attachments,
            ),
    {
        proof {
            reveal(DeckV::stream_panel);
            reveal(DeckV::after);
            reveal(DeckV::outside);
            lemma_together(effects(out@), Seq::empty(), Seq::empty());
        }
        match e {
            LogEvent::ToolResult { name, output } => {
                // The result of a task is shown by its block.
                if !strEq(name.as_str(), "task") && !self.panel.finishWakeToolResult(
                    name.as_str(),
                    output.as_str(),
                    now,
                ) {
                    self.panel.pushToolResult(name.as_str(), output.as_str(), now);
                }
            },
            LogEvent::ToolStarted { name, summary } => {
                if !strEq(name.as_str(), "task") {
                    self.panel.toolStarted(name.as_str(), summary.as_str(), now);
                }
            },
            _ => {},
        }
    }

    /// Handles calls that arrive bit by bit.
    #[verifier::rlimit(40)]
    #[verifier::spinoff_prover]
    fn callEvent(&mut self, e: LogEvent, now: u64, out: &mut Vec<Effect>)
        requires
            old(self)@.panel.subs.wf(),
            countable(old(self)@, e),
            e is ToolCallPending || e is ToolCallProgress || e is ToolCallPreview,
        ensures
            (Step { deck: final(self)@, out: effects(final(out)@) }) == old(self)@.step(
                e,
                final(self)@.panel.compose.attachments,
                now,
                effects(old(out)@),
            ),
            e is Rewound ==> all_restored(
                final(self)@.panel.compose.attachments,
                old(self)@.rewind.attachments,
            ),
    {
        proof {
            reveal(DeckV::call_panel);
            reveal(DeckV::after);
            reveal(DeckV::outside);
            lemma_together(effects(out@), Seq::empty(), Seq::empty());
        }
        match e {
            LogEvent::ToolCallPending { index, name } => {
                self.panel.toolCallPending(index, name.as_str(), now);
            },
            LogEvent::ToolCallProgress { index, bytes } => {
                self.panel.toolCallProgress(index, bytes);
            },
            LogEvent::ToolCallPreview { index, preview } => {
                self.panel.toolCallPreview(index, preview.as_str());
            },
            _ => {},
        }
    }

    /// Handles tools that were allowed or denied.
    #[verifier::rlimit(40)]
    #[verifier::spinoff_prover]
    fn permitEvent(&mut self, e: LogEvent, now: u64, out: &mut Vec<Effect>)
        requires
            old(self)@.panel.subs.wf(),
            countable(old(self)@, e),
            e is ToolAutoApproved || e is ToolDenied || e is ToolAutoDenied || e is TurnAborted,
        ensures
            (Step { deck: final(self)@, out: effects(final(out)@) }) == old(self)@.step(
                e,
                final(self)@.panel.compose.attachments,
                now,
                effects(old(out)@),
            ),
            e is Rewound ==> all_restored(
                final(self)@.panel.compose.attachments,
                old(self)@.rewind.attachments,
            ),
    {
        proof {
            reveal(DeckV::permit_panel);
            reveal(DeckV::after);
            reveal(DeckV::outside);
            lemma_together(effects(out@), Seq::empty(), Seq::empty());
        }
        match e {
            LogEvent::ToolAutoApproved { name, summary } => {
                if !isWakeToolName(name.as_str()) {
                    let line = cat3(name.as_str(), ": ", summary.as_str());
                    self.panel.toolApproved(line.as_str());
                }
            },
            LogEvent::ToolDenied { name } => {
                self.panel.toolDenied(name.as_str());
            },
            LogEvent::ToolAutoDenied { name, summary } => {
                self.panel.toolAutoDenied(name.as_str(), summary.as_str());
            },
            LogEvent::TurnAborted { name } => {
                let msg = cat3("Turn aborted: ", name.as_str(), " not permitted");
                self.panel.pushError(msg.as_str());
            },
            _ => {},
        }
    }

    /// Handles the end of a turn.
    #[verifier::rlimit(40)]
    #[verifier::spinoff_prover]
    fn turnEvent(&mut self, e: LogEvent, now: u64, out: &mut Vec<Effect>)
        requires
            old(self)@.panel.subs.wf(),
            countable(old(self)@, e),
            e is TurnComplete || e is TurnCancelled || e is SteerInjected,
        ensures
            (Step { deck: final(self)@, out: effects(final(out)@) }) == old(self)@.step(
                e,
                final(self)@.panel.compose.attachments,
                now,
                effects(old(out)@),
            ),
            e is Rewound ==> all_restored(
                final(self)@.panel.compose.attachments,
                old(self)@.rewind.attachments,
            ),
    {
        proof {
            reveal(DeckV::turn_panel);
            reveal(DeckV::after);
            reveal(DeckV::outside);
            lemma_together(effects(out@), Seq::empty(), Seq::empty());
        }
        match e {
            LogEvent::TurnComplete => {
                self.panel.finishTurn();
                if !self.title.windowFocused {
                    self.title.unseenWork = true;
                    addEffect(
                        out,
                        Effect::Title(titleText(TITLE_UNSEEN_GLYPH, &self.title.topic)),
                    );
                }
            },
            LogEvent::TurnCancelled => {
                self.panel.finalizeCancelled();
            },
            LogEvent::SteerInjected { texts } => {
                self.panel.promoteQueue(&texts);
            },
            _ => {},
        }
    }

    /// Handles the topic and what the session uses.
    #[verifier::rlimit(40)]
    #[verifier::spinoff_prover]
    fn usageEvent(&mut self, e: LogEvent, now: u64, out: &mut Vec<Effect>)
        requires
            old(self)@.panel.subs.wf(),
            countable(old(self)@, e),
            e is TopicChanged || e is TokenUpdate || e is LspHint || e is BudgetWarning,
        ensures
            (Step { deck: final(self)@, out: effects(final(out)@) }) == old(self)@.step(
                e,
                final(self)@.panel.compose.attachments,
                now,
                effects(old(out)@),
            ),
            e is Rewound ==> all_restored(
                final(self)@.panel.compose.attachments,
                old(self)@.rewind.attachments,
            ),
    {
        proof {
            reveal(DeckV::after);
            reveal(DeckV::outside);
            lemma_together(effects(out@), Seq::empty(), Seq::empty());
        }
        match e {
            LogEvent::TopicChanged { label } => {
                self.title.topic = Some(label);
                let active = self.panel.isActive();
                addEffect(out, Effect::Title(self.title.topicTitle(active)));
            },
            LogEvent::TokenUpdate { contextTokens, sessionCost, cacheReadTokens } => {
                self.usage.tokens = contextTokens;
                self.usage.cost = sessionCost;
                if cacheReadTokens > 0 {
                    self.usage.cacheHitAt = Some(now);
                }
            },
            LogEvent::LspHint { serverId, installHint } => {
                self.log(
                    out,
                    LogLevel::Warning,
                    "lsp",
                    cat2(serverId.as_str(), " not found"),
                    Some(cat2("install hint: ", installHint.as_str())),
                    true,
                );
            },
            LogEvent::BudgetWarning { sessionCost, limit } => {
                self.log(
                    out,
                    LogLevel::Warning,
                    "cost",
                    String::from_str("session cost limit exceeded"),
                    Some(cat4(sessionCost.as_str(), " spent, ", limit.as_str(), " limit")),
                    true,
                );
            },
            _ => {},
        }
    }

    /// Handles requests that fail.
    #[verifier::rlimit(40)]
    #[verifier::spinoff_prover]
    fn faultEvent(&mut self, e: LogEvent, now: u64, out: &mut Vec<Effect>)
        requires
            old(self)@.panel.subs.wf(),
            countable(old(self)@, e),
            e is Retrying || e is Error,
        ensures
            (Step { deck: final(self)@, out: effects(final(out)@) }) == old(self)@.step(
                e,
                final(self)@.panel.compose.attachments,
                now,
                effects(old(out)@),
            ),
            e is Rewound ==> all_restored(
                final(self)@.panel.compose.attachments,
                old(self)@.rewind.attachments,
            ),
    {
        proof {
            reveal(DeckV::turn_panel);
            reveal(DeckV::after);
            reveal(DeckV::outside);
            lemma_together(effects(out@), Seq::empty(), Seq::empty());
        }
        match e {
            LogEvent::Retrying { attempt, maxAttempts } => {
                self.panel.showRetrying(attempt, maxAttempts, now);
                let title = cat5(
                    "retrying request (",
                    decimal(attempt as u64).as_str(),
                    "/",
                    decimal(maxAttempts as u64).as_str(),
                    ")",
                );
                self.log(out, LogLevel::Warning, "api", title, None, true);
            },
            LogEvent::Error(msg) => {
                self.log(
                    out,
                    LogLevel::Error,
                    "agent",
                    String::from_str("turn error"),
                    Some(msg.clone()),
                    true,
                );
                self.panel.pushError(msg.as_str());
                self.panel.finishTurn();
                self.panel.compose.errorHint = true;
            },
            _ => {},
        }
    }

    /// Handles compaction.
    #[verifier::rlimit(40)]
    #[verifier::spinoff_prover]
    fn compactionEvent(&mut self, e: LogEvent, now: u64, out: &mut Vec<Effect>)
        requires
            old(self)@.panel.subs.wf(),
            countable(old(self)@, e),
            e is CompactionStarted || e is CompactionComplete || e is ScratchpadRecovered,
        ensures
            (Step { deck: final(self)@, out: effects(final(out)@) }) == old(self)@.step(
                e,
                final(self)@.panel.compose.attachments,
                now,
                effects(old(out)@),
            ),
            e is Rewound ==> all_restored(
                final(self)@.panel.compose.attachments,
                old(self)@.rewind.attachments,
            ),
    {
        proof {
            reveal(DeckV::after);
            reveal(DeckV::outside);
            lemma_together(effects(out@), Seq::empty(), Seq::empty());
        }
        match e {
            LogEvent::CompactionStarted { stage } => {
                self.log(
                    out,
                    LogLevel::Info,
                    "context",
                    cat2("compaction started: ", stage.as_str()),
                    None,
                    false,
                );
            },
            LogEvent::CompactionComplete { stage, reduction, markerBlock } => {
                self.log(
                    out,
                    LogLevel::Success,
                    "context",
                    cat2("compaction complete: ", stage.as_str()),
                    Some(cat2("reduction: ", reduction.as_str())),
                    false,
                );
                match markerBlock {
                    Some(k) => {
                        self.panel.pushCompactionMarker(stage.as_str(), k);
                    },
                    None => {},
                }
            },
            LogEvent::ScratchpadRecovered { matchedTag, snippet, recoveredChars } => {
                let mut detail = cat5(
                    "`",
                    matchedTag.as_str(),
                    "`, ",
                    decimal(recoveredChars as u64).as_str(),
                    " chars: \"",
                );
                detail.append(snippet.as_str());
                detail.append("\"");
                self.log(
                    out,
                    LogLevel::Warning,
                    "parser",
                    String::from_str("scratchpad close recovered"),
                    Some(detail),
                    true,
                );
            },
            _ => {},
        }
    }

    /// Handles what happens to the session.
    #[verifier::rlimit(40)]
    #[verifier::spinoff_prover]
    fn sessionEvent(&mut self, e: LogEvent, now: u64, out: &mut Vec<Effect>)
        requires
            old(self)@.panel.subs.wf(),
            countable(old(self)@, e),
            e is Cleared || e is Rewound || e is SessionRestored,
        ensures
            (Step { deck: final(self)@, out: effects(final(out)@) }) == old(self)@.step(
                e,
                final(self)@.panel.compose.attachments,
                now,
                effects(old(out)@),
            ),
            e is Rewound ==> all_restored(
                final(self)@.panel.compose.attachments,
                old(self)@.rewind.attachments,
            ),
    {
        proof {
            reveal(DeckV::after);
            reveal(DeckV::outside);
            lemma_together(effects(out@), Seq::empty(), Seq::empty());
        }
        match e {
            LogEvent::Cleared => {
                self.logAndRefresh(
                    out,
                    LogLevel::Info,
                    "session",
                    String::from_str("session cleared"),
                    None,
                    true,
                );
                self.empty(now);
                self.title.topic = None;
                let ghost mid = effects(out@);
                addEffect(out, Effect::Title(titleText(TITLE_IDLE_GLYPH, &None)));
                proof {
                    let r = seq![EffectV::Title(title_text(TITLE_IDLE_GLYPH@, None))];
                    assert(effects(out@) =~= mid + r);
                    lemma_together(
                        effects(old(out)@),
                        old(self)@.log(LogLevel::Info, "session"@, "session cleared"@, None, true)
                            + old(self)@.refresh(),
                        r,
                    );
                }
            },
            LogEvent::Rewound { targetTurnId } => {
                self.rewound(out, targetTurnId, now);
            },
            LogEvent::SessionRestored { turns, children, markers } => {
                let detail = cat4(
                    decimal(turns.len() as u64).as_str(),
                    " turns, ",
                    decimal(markers.len() as u64).as_str(),
                    " markers",
                );
                self.logAndRefresh(
                    out,
                    LogLevel::Info,
                    "session",
                    String::from_str("session restored"),
                    Some(detail),
                    true,
                );
                self.restore(turns, children, markers, now);
            },
            _ => {},
        }
    }

    /// Handles what subagents do.
    #[verifier::rlimit(40)]
    #[verifier::spinoff_prover]
    fn childEvent(&mut self, e: LogEvent, now: u64, out: &mut Vec<Effect>)
        requires
            old(self)@.panel.subs.wf(),
            countable(old(self)@, e),
            e is SubagentStarted || e is SubagentEvent || e is SubagentShellOutput || e is SubagentComplete,
        ensures
            (Step { deck: final(self)@, out: effects(final(out)@) }) == old(self)@.step(
                e,
                final(self)@.panel.compose.attachments,
                now,
                effects(old(out)@),
            ),
            e is Rewound ==> all_restored(
                final(self)@.panel.compose.attachments,
                old(self)@.rewind.attachments,
            ),
    {
        proof {
            reveal(DeckV::subagent_panel);
            reveal(DeckV::after);
            reveal(DeckV::outside);
            lemma_together(effects(out@), Seq::empty(), Seq::empty());
        }
        match e {
            LogEvent::SubagentStarted { sessionId, agentType, prompt } => {
                self.log(
                    out,
                    LogLevel::Info,
                    "subagent",
                    cat2(agentType.as_str(), " started"),
                    Some(cat3(sessionId.as_str(), ": ", prompt.as_str())),
                    false,
                );
                self.panel.subagentStarted(
                    sessionId.as_str(),
                    agentType.as_str(),
                    prompt.as_str(),
                    now,
                );
            },
            LogEvent::SubagentEvent { sessionId, event } => {
                self.subagentEvent(sessionId.as_str(), &*event);
            },
            LogEvent::SubagentShellOutput { sessionId, data } => {
                let title = cat2(sessionId.as_str(), " shell output");
                let detail = cat2(decimal(data.len() as u64).as_str(), " bytes");
                self.logAndDo(
                    out,
                    LogLevel::Debug,
                    "subagent",
                    title,
                    Some(detail),
                    false,
                    Effect::FeedShell { sessionId, data },
                );
            },
            LogEvent::SubagentComplete { sessionId, agentType, turns, content } => {
                let detail = cat4(
                    sessionId.as_str(),
                    ": ",
                    decimal(turns as u64).as_str(),
                    " turns",
                );
                self.log(
                    out,
                    LogLevel::Success,
                    "subagent",
                    cat2(agentType.as_str(), " completed"),
                    Some(detail),
                    false,
                );
                self.panel.subagentComplete(
                    sessionId.as_str(),
                    agentType.as_str(),
                    turns,
                    content.as_str(),
                );
            },
            _ => {},
        }
    }

    /// Handles what tasks do.
    #[verifier::rlimit(40)]
    #[verifier::spinoff_prover]
    fn taskEvent(&mut self, e: LogEvent, now: u64, out: &mut Vec<Effect>)
        requires
            old(self)@.panel.subs.wf(),
            countable(old(self)@, e),
            e is JobSpawned || e is JobOutput || e is JobComplete || e is JobStopped,
        ensures
            (Step { deck: final(self)@, out: effects(final(out)@) }) == old(self)@.step(
                e,
                final(self)@.panel.compose.attachments,
                now,
                effects(old(out)@),
            ),
            e is Rewound ==> all_restored(
                final(self)@.panel.compose.attachments,
                old(self)@.rewind.attachments,
            ),
    {
        proof {
            reveal(DeckV::after);
            reveal(DeckV::outside);
            lemma_together(effects(out@), Seq::empty(), Seq::empty());
        }
        match e {
            LogEvent::JobSpawned { id, command } => {
                self.background.running = self.background.running + 1;
                self.logAndRefresh(
                    out,
                    LogLevel::Info,
                    "task",
                    cat3("task #", decimal(id).as_str(), " spawned"),
                    Some(command),
                    true,
                );
            },
            LogEvent::JobOutput { id, line } => {
                self.jobOutput(out, id, line);
            },
            LogEvent::JobComplete { id, exitCode } => {
                self.taskEnded(id);
                let code = match exitCode {
                    Some(c) => cat2("exit ", decimalInt(c as i64).as_str()),
                    None => String::from_str("\u{2014}"),
                };
                self.logAndRefresh(
                    out,
                    LogLevel::Success,
                    "task",
                    cat3("task #", decimal(id).as_str(), " completed"),
                    Some(code),
                    true,
                );
            },
            LogEvent::JobStopped { id, reason } => {
                self.taskEnded(id);
                self.logAndRefresh(
                    out,
                    LogLevel::Warning,
                    "task",
                    cat3("task #", decimal(id).as_str(), " stopped"),
                    Some(reason),
                    true,
                );
            },
            _ => {},
        }
    }

    /// Handles what monitors do.
    #[verifier::rlimit(40)]
    #[verifier::spinoff_prover]
    fn monitorEvent(&mut self, e: LogEvent, now: u64, out: &mut Vec<Effect>)
        requires
            old(self)@.panel.subs.wf(),
            countable(old(self)@, e),
            e is MonitorRegistered || e is MonitorEvent || e is MonitorAutoStopped || e is MonitorStopped,
        ensures
            (Step { deck: final(self)@, out: effects(final(out)@) }) == old(self)@.step(
                e,
                final(self)@.panel.compose.attachments,
                now,
                effects(old(out)@),
            ),
            e is Rewound ==> all_restored(
                final(self)@.panel.compose.attachments,
                old(self)@.rewind.attachments,
            ),
    {
        proof {
            reveal(DeckV::after);
            reveal(DeckV::outside);
            lemma_together(effects(out@), Seq::empty(), Seq::empty());
        }
        match e {
            LogEvent::MonitorRegistered { id, description, filter } => {
                self.background.monitors = self.background.monitors + 1;
                self.logAndRefresh(
                    out,
                    LogLevel::Info,
                    "monitor",
                    cat3("monitor #", decimal(id).as_str(), " registered"),
                    Some(cat4(description.as_str(), " \u{00B7} /", filter.as_str(), "/")),
                    true,
                );
            },
            LogEvent::MonitorEvent { id, line, eventCount } => {
                let title = cat5(
                    "monitor #",
                    decimal(id).as_str(),
                    " matched (",
                    decimal(eventCount).as_str(),
                    ")",
                );
                self.log(out, LogLevel::Debug, "monitor", title, Some(line), false);
            },
            LogEvent::MonitorAutoStopped { id, reason } => {
                self.monitorGone();
                self.logAndRefresh(
                    out,
                    LogLevel::Warning,
                    "monitor",
                    cat3("monitor #", decimal(id).as_str(), " auto-stopped"),
                    Some(reason),
                    true,
                );
            },
            LogEvent::MonitorStopped { id } => {
                self.monitorGone();
                self.logAndRefresh(
                    out,
                    LogLevel::Info,
                    "monitor",
                    cat3("monitor #", decimal(id).as_str(), " stopped"),
                    None,
                    true,
                );
            },
            _ => {},
        }
    }

    /// Handles what terminals do.
    #[verifier::rlimit(40)]
    #[verifier::spinoff_prover]
    fn terminalEvent(&mut self, e: LogEvent, now: u64, out: &mut Vec<Effect>)
        requires
            old(self)@.panel.subs.wf(),
            countable(old(self)@, e),
            e is TerminalSpawned || e is TerminalClosed || e is TerminalActiveForAgent || e is TerminalRenamed,
        ensures
            (Step { deck: final(self)@, out: effects(final(out)@) }) == old(self)@.step(
                e,
                final(self)@.panel.compose.attachments,
                now,
                effects(old(out)@),
            ),
            e is Rewound ==> all_restored(
                final(self)@.panel.compose.attachments,
                old(self)@.rewind.attachments,
            ),
    {
        proof {
            reveal(DeckV::after);
            reveal(DeckV::outside);
            lemma_together(effects(out@), Seq::empty(), Seq::empty());
        }
        match e {
            LogEvent::TerminalSpawned { name, spawnedBy } => {
                let by = match spawnedBy {
                    SpawnedBy::User => "user",
                    SpawnedBy::Agent => "agent",
                };
                self.log(
                    out,
                    LogLevel::Info,
                    "terminal",
                    cat3("terminal '", name.as_str(), "' spawned"),
                    Some(cat2("spawned by ", by)),
                    true,
                );
            },
            LogEvent::TerminalClosed { name } => {
                let title = cat3("terminal '", name.as_str(), "' closed");
                self.logAndDo(
                    out,
                    LogLevel::Info,
                    "terminal",
                    title,
                    None,
                    false,
                    Effect::RemoveTerminal(name),
                );
            },
            LogEvent::TerminalActiveForAgent { name } => {
                self.log(
                    out,
                    LogLevel::Info,
                    "terminal",
                    String::from_str("agent target terminal changed"),
                    Some(name),
                    true,
                );
            },
            LogEvent::TerminalRenamed { from, to } => {
                self.log(
                    out,
                    LogLevel::Info,
                    "terminal",
                    String::from_str("terminal renamed"),
                    Some(cat3(from.as_str(), " -> ", to.as_str())),
                    true,
                );
            },
            _ => {},
        }
    }

    /// Handles what wakes do.
    #[verifier::rlimit(40)]
    #[verifier::spinoff_prover]
    fn wakeEvent(&mut self, e: LogEvent, now: u64, out: &mut Vec<Effect>)
        requires
            old(self)@.panel.subs.wf(),
            countable(old(self)@, e),
            e is WakeBatchInjected || e is WakeRegistered || e is WakeDisarmed || e is AutoBgWarning,
        ensures
            (Step { deck: final(self)@, out: effects(final(out)@) }) == old(self)@.step(
                e,
                final(self)@.panel.compose.attachments,
                now,
                effects(old(out)@),
            ),
            e is Rewound ==> all_restored(
                final(self)@.panel.compose.attachments,
                old(self)@.rewind.attachments,
            ),
    {
        proof {
            reveal(DeckV::wake_panel);
            reveal(DeckV::after);
            reveal(DeckV::outside);
            lemma_together(effects(out@), Seq::empty(), Seq::empty());
        }
        match e {
            LogEvent::WakeBatchInjected { count, summary } => {
                self.panel.wakeFiredSource(summary.as_str());
                self.panel.pushWakeTurn(summary.as_str(), now);
                let chip = if count > 1 {
                    cat2(decimal(count as u64).as_str(), " wakes")
                } else {
                    String::from_str("wake injected")
                };
                self.log(out, LogLevel::Info, "wake", chip, Some(summary), true);
            },
            LogEvent::WakeRegistered { id, kind, kindName, summary, prompt, nextFireAt } => {
                self.background.wakes = self.background.wakes + 1;
                self.panel.wakeRegistered(id, kind, summary.as_str(), prompt, nextFireAt, now);
                self.logAndRefresh(
                    out,
                    LogLevel::Debug,
                    "wake",
                    cat3("wake #", decimal(id).as_str(), " registered"),
                    Some(cat3(kindName.as_str(), " \u{00B7} ", summary.as_str())),
                    false,
                );
            },
            LogEvent::WakeDisarmed { id } => {
                self.background.wakes = self.background.wakes.saturating_sub(1);
                self.panel.wakeDisarmed(id, now);
                self.logAndRefresh(
                    out,
                    LogLevel::Debug,
                    "wake",
                    cat3("wake #", decimal(id).as_str(), " disarmed"),
                    None,
                    false,
                );
            },
            LogEvent::AutoBgWarning { command, elapsedSecs, userTriggered } => {
                let preview = briefly(command.as_str(), 80);
                let notice = if userTriggered {
                    String::from_str("shell moved to background (Ctrl+B)")
                } else {
                    cat3(
                        "shell moved to background (",
                        decimal(elapsedSecs).as_str(),
                        "s elapsed)",
                    )
                };
                self.log(out, LogLevel::Warning, "shell", notice, Some(preview), true);
            },
            _ => {},
        }
    }

    /// Handles an event of the session.
    pub fn handleEvent(&mut self, e: LogEvent, now: u64, out: &mut Vec<Effect>)
        requires
            old(self)@.panel.subs.wf(),
            countable(old(self)@, e),
        ensures
            (Step { deck: final(self)@, out: effects(final(out)@) }) == old(self)@.step(
                e,
                final(self)@.panel.compose.attachments,
                now,
                effects(old(out)@),
            ),
            e is Rewound ==> all_restored(
                final(self)@.panel.compose.attachments,
                old(self)@.rewind.attachments,
            ),
            final(self)@.panel.subs.wf(),
    {
        let ghost d = self@;
        match e {
            LogEvent::ContentDelta(_)
            | LogEvent::ReasoningDelta(_) => {
                self.streamEvent(e, now, out);
            },
            LogEvent::ToolResult { .. }
            | LogEvent::ToolStarted { .. } => {
                self.resultEvent(e, now, out);
            },
            LogEvent::ToolCallPending { .. }
            | LogEvent::ToolCallProgress { .. }
            | LogEvent::ToolCallPreview { .. } => {
                self.callEvent(e, now, out);
            },
            LogEvent::ToolAutoApproved { .. }
            | LogEvent::ToolDenied { .. }
            | LogEvent::ToolAutoDenied { .. }
            | LogEvent::TurnAborted { .. } => {
                self.permitEvent(e, now, out);
            },
            LogEvent::TurnComplete
            | LogEvent::TurnCancelled
            | LogEvent::SteerInjected { .. } => {
                self.turnEvent(e, now, out);
            },
            LogEvent::TopicChanged { .. }
            | LogEvent::TokenUpdate { .. }
            | LogEvent::LspHint { .. }
            | LogEvent::BudgetWarning { .. } => {
                self.usageEvent(e, now, out);
            },
            LogEvent::Retrying { .. }
            | LogEvent::Error(_) => {
                self.faultEvent(e, now, out);
            },
            LogEvent::CompactionStarted { .. }
            | LogEvent::CompactionComplete { .. }
            | LogEvent::ScratchpadRecovered { .. } => {
                self.compactionEvent(e, now, out);
            },
            LogEvent::Cleared
            | LogEvent::Rewound { .. }
            | LogEvent::SessionRestored { .. } => {
                self.sessionEvent(e, now, out);
            },
            LogEvent::SubagentStarted { .. }
            | LogEvent::SubagentEvent { .. }
            | LogEvent::SubagentShellOutput { .. }
            | LogEvent::SubagentComplete { .. } => {
                self.childEvent(e, now, out);
            },
            LogEvent::JobSpawned { .. }
            | LogEvent::JobOutput { .. }
            | LogEvent::JobComplete { .. }
            | LogEvent::JobStopped { .. } => {
                self.taskEvent(e, now, out);
            },
            LogEvent::MonitorRegistered { .. }
            | LogEvent::MonitorEvent { .. }
            | LogEvent::MonitorAutoStopped { .. }
            | LogEvent::MonitorStopped { .. } => {
                self.monitorEvent(e, now, out);
            },
            LogEvent::TerminalSpawned { .. }
            | LogEvent::TerminalClosed { .. }
            | LogEvent::TerminalActiveForAgent { .. }
            | LogEvent::TerminalRenamed { .. } => {
                self.terminalEvent(e, now, out);
            },
            LogEvent::WakeBatchInjected { .. }
            | LogEvent::WakeRegistered { .. }
            | LogEvent::WakeDisarmed { .. }
            | LogEvent::AutoBgWarning { .. } => {
                self.wakeEvent(e, now, out);
            },
        }
        proof {
            law_events_keep_the_popup_on_a_running_subagent(
                d,
                e,
                self@.panel.compose.attachments,
                now,
            );
        }
    }
}

} // verus!
