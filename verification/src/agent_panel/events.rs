//! What happens to the panel as a turn goes on: messages, streamed content,
//! tools, wake receipts and subagents.

use vstd::prelude::*;
use vstd::string::*;
use crate::agent_panel::blocks::{STREAMING, handed_over};
use crate::agent_panel::entry::{
    BlockV, ContextState, EntryV, PanelEntry, WakeScheduleStatus, WakeV, addEntry, entry_views,
    findSubagentBlock, findWakeSchedule, open_block, placeMarker, removeActive, wake_at,
    with_marker, without_active,
};
use crate::agent_panel::labels::{
    is_wake_tool, isScheduledWakeKind, isWakeToolName, one_line, parseWakeSourceId, snippetOneLine,
    source_id,
};
use crate::agent_panel::state::{
    AgentPanel, Attachment, CallV, CodeV, ComposeV, FULL_FADE, PanelV, PendingToolCall, PermitV,
    ShownV, StreamV, ToolsV, UserInput, atBottom,
};
use crate::agent_panel::state::Scroll;
use crate::agent_panel::subagents::{ActiveSubagent, SubagentsV};
use crate::draw::min;
use crate::jobs_panel::WakeKind;
use crate::text::{dec, decimal, has_prefix, opt_text, startsWith, strEq, texts, trim, trimmed};

verus! {

/// Takes the text out, leaving none.
fn taken(s: &mut String) -> (r: String)
    ensures
        r@ == old(s)@,
        final(s)@ == Seq::<char>::empty(),
{
    let mut t = String::new();
    core::mem::swap(&mut t, s);
    t
}

/// Whether there is any text.
fn filled(s: &String) -> (r: bool)
    ensures
        r == (s@.len() > 0),
{
    s.as_str().unicode_len() > 0
}

// ---- the conversation ----

/// A message as it is shown, with the number of its images.
pub open spec fn user_text(text: Seq<char>, images: int) -> Seq<char> {
    if images == 0 {
        text
    } else {
        text + "\n[+"@ + (if images == 1 {
            "1 image"@
        } else {
            dec(images as nat) + " images"@
        }) + " attached]"@
    }
}

/// What the notice of a wake says.
pub open spec fn wake_label(summary: Seq<char>) -> Seq<char> {
    if trimmed(summary).len() == 0 {
        "\u{2299} wake"@
    } else {
        "\u{2299} wake \u{00B7} "@ + summary
    }
}

/// What the throbber says while a request is repeated.
pub open spec fn retry_text(attempt: u32, limit: u32) -> Seq<char> {
    "retrying ("@ + dec(attempt as nat) + "/"@ + dec(limit as nat) + ")"@
}

impl PanelV {
    /// An entry was added.
    pub open spec fn with_entry(self, e: EntryV) -> PanelV {
        PanelV { entries: self.entries.push(e), ..self }
    }

    /// The conversation snapped to its bottom.
    pub open spec fn snapped(self) -> PanelV {
        PanelV {
            scroll: Scroll { offset: 0, newContent: false, idle: false, ..self.scroll },
            ..self
        }
    }

    /// Something was added below. The conversation stays where it is; where it is
    /// scrolled up, the title says that there is something new.
    pub open spec fn noted(self) -> PanelV {
        PanelV {
            scroll: Scroll { newContent: self.scroll.offset != 0, idle: false, ..self.scroll },
            ..self
        }
    }

    /// The panel waits for the model.
    pub open spec fn thinking(self, now: u64) -> PanelV {
        PanelV {
            stream: StreamV { isStreaming: true, thinkingStart: Some(now), ..self.stream },
            ..self
        }
    }

    /// A turn began.
    pub open spec fn begun(self) -> PanelV {
        PanelV {
            turnActive: true,
            compose: ComposeV { queueing: true, ..self.compose },
            ..self
        }
    }

    pub open spec fn user_sent(self, text: Seq<char>, now: u64) -> PanelV {
        self.with_entry(
            EntryV::User(user_text(text, self.compose.attachments.len() as int)),
        ).snapped().begun().thinking(now)
    }

    pub open spec fn wake_turn(self, summary: Seq<char>, now: u64) -> PanelV {
        let p = self.with_entry(
            EntryV::SessionNotice(wake_label(summary)),
        ).snapped().begun().thinking(now);
        PanelV { stream: StreamV { retryStatus: None, ..p.stream }, ..p }
    }

    /// Queued messages were taken up: they are entries now.
    pub open spec fn promoted(self, t: Seq<Seq<char>>) -> PanelV {
        let p = PanelV {
            entries: self.entries + Seq::new(t.len(), |i: int| EntryV::User(t[i])),
            compose: ComposeV { queue: Seq::empty(), ..self.compose },
            ..self
        };
        p.snapped()
    }

    /// The panel of a new session. Subagents, the completion and the permission
    /// patterns stay.
    pub open spec fn cleared(self, now: u64) -> PanelV {
        PanelV {
            entries: Seq::empty(),
            stream: StreamV {
                content: Seq::empty(),
                pending: Seq::empty(),
                fade: FULL_FADE,
                revealStart: None,
                lastReceiveTime: now,
                totalChars: 0,
                deferredFinalize: false,
                reasoning: Seq::empty(),
                isStreaming: false,
                thinkingStart: None,
                thinkingExpanded: false,
                reasoningActive: false,
                ..self.stream
            },
            permit: PermitV {
                pending: false,
                origin: None,
                toolName: Seq::empty(),
                ..self.permit
            },
            tools: ToolsV { calls: Seq::empty(), callsStart: None, ..self.tools },
            scroll: Scroll { chatWidth: self.scroll.chatWidth, ..atBottom() },
            shown: ShownV {
                continuation: Seq::empty(),
                reasoningHeaders: Seq::empty(),
                lineTexts: Seq::empty(),
                notCopied: Seq::empty(),
                blocks: Seq::empty(),
                ..self.shown
            },
            code: CodeV { scrollX: Map::empty(), expanded: Set::empty(), copiedFlash: None },
            compose: ComposeV {
                attachments: Seq::empty(),
                queue: Seq::empty(),
                errorHint: false,
                ..self.compose
            },
            turnActive: false,
            ..self
        }
    }

    // ---- streaming ----

    /// Content arrived. The first of it starts the clock of the reveal.
    pub open spec fn content_arrived(self, text: Seq<char>, now: u64) -> PanelV {
        if !self.turnActive {
            self
        } else {
            let first = self.stream.revealStart is None;
            PanelV {
                stream: StreamV {
                    isStreaming: true,
                    retryStatus: None,
                    reasoningActive: false,
                    revealStart: if first {
                        Some(now)
                    } else {
                        self.stream.revealStart
                    },
                    lastRevealTick: if first {
                        now
                    } else {
                        self.stream.lastRevealTick
                    },
                    fade: if first {
                        0
                    } else {
                        self.stream.fade
                    },
                    lastReceiveTime: now,
                    totalChars: min(
                        self.stream.totalChars + text.len(),
                        usize::MAX as int,
                    ) as usize,
                    pending: self.stream.pending + text,
                    ..self.stream
                },
                ..self
            }
        }
    }

    pub open spec fn reasoning_arrived(self, text: Seq<char>, now: u64) -> PanelV {
        if !self.turnActive {
            self
        } else {
            PanelV {
                stream: StreamV {
                    isStreaming: true,
                    retryStatus: None,
                    reasoningActive: true,
                    thinkingStart: if self.stream.thinkingStart is None {
                        Some(now)
                    } else {
                        self.stream.thinkingStart
                    },
                    reasoning: self.stream.reasoning + text,
                    ..self.stream
                },
                ..self
            }
        }
    }

    /// What was revealed became an entry, and the stream is quiet. The sideways
    /// scroll of its code blocks goes over to the entry.
    pub open spec fn committed(self) -> PanelV {
        let stream = StreamV {
            content: Seq::empty(),
            deferredFinalize: false,
            fade: FULL_FADE,
            revealStart: None,
            totalChars: 0,
            isStreaming: false,
            reasoningActive: false,
            thinkingStart: None,
            thinkingExpanded: false,
            ..self.stream
        };
        if self.stream.content.len() > 0 {
            PanelV {
                entries: self.entries.push(EntryV::Assistant(self.stream.content)),
                stream,
                code: CodeV {
                    scrollX: handed_over(
                        self.code.scrollX,
                        STREAMING,
                        self.entries.len() as usize,
                    ),
                    ..self.code
                },
                ..self
            }
        } else {
            PanelV { stream, ..self }
        }
    }

    /// The reasoning became an entry.
    pub open spec fn reasoned(self) -> PanelV {
        if self.stream.reasoning.len() > 0 {
            PanelV {
                entries: self.entries.push(
                    EntryV::Reasoning { text: self.stream.reasoning, expanded: false },
                ),
                stream: StreamV { reasoning: Seq::empty(), ..self.stream },
                ..self
            }
        } else {
            self
        }
    }

    /// The streamed message is complete. Where some of it is still to be revealed,
    /// it becomes an entry once that is done.
    pub open spec fn finalized(self) -> PanelV {
        let p = self.reasoned();
        if p.stream.pending.len() > 0 {
            PanelV { stream: StreamV { deferredFinalize: true, ..p.stream }, ..p }
        } else {
            p.committed()
        }
    }

    /// No tool call streams in any more.
    pub open spec fn calls_cleared(self) -> PanelV {
        PanelV { tools: ToolsV { calls: Seq::empty(), callsStart: None, ..self.tools }, ..self }
    }

    /// No tool runs.
    pub open spec fn tool_ended(self) -> PanelV {
        PanelV { tools: ToolsV { active: false, startTime: None, ..self.tools }, ..self }
    }

    /// The turn is over.
    pub open spec fn turn_over(self) -> PanelV {
        let p = self.finalized().calls_cleared().tool_ended();
        PanelV {
            turnActive: false,
            stream: StreamV { retryStatus: None, ..p.stream },
            compose: ComposeV { queueing: false, ..p.compose },
            ..p
        }
    }

    pub open spec fn turn_finished(self) -> PanelV {
        if !self.turnActive {
            self
        } else {
            let p = self.turn_over();
            PanelV {
                scroll: Scroll {
                    idle: p.scroll.idle || p.scroll.offset > 0,
                    newContent: false,
                    ..p.scroll
                },
                ..p
            }
        }
    }

    /// The turn was cancelled. Subagents go on: each ends on its own.
    pub open spec fn turn_cancelled(self) -> PanelV {
        if !self.turnActive {
            self
        } else {
            let p = self.turn_over();
            let q = PanelV {
                permit: PermitV {
                    pending: false,
                    origin: None,
                    toolName: Seq::empty(),
                    ..p.permit
                },
                compose: ComposeV { queue: Seq::empty(), ..p.compose },
                ..p
            };
            q.with_entry(EntryV::Cancelled)
        }
    }

    // ---- tools ----

    pub open spec fn tool_approved(self, name: Seq<char>) -> PanelV {
        if !self.turnActive {
            self
        } else {
            self.finalized().calls_cleared().with_entry(EntryV::ToolApproved(name))
        }
    }

    pub open spec fn tool_started(self, summary: Seq<char>, now: u64) -> PanelV {
        if !self.turnActive {
            self
        } else {
            let p = self.finalized().calls_cleared();
            PanelV {
                tools: ToolsV { active: true, startTime: Some(now), ..p.tools },
                ..p
            }.with_entry(EntryV::ToolActive(summary)).noted()
        }
    }

    pub open spec fn tool_refused(self, e: EntryV) -> PanelV {
        if !self.turnActive {
            self
        } else {
            self.tool_ended().with_entry(e)
        }
    }

    /// The row of the running tool is gone, and what streamed before is committed.
    pub open spec fn tool_row_gone(self) -> PanelV {
        let p = self.tool_ended();
        PanelV { entries: without_active(p.entries), ..p }.finalized()
    }

    pub open spec fn tool_result(self, name: Seq<char>, output: Seq<char>, now: u64) -> PanelV {
        if !self.turnActive {
            self
        } else {
            self.tool_row_gone().with_entry(
                EntryV::ToolResult { name, output },
            ).noted().thinking(now)
        }
    }

    pub open spec fn silent_result(self, now: u64) -> PanelV {
        if !self.turnActive {
            self
        } else {
            self.tool_row_gone().noted().thinking(now)
        }
    }

    /// The name of the tool call `index` arrived.
    pub open spec fn call_pending(self, index: int, name: Seq<char>, now: u64) -> PanelV {
        if !self.turnActive {
            self
        } else {
            let calls = padded_calls(self.tools.calls, index + 1);
            PanelV {
                tools: ToolsV {
                    calls: calls.update(index, CallV { name, ..calls[index] }),
                    callsStart: if self.tools.callsStart is None {
                        Some(now)
                    } else {
                        self.tools.callsStart
                    },
                    ..self.tools
                },
                ..self
            }
        }
    }

    /// The tool call `index` changed; an unknown one changes nothing.
    pub open spec fn call_changed(self, index: int, c: CallV) -> PanelV {
        if !self.turnActive || index >= self.tools.calls.len() {
            self
        } else {
            PanelV {
                tools: ToolsV { calls: self.tools.calls.update(index, c), ..self.tools },
                ..self
            }
        }
    }

    /// So many bytes of the tool call `index` have arrived.
    pub open spec fn call_progress(self, index: int, bytes: usize) -> PanelV {
        self.call_changed(index, CallV { bytes, ..self.tools.calls[index] })
    }

    /// What the tool call `index` is about became known.
    pub open spec fn call_preview(self, index: int, preview: Seq<char>) -> PanelV {
        self.call_changed(index, CallV { preview: Some(preview), ..self.tools.calls[index] })
    }

    /// A request is repeated.
    pub open spec fn retrying(self, attempt: u32, limit: u32, now: u64) -> PanelV {
        PanelV {
            stream: StreamV {
                retryStatus: Some(retry_text(attempt, limit)),
                thinkingStart: Some(now),
                ..self.stream
            },
            ..self
        }
    }

    // ---- results of commands ----

    /// A slash command was answered: no turn goes on.
    pub open spec fn answered(self, e: EntryV) -> PanelV {
        let p = self.with_entry(e);
        PanelV {
            turnActive: false,
            stream: StreamV { isStreaming: false, thinkingStart: None, ..p.stream },
            scroll: Scroll { offset: 0, ..p.scroll },
            ..p
        }
    }

    // ---- wake receipts ----

    /// A wake source was armed. Its receipt is refreshed, or added.
    pub open spec fn wake_registered(
        self,
        id: u64,
        kind: WakeKind,
        summary: Seq<char>,
        prompt: Option<Seq<char>>,
        next: Option<u64>,
        now: u64,
    ) -> PanelV {
        if !isScheduledWakeKind(kind) {
            self
        } else {
            let short = match prompt {
                Some(p) => Some(one_line(p, 96)),
                None => None,
            };
            match wake_at(self.entries, id, 0) {
                Some(i) => self.with_wake(
                    i,
                    WakeV {
                        summary,
                        prompt: short,
                        status: WakeScheduleStatus::Armed,
                        armed: true,
                        nextFireAt: next,
                        ..self.entries[i]->WakeSchedule_0
                    },
                ).noted(),
                None => self.with_entry(
                    EntryV::WakeSchedule(
                        WakeV {
                            id,
                            kind,
                            summary,
                            prompt: short,
                            status: WakeScheduleStatus::Armed,
                            armed: true,
                            nextFireAt: next,
                            firesSoFar: 0,
                            registeredAt: now,
                        },
                    ),
                ).noted(),
            }
        }
    }

    /// The receipt at `i` is `w` now.
    pub open spec fn with_wake(self, i: int, w: WakeV) -> PanelV {
        PanelV { entries: self.entries.update(i, EntryV::WakeSchedule(w)), ..self }
    }

    /// The source of a receipt fired.
    pub open spec fn wake_fired(self, source: Seq<char>) -> PanelV {
        match source_id(source) {
            None => self,
            Some(id) => match wake_at(self.entries, id, 0) {
                None => self,
                Some(i) => {
                    let w = self.entries[i]->WakeSchedule_0;
                    self.with_wake(
                        i,
                        WakeV {
                            status: WakeScheduleStatus::Fired,
                            firesSoFar: min(w.firesSoFar + 1, u64::MAX as int) as u64,
                            nextFireAt: None,
                            ..w
                        },
                    ).noted()
                },
            },
        }
    }

    /// A source is no longer armed. One that fired, or whose time had come, is
    /// shown as fired.
    pub open spec fn wake_disarmed(self, id: u64, now: u64) -> PanelV {
        match wake_at(self.entries, id, 0) {
            None => self,
            Some(i) => {
                let w = self.entries[i]->WakeSchedule_0;
                let due = w.nextFireAt matches Some(at) && at <= now;
                self.with_wake(
                    i,
                    WakeV {
                        armed: false,
                        nextFireAt: None,
                        status: if w.status == WakeScheduleStatus::Fired || due {
                            WakeScheduleStatus::Fired
                        } else {
                            WakeScheduleStatus::Disarmed
                        },
                        ..w
                    },
                ).noted()
            },
        }
    }

    // ---- subagents ----

    /// A subagent started: its block takes the place of the request for it.
    pub open spec fn subagent_started(
        self,
        sid: Seq<char>,
        kind: Seq<char>,
        prompt: Seq<char>,
        now: u64,
    ) -> PanelV {
        let p = self.finalized();
        let e = if p.entries.len() > 0 && p.entries.last() is ToolRequest {
            p.entries.drop_last()
        } else {
            p.entries
        };
        PanelV {
            entries: e.push(
                EntryV::SubagentBlock(
                    BlockV {
                        agentType: kind,
                        prompt,
                        toolLines: Seq::empty(),
                        done: false,
                        turns: 0,
                        content: None,
                        contentExpanded: false,
                        sessionId: Some(sid),
                    },
                ),
            ),
            subs: p.subs.started(sid, kind, now),
            ..p
        }.noted()
    }

    /// The unfinished block of `sid` is `b` now, where there is one.
    pub open spec fn with_block(self, sid: Seq<char>, f: spec_fn(BlockV) -> BlockV) -> PanelV {
        match open_block(self.entries, sid, self.entries.len() as int) {
            None => self,
            Some(i) => PanelV {
                entries: self.entries.update(
                    i,
                    EntryV::SubagentBlock(f(self.entries[i]->SubagentBlock_0)),
                ),
                ..self
            },
        }
    }

    /// A tool of a subagent ran.
    pub open spec fn subagent_tool(
        self,
        sid: Seq<char>,
        name: Seq<char>,
        summary: Seq<char>,
    ) -> PanelV {
        let p = self.with_block(
            sid,
            |b: BlockV| BlockV { toolLines: b.toolLines.push((name, summary)), ..b },
        );
        PanelV {
            subs: p.subs.noted(sid, EntryV::ToolApproved(name + ": "@ + summary)),
            ..p
        }.noted()
    }

    /// The tab of a subagent is shown; an unknown one changes nothing.
    pub open spec fn selecting_subagent(self, sid: Seq<char>) -> PanelV {
        match self.subs.find(sid) {
            Some(k) => PanelV {
                subs: SubagentsV { selected: Some(k), ..self.subs },
                ..self
            },
            None => self,
        }
    }

    /// A subagent completed: its block is done and it is gone.
    pub open spec fn subagent_done(
        self,
        sid: Seq<char>,
        turns: usize,
        content: Seq<char>,
    ) -> PanelV {
        let p = self.with_block(
            sid,
            |b: BlockV|
                BlockV {
                    done: true,
                    turns,
                    content: if content.len() > 0 {
                        Some(content)
                    } else {
                        b.content
                    },
                    ..b
                },
        );
        PanelV { subs: p.subs.ended(sid), ..p }
    }

    /// The content of the finished block at `i` is shown or hidden.
    pub open spec fn block_toggled(self, i: int) -> PanelV {
        if 0 <= i < self.entries.len() && self.entries[i] is SubagentBlock
            && self.entries[i]->SubagentBlock_0.done {
            let b = self.entries[i]->SubagentBlock_0;
            PanelV {
                entries: self.entries.update(
                    i,
                    EntryV::SubagentBlock(BlockV { contentExpanded: !b.contentExpanded, ..b }),
                ),
                ..self
            }
        } else {
            self
        }
    }
}

/// The calls with empty ones behind them, so that there are `n` at least.
pub open spec fn padded_calls(c: Seq<CallV>, n: int) -> Seq<CallV> {
    if c.len() >= n {
        c
    } else {
        c + Seq::new(
            (n - c.len()) as nat,
            |i: int| CallV { name: Seq::empty(), bytes: 0, preview: None },
        )
    }
}

impl AgentPanel {
    fn addEntry(&mut self, e: PanelEntry)
        ensures
            final(self)@ == old(self)@.with_entry(e@),
    {
        addEntry(&mut self.entries, e);
    }

    fn snap(&mut self)
        ensures
            final(self)@ == old(self)@.snapped(),
    {
        self.scroll.offset = 0;
        self.scroll.newContent = false;
        self.scroll.idle = false;
    }

    fn markTimelineActivity(&mut self)
        ensures
            final(self)@ == old(self)@.noted(),
    {
        self.scroll.newContent = self.scroll.offset != 0;
        self.scroll.idle = false;
    }

    fn startThinking(&mut self, now: u64)
        ensures
            final(self)@ == old(self)@.thinking(now),
    {
        self.stream.isStreaming = true;
        self.stream.thinkingStart = Some(now);
    }

    fn beginTurn(&mut self)
        ensures
            final(self)@ == old(self)@.begun(),
    {
        self.turnActive = true;
        self.compose.queueing = true;
    }

    /// Resets the panel for a new session.
    pub fn clearDisplay(&mut self, now: u64)
        ensures
            final(self)@ == old(self)@.cleared(now),
    {
        self.entries = Vec::new();
        self.stream.content = String::new();
        self.stream.pending = String::new();
        self.stream.fade = FULL_FADE;
        self.stream.revealStart = None;
        self.stream.lastReceiveTime = now;
        self.stream.totalChars = 0;
        self.stream.deferredFinalize = false;
        self.stream.reasoning = String::new();
        self.stream.isStreaming = false;
        self.turnActive = false;
        self.compose.errorHint = false;
        self.permit.pending = false;
        self.permit.origin = None;
        self.permit.toolName = String::new();
        self.tools.calls = Vec::new();
        self.tools.callsStart = None;
        self.stream.thinkingStart = None;
        self.stream.thinkingExpanded = false;
        self.stream.reasoningActive = false;
        self.scroll.offset = 0;
        self.scroll.newContent = false;
        self.scroll.idle = false;
        self.scroll.lastY = 0;
        self.scroll.maxScroll = 0;
        self.shown.continuation = Vec::new();
        self.shown.reasoningHeaders = Vec::new();
        self.shown.lineTexts = Vec::new();
        self.shown.notCopied = Vec::new();
        self.code.scrollX.clear();
        self.shown.blocks = Vec::new();
        self.code.copiedFlash = None;
        self.code.expanded.clear();
        self.compose.attachments = Vec::new();
        self.compose.queue = Vec::new();
        proof {
            assert(self@.entries =~= Seq::empty());
            assert(self@.tools.calls =~= Seq::empty());
            assert(self@.shown.lineTexts =~= Seq::empty());
            assert(self@.shown.blocks =~= Seq::empty());
            assert(self@.shown.continuation =~= Seq::empty());
            assert(self@.compose.queue =~= Seq::empty());
        }
    }

    // ---- messages ----

    /// Adds an image for the next message.
    pub fn addAttachment(&mut self, att: Attachment)
        ensures
            final(self)@ == (PanelV {
                compose: ComposeV {
                    attachments: old(self)@.compose.attachments.push(att),
                    ..old(self)@.compose
                },
                ..old(self)@
            }),
    {
        self.compose.attachments.push(att);
    }

    /// Takes all images for the next message.
    pub fn takeAttachments(&mut self) -> (r: Vec<Attachment>)
        ensures
            r@ == old(self)@.compose.attachments,
            final(self)@ == (PanelV {
                compose: ComposeV { attachments: Seq::empty(), ..old(self)@.compose },
                ..old(self)@
            }),
    {
        let mut t: Vec<Attachment> = Vec::new();
        core::mem::swap(&mut t, &mut self.compose.attachments);
        t
    }

    /// Number of images for the next message.
    pub fn attachmentCount(&self) -> (r: usize)
        ensures
            r == self@.compose.attachments.len(),
    {
        self.compose.attachments.len()
    }

    /// Removes the image that was added last.
    pub fn removeLastAttachment(&mut self)
        ensures
            final(self)@ == (PanelV {
                compose: ComposeV {
                    attachments: if old(self)@.compose.attachments.len() > 0 {
                        old(self)@.compose.attachments.drop_last()
                    } else {
                        old(self)@.compose.attachments
                    },
                    ..old(self)@.compose
                },
                ..old(self)@
            }),
    {
        let _ = self.compose.attachments.pop();
    }

    /// Puts images back, behind those that are there.
    pub fn restoreAttachments(&mut self, atts: Vec<Attachment>)
        ensures
            final(self)@ == (PanelV {
                compose: ComposeV {
                    attachments: old(self)@.compose.attachments + atts@,
                    ..old(self)@.compose
                },
                ..old(self)@
            }),
    {
        let mut more = atts;
        self.compose.attachments.append(&mut more);
    }

    /// Queues a message while a turn goes on.
    pub fn queueMessage(&mut self, input: UserInput)
        ensures
            final(self)@ == (PanelV {
                compose: ComposeV {
                    queue: old(self)@.compose.queue.push(input),
                    ..old(self)@.compose
                },
                ..old(self)@
            }),
    {
        self.compose.queue.push(input);
    }

    /// Takes the message back that was queued last.
    pub fn popQueuedMessage(&mut self) -> (r: Option<UserInput>)
        ensures
            old(self)@.compose.queue.len() == 0 ==> r is None && final(self)@ == old(self)@,
            old(self)@.compose.queue.len() > 0 ==> r == Some(old(self)@.compose.queue.last())
                && final(self)@ == (PanelV {
                compose: ComposeV {
                    queue: old(self)@.compose.queue.drop_last(),
                    ..old(self)@.compose
                },
                ..old(self)@
            }),
    {
        self.compose.queue.pop()
    }

    /// Number of queued messages.
    pub fn queuedCount(&self) -> (r: usize)
        ensures
            r == self@.compose.queue.len(),
    {
        self.compose.queue.len()
    }

    /// Queued messages were taken up: they become entries.
    pub fn promoteQueue(&mut self, messages: &Vec<String>)
        ensures
            final(self)@ == old(self)@.promoted(texts(messages@)),
    {
        let ghost before = self@.entries;
        let ghost t = texts(messages@);
        let mut i: usize = 0;
        while i < messages.len()
            invariant
                i <= messages.len(),
                before == old(self)@.entries,
                t == texts(messages@),
                self@ == (PanelV {
                    entries: before + Seq::new(i as nat, |k: int| EntryV::User(t[k])),
                    ..old(self)@
                }),
            decreases messages.len() - i,
        {
            let ghost e = self@.entries;
            self.addEntry(PanelEntry::User(messages[i].clone()));
            proof {
                assert(t[i as int] == messages@[i as int]@);
                assert(self@.entries =~= before + Seq::new(
                    (i + 1) as nat,
                    |k: int| EntryV::User(t[k]),
                ));
            }
            i = i + 1;
        }
        self.compose.queue = Vec::new();
        self.snap();
        proof {
            assert(self@.compose.queue =~= Seq::empty());
        }
    }

    /// Shows a message of the user and begins its turn.
    pub fn pushUser(&mut self, text: &str, now: u64)
        ensures
            final(self)@ == old(self)@.user_sent(text@, now),
    {
        let n: usize = self.compose.attachments.len();
        let mut display = String::from_str(text);
        if n > 0 {
            display.append("\n[+");
            if n == 1 {
                display.append("1 image");
            } else {
                let mut count = decimal(n as u64);
                count.append(" images");
                display.append(count.as_str());
            }
            display.append(" attached]");
        }
        self.addEntry(PanelEntry::User(display));
        self.snap();
        self.beginTurn();
        self.startThinking(now);
    }

    /// Begins a turn that a wake caused. It is no message of the user, so it is
    /// shown as a notice that cannot be copied.
    pub fn pushWakeTurn(&mut self, summary: &str, now: u64)
        ensures
            final(self)@ == old(self)@.wake_turn(summary@, now),
    {
        let label = if filled(&trim(summary)) {
            let mut s = String::from_str("\u{2299} wake \u{00B7} ");
            s.append(summary);
            s
        } else {
            String::from_str("\u{2299} wake")
        };
        self.addEntry(PanelEntry::SessionNotice(label));
        self.snap();
        self.beginTurn();
        self.stream.retryStatus = None;
        self.startThinking(now);
    }

    /// Shows a slash command. No turn begins.
    pub fn pushCommand(&mut self, text: &str)
        ensures
            final(self)@ == old(self)@.with_entry(EntryV::User(text@)).snapped(),
    {
        self.addEntry(PanelEntry::User(String::from_str(text)));
        self.snap();
    }

    // ---- streaming ----

    /// Content of the model arrived. Outside a turn it is dropped.
    pub fn appendContent(&mut self, text: &str, now: u64)
        ensures
            final(self)@ == old(self)@.content_arrived(text@, now),
    {
        if !self.turnActive {
            return;
        }
        self.stream.isStreaming = true;
        self.stream.retryStatus = None;
        self.stream.reasoningActive = false;
        if self.stream.revealStart.is_none() {
            self.stream.revealStart = Some(now);
            self.stream.lastRevealTick = now;
            self.stream.fade = 0;
        }
        self.stream.lastReceiveTime = now;
        self.stream.totalChars = self.stream.totalChars.saturating_add(text.unicode_len());
        self.stream.pending.append(text);
    }

    /// Reasoning of the model arrived. Outside a turn it is dropped.
    pub fn appendReasoning(&mut self, text: &str, now: u64)
        ensures
            final(self)@ == old(self)@.reasoning_arrived(text@, now),
    {
        if !self.turnActive {
            return;
        }
        self.stream.isStreaming = true;
        self.stream.retryStatus = None;
        self.stream.reasoningActive = true;
        if self.stream.thinkingStart.is_none() {
            self.stream.thinkingStart = Some(now);
        }
        self.stream.reasoning.append(text);
    }

    /// The streamed message is complete.
    pub fn finalizeStreaming(&mut self)
        ensures
            final(self)@ == old(self)@.finalized(),
    {
        if filled(&self.stream.reasoning) {
            let text = taken(&mut self.stream.reasoning);
            self.addEntry(PanelEntry::Reasoning { text, expanded: false });
        }
        if filled(&self.stream.pending) {
            self.stream.deferredFinalize = true;
            return;
        }
        self.doFinalize();
    }

    /// Makes an entry of what was revealed.
    pub fn doFinalize(&mut self)
        ensures
            final(self)@ == old(self)@.committed(),
    {
        self.stream.deferredFinalize = false;
        self.stream.fade = FULL_FADE;
        self.stream.revealStart = None;
        self.stream.totalChars = 0;
        if filled(&self.stream.content) {
            let text = taken(&mut self.stream.content);
            self.addEntry(PanelEntry::Assistant(text));
            let n: usize = self.entries.len();
            proof {
                assert(self@.entries.len() == n);
            }
            let at: usize = n - 1;
            self.code.scrollX.handOver(STREAMING, at);
        }
        self.stream.isStreaming = false;
        self.stream.reasoningActive = false;
        self.stream.thinkingStart = None;
        self.stream.thinkingExpanded = false;
        proof {
            assert(self@.stream.content =~= Seq::empty());
        }
    }

    /// Whether a turn goes on.
    pub fn isActive(&self) -> (r: bool)
        ensures
            r == self@.turnActive,
    {
        self.turnActive
    }

    fn clearPendingToolCalls(&mut self)
        ensures
            final(self)@ == old(self)@.calls_cleared(),
    {
        self.tools.calls = Vec::new();
        self.tools.callsStart = None;
        proof {
            assert(self@.tools.calls =~= Seq::empty());
        }
    }

    fn endTool(&mut self)
        ensures
            final(self)@ == old(self)@.tool_ended(),
    {
        self.tools.active = false;
        self.tools.startTime = None;
    }

    fn endTurn(&mut self)
        ensures
            final(self)@ == old(self)@.turn_over(),
    {
        self.finalizeStreaming();
        self.clearPendingToolCalls();
        self.turnActive = false;
        self.endTool();
        self.stream.retryStatus = None;
        self.compose.queueing = false;
    }

    /// The turn is complete.
    pub fn finishTurn(&mut self)
        ensures
            final(self)@ == old(self)@.turn_finished(),
    {
        if !self.turnActive {
            return;
        }
        self.endTurn();
        if self.scroll.offset > 0 {
            self.scroll.idle = true;
        }
        self.scroll.newContent = false;
    }

    /// The turn was cancelled.
    pub fn finalizeCancelled(&mut self)
        ensures
            final(self)@ == old(self)@.turn_cancelled(),
    {
        if !self.turnActive {
            return;
        }
        self.endTurn();
        self.permit.pending = false;
        self.permit.origin = None;
        self.permit.toolName = String::new();
        self.compose.queue = Vec::new();
        proof {
            assert(self@.compose.queue =~= Seq::empty());
        }
        self.addEntry(PanelEntry::Cancelled);
    }

    // ---- tools ----

    /// A tool was approved.
    pub fn toolApproved(&mut self, name: &str)
        ensures
            final(self)@ == old(self)@.tool_approved(name@),
    {
        if !self.turnActive {
            return;
        }
        self.finalizeStreaming();
        self.clearPendingToolCalls();
        self.addEntry(PanelEntry::ToolApproved { name: String::from_str(name) });
    }

    /// The name of a tool call arrived; its arguments are still to come.
    pub fn toolCallPending(&mut self, index: usize, name: &str, now: u64)
        requires
            index < usize::MAX,
        ensures
            final(self)@ == old(self)@.call_pending(index as int, name@, now),
    {
        if !self.turnActive {
            return;
        }
        let ghost calls = self@.tools.calls;
        let ghost wide = padded_calls(calls, index + 1);
        while self.tools.calls.len() <= index
            invariant
                index < usize::MAX,
                self@ == (PanelV {
                    tools: ToolsV { calls: self@.tools.calls, ..old(self)@.tools },
                    ..old(self)@
                }),
                wide == padded_calls(calls, index + 1),
                self@.tools.calls.len() <= wide.len(),
                calls.len() <= self@.tools.calls.len(),
                self@.tools.calls == wide.take(self@.tools.calls.len() as int),
            decreases index + 1 - self.tools.calls.len(),
        {
            let ghost before = self@.tools.calls;
            self.tools.calls.push(
                PendingToolCall { name: String::new(), bytes: 0, preview: None },
            );
            proof {
                let n = before.len() as int;
                assert(self@.tools.calls =~= before.push(
                    CallV { name: Seq::empty(), bytes: 0, preview: None },
                ));
                assert(self@.tools.calls =~= wide.take(n + 1));
            }
        }
        let ghost before = self@.tools.calls;
        proof {
            assert(before =~= wide);
            assert(before[index as int] == self.tools.calls@[index as int]@);
        }
        self.tools.calls[index].name = String::from_str(name);
        if self.tools.callsStart.is_none() {
            self.tools.callsStart = Some(now);
        }
        proof {
            assert(self@.tools.calls =~= before.update(
                index as int,
                CallV { name: name@, ..before[index as int] },
            ));
        }
    }

    /// The arguments of a tool call have grown.
    pub fn toolCallProgress(&mut self, index: usize, bytes: usize)
        ensures
            final(self)@ == old(self)@.call_progress(index as int, bytes),
    {
        if !self.turnActive {
            return;
        }
        if index < self.tools.calls.len() {
            let ghost before = self@.tools.calls;
            proof {
                assert(before[index as int] == self.tools.calls@[index as int]@);
            }
            self.tools.calls[index].bytes = bytes;
            proof {
                assert(self@.tools.calls =~= before.update(
                    index as int,
                    CallV { bytes, ..before[index as int] },
                ));
            }
        }
    }

    /// What a tool call is about became known.
    pub fn toolCallPreview(&mut self, index: usize, preview: &str)
        ensures
            final(self)@ == old(self)@.call_preview(index as int, preview@),
    {
        if !self.turnActive {
            return;
        }
        if index < self.tools.calls.len() {
            let ghost before = self@.tools.calls;
            proof {
                assert(before[index as int] == self.tools.calls@[index as int]@);
            }
            self.tools.calls[index].preview = Some(String::from_str(preview));
            proof {
                assert(self@.tools.calls =~= before.update(
                    index as int,
                    CallV { preview: Some(preview@), ..before[index as int] },
                ));
            }
        }
    }

    /// A tool began to run.
    pub fn toolStarted(&mut self, _name: &str, summary: &str, now: u64)
        ensures
            final(self)@ == old(self)@.tool_started(summary@, now),
    {
        if !self.turnActive {
            return;
        }
        self.finalizeStreaming();
        self.clearPendingToolCalls();
        self.tools.active = true;
        self.tools.startTime = Some(now);
        self.addEntry(PanelEntry::ToolActive { summary: String::from_str(summary) });
        self.markTimelineActivity();
    }

    /// A tool was denied.
    pub fn toolDenied(&mut self, name: &str)
        ensures
            final(self)@ == old(self)@.tool_refused(EntryV::ToolDenied(name@)),
    {
        if !self.turnActive {
            return;
        }
        self.endTool();
        self.addEntry(PanelEntry::ToolDenied { name: String::from_str(name) });
    }

    /// A tool was denied by a permission rule.
    pub fn toolAutoDenied(&mut self, name: &str, summary: &str)
        ensures
            final(self)@ == old(self)@.tool_refused(
                EntryV::ToolAutoDenied { name: name@, summary: summary@ },
            ),
    {
        if !self.turnActive {
            return;
        }
        self.endTool();
        self.addEntry(
            PanelEntry::ToolAutoDenied {
                name: String::from_str(name),
                summary: String::from_str(summary),
            },
        );
    }

    fn dropToolRow(&mut self)
        ensures
            final(self)@ == old(self)@.tool_row_gone(),
    {
        self.endTool();
        removeActive(&mut self.entries);
        self.finalizeStreaming();
    }

    /// A tool returned: its result takes the place of its row.
    pub fn pushToolResult(&mut self, name: &str, output: &str, now: u64)
        ensures
            final(self)@ == old(self)@.tool_result(name@, output@, now),
    {
        if !self.turnActive {
            return;
        }
        self.dropToolRow();
        self.addEntry(
            PanelEntry::ToolResult {
                name: String::from_str(name),
                output: String::from_str(output),
            },
        );
        self.markTimelineActivity();
        self.startThinking(now);
    }

    fn finishSilentToolResult(&mut self, now: u64)
        ensures
            final(self)@ == old(self)@.silent_result(now),
    {
        if !self.turnActive {
            return;
        }
        self.dropToolRow();
        self.markTimelineActivity();
        self.startThinking(now);
    }

    /// A wake tool that did its work is shown by its receipt, not by a result.
    /// Returns whether `output` was such a result.
    pub fn finishWakeToolResult(&mut self, name: &str, output: &str, now: u64) -> (r: bool)
        ensures
            r == is_wake_receipt(name@, output@),
            final(self)@ == (if r {
                old(self)@.silent_result(now)
            } else {
                old(self)@
            }),
    {
        let deletes = strEq(name, "cronDelete");
        let handled = if deletes {
            startsWith(output, "Disarmed wake #")
        } else if isWakeToolName(name) {
            startsWith(output, "Armed wake #")
        } else {
            false
        };
        if handled {
            self.finishSilentToolResult(now);
        }
        handled
    }

    /// Shows that a request is repeated.
    pub fn showRetrying(&mut self, attempt: u32, maxAttempts: u32, now: u64)
        ensures
            final(self)@ == old(self)@.retrying(attempt, maxAttempts, now),
    {
        let mut s = String::from_str("retrying (");
        s.append(decimal(attempt as u64).as_str());
        s.append("/");
        s.append(decimal(maxAttempts as u64).as_str());
        s.append(")");
        self.stream.retryStatus = Some(s);
        self.stream.thinkingStart = Some(now);
    }

    // ---- notices ----

    /// Shows an error.
    pub fn pushError(&mut self, msg: &str)
        ensures
            final(self)@ == old(self)@.with_entry(EntryV::Error(msg@)),
    {
        self.addEntry(PanelEntry::Error(String::from_str(msg)));
    }

    /// Shows the result of a slash command and ends the turn state.
    pub fn pushCommandResult(&mut self, text: &str)
        ensures
            final(self)@ == old(self)@.answered(EntryV::CommandResult(text@)),
    {
        self.addEntry(PanelEntry::CommandResult(String::from_str(text)));
        self.turnActive = false;
        self.stream.isStreaming = false;
        self.stream.thinkingStart = None;
        self.scroll.offset = 0;
    }

    /// Shows a notice. The turn goes on.
    pub fn pushNotice(&mut self, text: &str)
        ensures
            final(self)@ == old(self)@.with_entry(EntryV::CommandResult(text@)),
    {
        self.addEntry(PanelEntry::CommandResult(String::from_str(text)));
    }

    /// Shows how the context is used and ends the turn state.
    pub fn pushContextDisplay(&mut self, state: ContextState)
        ensures
            final(self)@ == old(self)@.answered(EntryV::ContextDisplay(state)),
    {
        self.addEntry(PanelEntry::ContextDisplay(state));
        self.turnActive = false;
        self.stream.isStreaming = false;
        self.stream.thinkingStart = None;
        self.scroll.offset = 0;
    }

    /// Marks the block at which compressed content begins.
    pub fn pushCompactionMarker(&mut self, stage: &str, blockIdx: usize)
        ensures
            final(self)@ == (PanelV {
                entries: with_marker(old(self)@.entries, stage@, blockIdx as int),
                ..old(self)@
            }),
    {
        placeMarker(&mut self.entries, stage, blockIdx);
    }

    // ---- wake receipts ----

    /// A wake source was armed.
    pub fn wakeRegistered(
        &mut self,
        id: u64,
        kind: WakeKind,
        summary: &str,
        prompt: Option<String>,
        next: Option<u64>,
        now: u64,
    )
        ensures
            final(self)@ == old(self)@.wake_registered(
                id,
                kind,
                summary@,
                opt_text(prompt),
                next,
                now,
            ),
    {
        if !isScheduledWakeKind(kind) {
            return;
        }
        let short: Option<String> = match &prompt {
            Some(p) => Some(snippetOneLine(p.as_str(), 96)),
            None => None,
        };
        let ghost e = self@.entries;
        match findWakeSchedule(&self.entries, id) {
            Some(i) => {
                proof {
                    assert(e[i as int] == self.entries@[i as int]@);
                }
                match &mut self.entries[i] {
                    PanelEntry::WakeSchedule {
                        summary: s,
                        prompt: p,
                        status,
                        armed,
                        nextFireAt,
                        ..
                    } => {
                        *s = String::from_str(summary);
                        *p = short;
                        *status = WakeScheduleStatus::Armed;
                        *armed = true;
                        *nextFireAt = next;
                    },
                    _ => {},
                }
                proof {
                    assert(self@.entries =~= e.update(i as int, self.entries@[i as int]@));
                }
            },
            None => {
                self.addEntry(
                    PanelEntry::WakeSchedule {
                        id,
                        kind,
                        summary: String::from_str(summary),
                        prompt: short,
                        status: WakeScheduleStatus::Armed,
                        armed: true,
                        nextFireAt: next,
                        firesSoFar: 0,
                        registeredAt: now,
                    },
                );
            },
        }
        self.markTimelineActivity();
    }

    /// A wake source fired; `source` is such as `delay#3`.
    pub fn wakeFiredSource(&mut self, source: &str)
        ensures
            final(self)@ == old(self)@.wake_fired(source@),
    {
        let id: u64 = match parseWakeSourceId(source) {
            Some(id) => id,
            None => {
                return;
            },
        };
        let ghost e = self@.entries;
        match findWakeSchedule(&self.entries, id) {
            Some(i) => {
                proof {
                    assert(e[i as int] == self.entries@[i as int]@);
                }
                match &mut self.entries[i] {
                    PanelEntry::WakeSchedule { status, firesSoFar, nextFireAt, .. } => {
                        *status = WakeScheduleStatus::Fired;
                        *firesSoFar = firesSoFar.saturating_add(1);
                        *nextFireAt = None;
                    },
                    _ => {},
                }
                proof {
                    assert(self@.entries =~= e.update(i as int, self.entries@[i as int]@));
                }
                self.markTimelineActivity();
            },
            None => {},
        }
    }

    /// A wake source is no longer armed.
    pub fn wakeDisarmed(&mut self, id: u64, now: u64)
        ensures
            final(self)@ == old(self)@.wake_disarmed(id, now),
    {
        let ghost e = self@.entries;
        match findWakeSchedule(&self.entries, id) {
            Some(i) => {
                proof {
                    assert(e[i as int] == self.entries@[i as int]@);
                }
                match &mut self.entries[i] {
                    PanelEntry::WakeSchedule { status, armed, nextFireAt, .. } => {
                        let due = match *nextFireAt {
                            Some(at) => at <= now,
                            None => false,
                        };
                        *armed = false;
                        *nextFireAt = None;
                        if *status == WakeScheduleStatus::Fired || due {
                            *status = WakeScheduleStatus::Fired;
                        } else {
                            *status = WakeScheduleStatus::Disarmed;
                        }
                    },
                    _ => {},
                }
                proof {
                    assert(self@.entries =~= e.update(i as int, self.entries@[i as int]@));
                }
                self.markTimelineActivity();
            },
            None => {},
        }
    }

    // ---- subagents ----

    /// A subagent started. Subagents outlive the turn, so this holds outside a
    /// turn too.
    pub fn subagentStarted(&mut self, sessionId: &str, agentType: &str, prompt: &str, now: u64)
        ensures
            final(self)@ == old(self)@.subagent_started(sessionId@, agentType@, prompt@, now),
    {
        self.finalizeStreaming();
        let n: usize = self.entries.len();
        if n > 0 {
            let ghost e = self@.entries;
            proof {
                assert(e[n - 1] == self.entries@[n - 1]@);
            }
            let request = match &self.entries[n - 1] {
                PanelEntry::ToolRequest { .. } => true,
                _ => false,
            };
            if request {
                let _ = self.entries.pop();
                proof {
                    assert(self@.entries =~= e.drop_last());
                }
            }
        }
        self.subs.start(sessionId, agentType, now);
        let block = PanelEntry::SubagentBlock {
            agentType: String::from_str(agentType),
            prompt: String::from_str(prompt),
            toolLines: Vec::new(),
            done: false,
            turns: 0,
            content: None,
            contentExpanded: false,
            sessionId: Some(String::from_str(sessionId)),
        };
        proof {
            assert(block@->SubagentBlock_0.toolLines =~= Seq::empty());
        }
        self.addEntry(block);
        self.markTimelineActivity();
    }

    /// A tool of a subagent ran.
    pub fn subagentToolLine(&mut self, sessionId: &str, name: &str, summary: &str)
        ensures
            final(self)@ == old(self)@.subagent_tool(sessionId@, name@, summary@),
    {
        let ghost e = self@.entries;
        match findSubagentBlock(&self.entries, sessionId) {
            Some(i) => {
                proof {
                    assert(e[i as int] == self.entries@[i as int]@);
                }
                let ghost was = self.entries@[i as int];
                match &mut self.entries[i] {
                    PanelEntry::SubagentBlock { toolLines, .. } => {
                        toolLines.push((String::from_str(name), String::from_str(summary)));
                    },
                    _ => {},
                }
                proof {
                    assert(self@.entries =~= e.update(i as int, self.entries@[i as int]@));
                    assert(self.entries@[i as int]@->SubagentBlock_0.toolLines
                        =~= was@->SubagentBlock_0.toolLines.push((name@, summary@)));
                }
            },
            None => {},
        }
        let mut line = String::from_str(name);
        line.append(": ");
        line.append(summary);
        self.subs.note(sessionId, PanelEntry::ToolApproved { name: line });
        self.markTimelineActivity();
    }

    /// A tool of a subagent returned.
    pub fn subagentToolResult(&mut self, sessionId: &str, name: &str, output: &str)
        ensures
            final(self)@ == (PanelV {
                subs: old(self)@.subs.noted(
                    sessionId@,
                    EntryV::ToolResult { name: name@, output: output@ },
                ),
                ..old(self)@
            }),
    {
        self.subs.note(
            sessionId,
            PanelEntry::ToolResult {
                name: String::from_str(name),
                output: String::from_str(output),
            },
        );
    }

    /// Content of a subagent arrived.
    pub fn subagentContent(&mut self, sessionId: &str, text: &str)
        ensures
            final(self)@ == (PanelV {
                subs: old(self)@.subs.said(sessionId@, text@),
                ..old(self)@
            }),
    {
        self.subs.say(sessionId, text);
    }

    /// A subagent completed.
    pub fn subagentComplete(
        &mut self,
        sessionId: &str,
        _agentType: &str,
        turns: usize,
        finalContent: &str,
    )
        requires
            old(self)@.subs.wf(),
        ensures
            final(self)@ == old(self)@.subagent_done(sessionId@, turns, finalContent@),
            final(self)@.subs.wf(),
    {
        let ghost e = self@.entries;
        match findSubagentBlock(&self.entries, sessionId) {
            Some(i) => {
                proof {
                    assert(e[i as int] == self.entries@[i as int]@);
                }
                match &mut self.entries[i] {
                    PanelEntry::SubagentBlock { done, turns: t, content, .. } => {
                        *done = true;
                        *t = turns;
                        if finalContent.unicode_len() > 0 {
                            *content = Some(String::from_str(finalContent));
                        }
                    },
                    _ => {},
                }
                proof {
                    assert(self@.entries =~= e.update(i as int, self.entries@[i as int]@));
                }
            },
            None => {},
        }
        self.subs.removeSubagent(sessionId);
    }

    /// Shows or hides the content of a finished subagent block.
    pub fn toggleSubagentContent(&mut self, entryIndex: usize)
        ensures
            final(self)@ == old(self)@.block_toggled(entryIndex as int),
    {
        if entryIndex >= self.entries.len() {
            return;
        }
        let ghost e = self@.entries;
        proof {
            assert(e[entryIndex as int] == self.entries@[entryIndex as int]@);
        }
        match &mut self.entries[entryIndex] {
            PanelEntry::SubagentBlock { done, contentExpanded, .. } => {
                if *done {
                    *contentExpanded = !*contentExpanded;
                }
            },
            _ => {},
        }
        proof {
            assert(self@.entries =~= e.update(
                entryIndex as int,
                self.entries@[entryIndex as int]@,
            ));
            assert(self@.entries =~= old(self)@.block_toggled(entryIndex as int).entries);
        }
    }

    /// The place of a running subagent by session id.
    pub fn findSubagentIndex(&self, sessionId: &str) -> (r: Option<usize>)
        ensures
            match r {
                Some(i) => i < self@.subs.active.len() && self@.subs.find(sessionId@) == Some(
                    i as int,
                ),
                None => self@.subs.find(sessionId@) is None,
            },
    {
        self.subs.findSubagentIndex(sessionId)
    }

    /// The subagent that the popup shows.
    pub fn currentSubagent(&self) -> (r: Option<&ActiveSubagent>)
        ensures
            match r {
                Some(a) => self@.subs.selected is Some && self@.subs.selected->0
                    < self@.subs.active.len() && a@ == self@.subs.active[self@.subs.selected->0],
                None => self@.subs.selected is None || self@.subs.selected->0
                    >= self@.subs.active.len(),
            },
    {
        self.subs.currentSubagent()
    }

    /// Shows the tab of a subagent; an unknown one changes nothing.
    pub fn selectSubagentBySessionId(&mut self, sessionId: &str)
        ensures
            final(self)@ == old(self)@.selecting_subagent(sessionId@),
    {
        self.subs.selectSubagentBySessionId(sessionId);
    }

    /// Cycles the tabs of the popup.
    pub fn cycleSubagent(&mut self, delta: i32)
        requires
            old(self)@.subs.wf(),
        ensures
            final(self)@ == (PanelV {
                subs: old(self)@.subs.cycled(delta as int),
                ..old(self)@
            }),
            final(self)@.subs.wf(),
    {
        self.subs.cycleSubagent(delta);
    }

    /// Removes a subagent.
    pub fn removeSubagent(&mut self, sessionId: &str)
        requires
            old(self)@.subs.wf(),
        ensures
            final(self)@ == (PanelV {
                subs: old(self)@.subs.ended(sessionId@),
                ..old(self)@
            }),
            final(self)@.subs.wf(),
    {
        self.subs.removeSubagent(sessionId);
    }

    /// Kind and session of the last subagent block that has a session.
    pub fn lastSubagentSession(&self) -> (r: Option<(&str, &str)>)
        ensures
            match r {
                Some(p) => last_session(self@.entries, self@.entries.len() as int) == Some(
                    (p.0@, p.1@),
                ),
                None => last_session(self@.entries, self@.entries.len() as int) is None,
            },
    {
        let ghost e = self@.entries;
        let mut n: usize = self.entries.len();
        while n > 0
            invariant
                n <= self.entries@.len(),
                e == entry_views(self.entries@),
                last_session(e, e.len() as int) == last_session(e, n as int),
            decreases n,
        {
            proof {
                assert(e[n - 1] == self.entries@[n - 1]@);
            }
            match &self.entries[n - 1] {
                PanelEntry::SubagentBlock { agentType, sessionId, .. } => {
                    match sessionId {
                        Some(s) => {
                            return Some((agentType.as_str(), s.as_str()));
                        },
                        None => {},
                    }
                },
                _ => {},
            }
            n = n - 1;
        }
        None
    }
}

/// Whether the result of a tool is shown by a wake receipt.
pub open spec fn is_wake_receipt(name: Seq<char>, output: Seq<char>) -> bool {
    if name == "cronDelete"@ {
        has_prefix(output, "Disarmed wake #"@)
    } else {
        is_wake_tool(name) && has_prefix(output, "Armed wake #"@)
    }
}

/// Kind and session of the last subagent block with a session among the first
/// `n` entries.
pub open spec fn last_session(e: Seq<EntryV>, n: int) -> Option<(Seq<char>, Seq<char>)>
    decreases n,
{
    if n <= 0 {
        None
    } else if e[n - 1] is SubagentBlock && e[n - 1]->SubagentBlock_0.sessionId is Some {
        Some((e[n - 1]->SubagentBlock_0.agentType, e[n - 1]->SubagentBlock_0.sessionId->0))
    } else {
        last_session(e, n - 1)
    }
}

} // verus!
