//! The state of the agent panel, part by part. Times are in milliseconds.

use vstd::prelude::*;
use vstd::string::*;
use crate::agent_panel::blocks::{BlockId, BlockMap, BlockSet, CodeBlockRange, RangeV, range_views};
use crate::agent_panel::entry::{EntryV, PanelEntry, entry_views};
use crate::agent_panel::subagents::{Subagents, SubagentsV};
use crate::command::{CommandDef, CommandV, command_views};
use crate::draw::Rect;
use crate::history::{History, HistoryV};
use crate::impact::ShellImpact;
use crate::text::{opt_text, texts};

verus! {

/// The fade of a character that is fully shown.
pub const FULL_FADE: u128 = 1_000_000;

// ---- the message that streams in ----

/// The message that streams in. Content is first buffered in `pending` and then
/// revealed, character by character, into `content`.
pub struct Stream {
    pub content: String,
    pub pending: String,
    /// How far the next character has faded in, in millionths.
    pub fade: u128,
    pub lastRevealTick: u64,
    /// When content began to arrive.
    pub revealStart: Option<u64>,
    pub lastReceiveTime: u64,
    /// How many characters arrived, for the pace of the reveal.
    pub totalChars: usize,
    /// The message is complete but not yet wholly revealed.
    pub deferredFinalize: bool,
    pub reasoning: String,
    pub isStreaming: bool,
    pub thinkingStart: Option<u64>,
    pub thinkingExpanded: bool,
    pub reasoningActive: bool,
    pub retryStatus: Option<String>,
}

/// A streaming message as a value.
#[verifier::ext_equal]
pub ghost struct StreamV {
    pub content: Seq<char>,
    pub pending: Seq<char>,
    pub fade: u128,
    pub lastRevealTick: u64,
    pub revealStart: Option<u64>,
    pub lastReceiveTime: u64,
    pub totalChars: usize,
    pub deferredFinalize: bool,
    pub reasoning: Seq<char>,
    pub isStreaming: bool,
    pub thinkingStart: Option<u64>,
    pub thinkingExpanded: bool,
    pub reasoningActive: bool,
    pub retryStatus: Option<Seq<char>>,
}

impl View for Stream {
    type V = StreamV;

    open spec fn view(&self) -> StreamV {
        StreamV {
            content: self.content@,
            pending: self.pending@,
            fade: self.fade,
            lastRevealTick: self.lastRevealTick,
            revealStart: self.revealStart,
            lastReceiveTime: self.lastReceiveTime,
            totalChars: self.totalChars,
            deferredFinalize: self.deferredFinalize,
            reasoning: self.reasoning@,
            isStreaming: self.isStreaming,
            thinkingStart: self.thinkingStart,
            thinkingExpanded: self.thinkingExpanded,
            reasoningActive: self.reasoningActive,
            retryStatus: opt_text(self.retryStatus),
        }
    }
}

// ---- the permission prompt ----

/// Who asked for a permission.
#[derive(Debug)]
pub enum PermitOrigin {
    Top,
    Subagent { sessionId: String },
}

/// Who asked for a permission, as a value.
pub ghost enum OriginV {
    Top,
    Subagent(Seq<char>),
}

impl View for PermitOrigin {
    type V = OriginV;

    open spec fn view(&self) -> OriginV {
        match *self {
            PermitOrigin::Top => OriginV::Top,
            PermitOrigin::Subagent { sessionId } => OriginV::Subagent(sessionId@),
        }
    }
}

/// The permission prompt.
pub struct Permit {
    pub pending: bool,
    pub origin: Option<PermitOrigin>,
    /// The subagent popup shows the prompt, so the panel does not.
    pub suppressed: bool,
    pub toolName: String,
    pub toolSummary: String,
    pub explanation: Option<String>,
    pub impact: ShellImpact,
    /// Suggested "always allow" patterns.
    pub patterns: Vec<String>,
    /// The pattern that is chosen; one past the last is the custom one.
    pub selected: usize,
    pub custom: String,
    pub editing: bool,
    pub scrollX: u16,
}

/// A permission prompt as a value.
#[verifier::ext_equal]
pub ghost struct PermitV {
    pub pending: bool,
    pub origin: Option<OriginV>,
    pub suppressed: bool,
    pub toolName: Seq<char>,
    pub toolSummary: Seq<char>,
    pub explanation: Option<Seq<char>>,
    pub impact: ShellImpact,
    pub patterns: Seq<Seq<char>>,
    pub selected: usize,
    pub custom: Seq<char>,
    pub editing: bool,
    pub scrollX: u16,
}

/// The origin of a permission as a value.
pub open spec fn origin_view(o: Option<PermitOrigin>) -> Option<OriginV> {
    match o {
        Some(p) => Some(p@),
        None => None,
    }
}

impl View for Permit {
    type V = PermitV;

    open spec fn view(&self) -> PermitV {
        PermitV {
            pending: self.pending,
            origin: origin_view(self.origin),
            suppressed: self.suppressed,
            toolName: self.toolName@,
            toolSummary: self.toolSummary@,
            explanation: opt_text(self.explanation),
            impact: self.impact,
            patterns: texts(self.patterns@),
            selected: self.selected,
            custom: self.custom@,
            editing: self.editing,
            scrollX: self.scrollX,
        }
    }
}

// ---- tool calls ----

/// A tool call that still streams in.
#[derive(Debug)]
pub struct PendingToolCall {
    pub name: String,
    pub bytes: usize,
    /// What the call is about, once its key argument has arrived.
    pub preview: Option<String>,
}

/// A tool call that still streams in, as a value.
pub ghost struct CallV {
    pub name: Seq<char>,
    pub bytes: usize,
    pub preview: Option<Seq<char>>,
}

impl View for PendingToolCall {
    type V = CallV;

    open spec fn view(&self) -> CallV {
        CallV { name: self.name@, bytes: self.bytes, preview: opt_text(self.preview) }
    }
}

/// The calls of `v` as values.
pub open spec fn call_views(v: Seq<PendingToolCall>) -> Seq<CallV> {
    Seq::new(v.len(), |i: int| v[i]@)
}

/// The tool that runs and the tool calls that stream in.
pub struct ToolRun {
    pub active: bool,
    pub startTime: Option<u64>,
    pub calls: Vec<PendingToolCall>,
    pub callsStart: Option<u64>,
}

/// Tools as a value.
#[verifier::ext_equal]
pub ghost struct ToolsV {
    pub active: bool,
    pub startTime: Option<u64>,
    pub calls: Seq<CallV>,
    pub callsStart: Option<u64>,
}

impl View for ToolRun {
    type V = ToolsV;

    open spec fn view(&self) -> ToolsV {
        ToolsV {
            active: self.active,
            startTime: self.startTime,
            calls: call_views(self.calls@),
            callsStart: self.callsStart,
        }
    }
}

// ---- scrolling and what was drawn ----

/// How the conversation is scrolled.
#[derive(Clone, Copy, Debug, PartialEq, Eq, Structural)]
pub struct Scroll {
    /// Visual lines from the bottom.
    pub offset: u16,
    /// Content arrived while scrolled up.
    pub newContent: bool,
    /// The agent became idle while scrolled up.
    pub idle: bool,
    /// First visual line that was drawn last.
    pub lastY: u16,
    /// Width of the chat area that was drawn last.
    pub chatWidth: u16,
    /// How far the conversation could scroll when it was drawn last.
    pub maxScroll: u16,
}

/// What was drawn last, for hit tests and for copying.
pub struct Shown {
    /// Which visual lines continue the line before them.
    pub continuation: Vec<bool>,
    /// Entry and visual line of each reasoning header; no entry for the message
    /// that streams in.
    pub reasoningHeaders: Vec<(Option<usize>, usize)>,
    /// The text of each visual line.
    pub lineTexts: Vec<String>,
    /// Visual lines that are not copied.
    pub notCopied: Vec<usize>,
    pub blocks: Vec<CodeBlockRange>,
    /// Visual line of the last subagent header.
    pub subagentHeader: Option<usize>,
    /// Visual line and entry of the last subagent content border.
    pub subagentToggle: Option<(usize, usize)>,
    pub inputRect: Rect,
}

/// What was drawn last, as a value.
#[verifier::ext_equal]
pub ghost struct ShownV {
    pub continuation: Seq<bool>,
    pub reasoningHeaders: Seq<(Option<usize>, usize)>,
    pub lineTexts: Seq<Seq<char>>,
    pub notCopied: Seq<usize>,
    pub blocks: Seq<RangeV>,
    pub subagentHeader: Option<usize>,
    pub subagentToggle: Option<(usize, usize)>,
    pub inputRect: Rect,
}

impl View for Shown {
    type V = ShownV;

    open spec fn view(&self) -> ShownV {
        ShownV {
            continuation: self.continuation@,
            reasoningHeaders: self.reasoningHeaders@,
            lineTexts: texts(self.lineTexts@),
            notCopied: self.notCopied@,
            blocks: range_views(self.blocks@),
            subagentHeader: self.subagentHeader,
            subagentToggle: self.subagentToggle,
            inputRect: self.inputRect,
        }
    }
}

/// The code blocks: how they are scrolled, which are expanded and which was
/// copied last.
pub struct CodeState {
    pub scrollX: BlockMap,
    pub expanded: BlockSet,
    pub copiedFlash: Option<(BlockId, u64)>,
}

/// Code blocks as a value.
#[verifier::ext_equal]
pub ghost struct CodeV {
    pub scrollX: Map<BlockId, u16>,
    pub expanded: Set<BlockId>,
    pub copiedFlash: Option<(BlockId, u64)>,
}

impl View for CodeState {
    type V = CodeV;

    open spec fn view(&self) -> CodeV {
        CodeV {
            scrollX: self.scrollX@,
            expanded: self.expanded@,
            copiedFlash: self.copiedFlash,
        }
    }
}

// ---- the input ----

/// An image for the next message.
#[derive(Debug)]
pub struct Attachment {
    pub mimeType: String,
    pub data: Vec<u8>,
    pub label: String,
    pub rgbaDimensions: Option<(u32, u32)>,
}

/// A message with its attachments.
#[derive(Debug)]
pub struct UserInput {
    pub text: String,
    pub attachments: Vec<Attachment>,
}

/// The completion of a slash command.
pub struct CompletionState {
    pub matches: Vec<CommandDef>,
    pub selected: usize,
}

/// A completion as a value.
#[verifier::ext_equal]
pub ghost struct CompletionV {
    pub matches: Seq<CommandV>,
    pub selected: usize,
}

impl View for CompletionState {
    type V = CompletionV;

    open spec fn view(&self) -> CompletionV {
        CompletionV { matches: command_views(self.matches@), selected: self.selected }
    }
}

/// A completion as a value, where there is one.
pub open spec fn completion_view(o: Option<CompletionState>) -> Option<CompletionV> {
    match o {
        Some(c) => Some(c@),
        None => None,
    }
}

/// The input: completion, attachments, queued messages and history.
pub struct Compose {
    pub completion: Option<CompletionState>,
    pub attachments: Vec<Attachment>,
    pub queue: Vec<UserInput>,
    /// The empty input asks for a message to queue, not for one to send.
    pub queueing: bool,
    /// The separator shows what can be done about a turn that failed.
    pub errorHint: bool,
    pub history: History,
}

/// The input as a value.
#[verifier::ext_equal]
pub ghost struct ComposeV {
    pub completion: Option<CompletionV>,
    pub attachments: Seq<Attachment>,
    pub queue: Seq<UserInput>,
    pub queueing: bool,
    pub errorHint: bool,
    pub history: HistoryV,
}

impl View for Compose {
    type V = ComposeV;

    open spec fn view(&self) -> ComposeV {
        ComposeV {
            completion: completion_view(self.completion),
            attachments: self.attachments@,
            queue: self.queue@,
            queueing: self.queueing,
            errorHint: self.errorHint,
            history: self.history@,
        }
    }
}

/// When the animations advanced last.
#[derive(Clone, Copy, Debug, PartialEq, Eq, Structural)]
pub struct Ticks {
    pub throbber: u64,
    pub wakeSchedules: u64,
}

// ---- the panel ----

/// The agent panel.
pub struct AgentPanel {
    pub entries: Vec<PanelEntry>,
    pub stream: Stream,
    pub permit: Permit,
    pub tools: ToolRun,
    pub subs: Subagents,
    pub scroll: Scroll,
    pub shown: Shown,
    pub code: CodeState,
    pub compose: Compose,
    /// From a message until its turn is complete or cancelled.
    pub turnActive: bool,
    pub ticks: Ticks,
}

/// The agent panel as a value.
#[verifier::ext_equal]
pub ghost struct PanelV {
    pub entries: Seq<EntryV>,
    pub stream: StreamV,
    pub permit: PermitV,
    pub tools: ToolsV,
    pub subs: SubagentsV,
    pub scroll: Scroll,
    pub shown: ShownV,
    pub code: CodeV,
    pub compose: ComposeV,
    pub turnActive: bool,
    pub ticks: Ticks,
}

impl View for AgentPanel {
    type V = PanelV;

    open spec fn view(&self) -> PanelV {
        PanelV {
            entries: entry_views(self.entries@),
            stream: self.stream@,
            permit: self.permit@,
            tools: self.tools@,
            subs: self.subs@,
            scroll: self.scroll,
            shown: self.shown@,
            code: self.code@,
            compose: self.compose@,
            turnActive: self.turnActive,
            ticks: self.ticks,
        }
    }
}

impl PanelV {
    /// The popup shows a running subagent, the chosen pattern of a prompt is a
    /// suggestion or the custom one, and the selected completion is a match.
    pub open spec fn wf(self) -> bool {
        &&& self.subs.wf()
        &&& self.permit.pending ==> self.permit.selected <= self.permit.patterns.len()
        &&& self.compose.completion matches Some(c) ==> c.selected < c.matches.len()
        &&& self.compose.history.wf()
    }
}

/// A stream with nothing in it.
pub open spec fn quiet_stream(now: u64) -> StreamV {
    StreamV {
        content: Seq::empty(),
        pending: Seq::empty(),
        fade: FULL_FADE,
        lastRevealTick: now,
        revealStart: None,
        lastReceiveTime: now,
        totalChars: 0,
        deferredFinalize: false,
        reasoning: Seq::empty(),
        isStreaming: false,
        thinkingStart: None,
        thinkingExpanded: false,
        reasoningActive: false,
        retryStatus: None,
    }
}

/// The prompt where nothing is asked.
pub open spec fn no_permit() -> PermitV {
    PermitV {
        pending: false,
        origin: None,
        suppressed: false,
        toolName: Seq::empty(),
        toolSummary: Seq::empty(),
        explanation: None,
        impact: ShellImpact::Read,
        patterns: Seq::empty(),
        selected: 0,
        custom: Seq::empty(),
        editing: false,
        scrollX: 0,
    }
}

/// The conversation at its bottom, with nothing drawn yet.
#[verifier::allow_in_spec]
pub fn atBottom() -> Scroll
    returns
        (Scroll {
            offset: 0,
            newContent: false,
            idle: false,
            lastY: 0,
            chatWidth: 0,
            maxScroll: 0,
        }),
{
    Scroll { offset: 0, newContent: false, idle: false, lastY: 0, chatWidth: 0, maxScroll: 0 }
}

/// Nothing drawn.
pub open spec fn nothing_shown() -> ShownV {
    ShownV {
        continuation: Seq::empty(),
        reasoningHeaders: Seq::empty(),
        lineTexts: Seq::empty(),
        notCopied: Seq::empty(),
        blocks: Seq::empty(),
        subagentHeader: None,
        subagentToggle: None,
        inputRect: Rect { x: 0, y: 0, width: 0, height: 0 },
    }
}

/// A panel with nothing in it.
pub open spec fn fresh(history: HistoryV, now: u64) -> PanelV {
    PanelV {
        entries: Seq::empty(),
        stream: quiet_stream(now),
        permit: no_permit(),
        tools: ToolsV {
            active: false,
            startTime: None,
            calls: Seq::empty(),
            callsStart: None,
        },
        subs: SubagentsV { active: Seq::empty(), selected: None },
        scroll: atBottom(),
        shown: nothing_shown(),
        code: CodeV { scrollX: Map::empty(), expanded: Set::empty(), copiedFlash: None },
        compose: ComposeV {
            completion: None,
            attachments: Seq::empty(),
            queue: Seq::empty(),
            queueing: false,
            errorHint: false,
            history,
        },
        turnActive: false,
        ticks: Ticks { throbber: now, wakeSchedules: now },
    }
}

impl AgentPanel {
    /// An empty panel with the given input history.
    pub fn new(history: History, now: u64) -> (r: Self)
        ensures
            r@ == fresh(history@, now),
            history@.wf() ==> r@.wf(),
    {
        let r = AgentPanel {
            entries: Vec::new(),
            stream: Stream {
                content: String::new(),
                pending: String::new(),
                fade: FULL_FADE,
                lastRevealTick: now,
                revealStart: None,
                lastReceiveTime: now,
                totalChars: 0,
                deferredFinalize: false,
                reasoning: String::new(),
                isStreaming: false,
                thinkingStart: None,
                thinkingExpanded: false,
                reasoningActive: false,
                retryStatus: None,
            },
            permit: Permit {
                pending: false,
                origin: None,
                suppressed: false,
                toolName: String::new(),
                toolSummary: String::new(),
                explanation: None,
                impact: ShellImpact::Read,
                patterns: Vec::new(),
                selected: 0,
                custom: String::new(),
                editing: false,
                scrollX: 0,
            },
            tools: ToolRun {
                active: false,
                startTime: None,
                calls: Vec::new(),
                callsStart: None,
            },
            subs: Subagents::new(),
            scroll: atBottom(),
            shown: Shown {
                continuation: Vec::new(),
                reasoningHeaders: Vec::new(),
                lineTexts: Vec::new(),
                notCopied: Vec::new(),
                blocks: Vec::new(),
                subagentHeader: None,
                subagentToggle: None,
                inputRect: Rect { x: 0, y: 0, width: 0, height: 0 },
            },
            code: CodeState {
                scrollX: BlockMap::new(),
                expanded: BlockSet::new(),
                copiedFlash: None,
            },
            compose: Compose {
                completion: None,
                attachments: Vec::new(),
                queue: Vec::new(),
                queueing: false,
                errorHint: false,
                history,
            },
            turnActive: false,
            ticks: Ticks { throbber: now, wakeSchedules: now },
        };
        proof {
            assert(r@.entries =~= Seq::empty());
            assert(r@.stream =~= quiet_stream(now));
            assert(r@.permit =~= no_permit());
            assert(r@.tools.calls =~= Seq::empty());
            assert(r@.shown =~= nothing_shown());
            assert(r@.compose.attachments =~= Seq::empty());
        }
        r
    }
}

} // verus!
