//! The events of a session.

use vstd::prelude::*;
use vstd::string::*;
use crate::app::replay::ChildSession;
use crate::jobs_panel::{JobId, WakeKind};
use crate::transcript::Turn;

verus! {

/// Who started a terminal.
#[derive(Clone, Copy, Debug, PartialEq, Eq, Structural)]
pub enum SpawnedBy {
    User,
    Agent,
}

/// An event of the session. Amounts of money come as they are written, and
/// `kindName` is the name that the wake plane gives to `kind`.
#[derive(Debug)]
pub enum LogEvent {
    ContentDelta(String),
    ReasoningDelta(String),
    ToolResult { name: String, output: String },
    ToolStarted { name: String, summary: String },
    ToolCallPending { index: usize, name: String },
    ToolCallProgress { index: usize, bytes: usize },
    ToolCallPreview { index: usize, preview: String },
    ToolAutoApproved { name: String, summary: String },
    ToolDenied { name: String },
    ToolAutoDenied { name: String, summary: String },
    TurnAborted { name: String },
    TurnComplete,
    TurnCancelled,
    SteerInjected { texts: Vec<String> },
    TopicChanged { label: String },
    LspHint { serverId: String, installHint: String },
    TokenUpdate { contextTokens: usize, sessionCost: String, cacheReadTokens: usize },
    Retrying { attempt: u32, maxAttempts: u32 },
    Error(String),
    BudgetWarning { sessionCost: String, limit: String },
    CompactionStarted { stage: String },
    CompactionComplete { stage: String, reduction: String, markerBlock: Option<usize> },
    Cleared,
    Rewound { targetTurnId: String },
    /// The turns come with the sessions of the subagents that they name.
    SessionRestored {
        turns: Vec<Turn>,
        children: Vec<ChildSession>,
        markers: Vec<(String, usize)>,
    },
    SubagentStarted { sessionId: String, agentType: String, prompt: String },
    SubagentEvent { sessionId: String, event: Box<LogEvent> },
    SubagentShellOutput { sessionId: String, data: Vec<u8> },
    SubagentComplete { sessionId: String, agentType: String, turns: usize, content: String },
    ScratchpadRecovered { matchedTag: String, snippet: String, recoveredChars: usize },
    JobSpawned { id: JobId, command: String },
    JobOutput { id: JobId, line: String },
    JobComplete { id: JobId, exitCode: Option<i32> },
    JobStopped { id: JobId, reason: String },
    MonitorRegistered { id: u64, description: String, filter: String },
    MonitorEvent { id: u64, line: String, eventCount: u64 },
    MonitorAutoStopped { id: u64, reason: String },
    MonitorStopped { id: u64 },
    TerminalSpawned { name: String, spawnedBy: SpawnedBy },
    TerminalClosed { name: String },
    TerminalActiveForAgent { name: String },
    TerminalRenamed { from: String, to: String },
    WakeBatchInjected { count: usize, summary: String },
    AutoBgWarning { command: String, elapsedSecs: u64, userTriggered: bool },
    WakeRegistered {
        id: u64,
        kind: WakeKind,
        kindName: String,
        summary: String,
        prompt: Option<String>,
        nextFireAt: Option<u64>,
    },
    WakeDisarmed { id: u64 },
}

} // verus!
