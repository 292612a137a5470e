//! The recorded turns of a session, as far as the panels and the export read
//! them.

use vstd::prelude::*;
use vstd::string::*;

verus! {

/// Who a turn belongs to.
#[derive(Clone, Copy, Debug, PartialEq, Eq, Structural)]
pub enum TurnRole {
    User,
    Assistant,
    System,
    ToolCall,
    ToolResult,
    /// A turn that a wake caused.
    Wake,
}

/// How a turn ended.
#[derive(Clone, Copy, Debug, PartialEq, Eq, Structural)]
pub enum TurnStatus {
    Completed,
    Cancelled,
}

/// A recorded turn. `args` is the JSON text of a tool call's arguments.
#[derive(Clone, Debug)]
pub struct Turn {
    pub id: String,
    pub blockId: String,
    pub role: TurnRole,
    pub content: String,
    pub tool: Option<String>,
    pub args: Option<String>,
    pub toolCallId: Option<String>,
    pub reasoning: Option<String>,
    pub attachments: usize,
    pub snapshotHash: Option<String>,
    pub status: TurnStatus,
}

} // verus!
