//! The panel of the conversation: its entries, what streams in, its prompts, and how
//! all of it is shown.

pub mod blocks;
pub mod entry;
pub mod labels;
pub mod subagents;
pub mod state;
pub mod events;
pub mod prompts;
pub mod scrolling;
pub mod laws;
pub mod call_laws;
pub mod turn_laws;
pub mod view_laws;
pub mod shown_laws;
pub mod rows;
pub mod entry_rows;
pub mod boxes;
pub mod subagent_rows;
pub mod fade;
pub mod conversation;
pub mod selecting;
pub mod permit_rows;
pub mod painting;
pub mod render;
