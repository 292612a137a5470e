//! What the deck does as events come in: the title of the window, the status bar,
//! keys and the mouse, the events of the session and its requests.

pub mod arrangement;
pub mod call_laws;
pub mod composing;
pub mod deck;
pub mod desk;
pub mod effect;
pub mod event;
pub mod event_laws;
pub mod frame;
pub mod help;
pub mod handling;
pub mod mouse;
pub mod pace;
pub mod input_laws;
pub mod invariants;
pub mod keyboard;
pub mod laws;
pub mod models;
pub mod prompt_laws;
pub mod replay;
pub mod replay_laws;
pub mod request;
pub mod screen;
pub mod screen_laws;
pub mod session;
pub mod session_laws;
pub mod status_bar;
pub mod terminal_input;
pub mod title;
pub mod updates;
