//! Verified core of a hotkey utility: key-combination parsing, the decisions
//! of the hotkey and window-hook listeners, and the dispatcher's state machine.

pub mod autostart;
pub mod common;
pub mod config;
pub mod dispatcher;
pub mod event;
pub mod hotkey;
pub mod message;
pub mod text;
pub mod window;

pub use message::Message;
