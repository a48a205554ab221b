//! Keystroke buffering and dispatch.
//!
//! Key-press events are formatted into newline-terminated records, collected
//! in a bounded buffer, and handed to a sink as one payload each time the
//! buffer reaches its threshold.
pub mod dispatch;
pub mod event;
pub mod laws;
pub mod sink;

pub use dispatch::Dispatcher;
pub use event::InputEvent;
pub use sink::{FileLogger, Log, LogError};
