//! Core of a long-polling notification bot: a deduplicated subscriber
//! store, a daily wall-clock trigger, and a cancellable poll-merge loop
//! that turns an offset-based fetch API plus synthetic schedule-driven
//! events into one ordered, resumable stream.

pub mod dispatch;
pub mod listener;
pub mod run;
pub mod settings;
pub mod trigger;
