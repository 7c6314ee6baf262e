//! Dims the monitors on which no window shows, and returns them to their
//! earlier brightness when one does.
//!
//! The library decides; it does not talk to the operating system. Where a
//! decision needs an answer from outside, it says what is to be asked and is
//! resumed with the answer: see `target` for a conversation with a monitor,
//! `enumeration` for the search for displays, `inspection` for that for
//! windows, and `state` for all of it together.

pub mod brightness;
pub mod commands;
pub mod diagnostics;
pub mod discovery;
pub mod display;
pub mod enumeration;
pub mod events;
pub mod geometry;
pub mod inspection;
pub mod laws;
pub mod ledger;
pub mod manager;
pub mod messages;
pub mod outcome;
pub mod settings;
pub mod snapshot;
pub mod state;
pub mod target;
pub mod text;
pub mod tracking;
pub mod utf16;
