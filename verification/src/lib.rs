//! Memory and agent diagnostics: a worker that pushes them to a host's home pane, and a strip that
//! shows them in a terminal.
//!
//! The modules [`json`] and [`terminal`] hold the calls into outside crates, and what is assumed
//! of each; [`history`] holds one into the standard library. Everything else is proved from that.
pub mod history;
pub mod json;
pub mod metrics;
pub mod plugin;
pub mod strip;
pub mod terminal;
pub mod text;
pub mod worker;
