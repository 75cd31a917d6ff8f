//! Icon fixer for the launcher entries of the JetBrains tools.
//!
//! The crate holds the decisions of the tool and leaves every effect to its
//! caller: [`desktop`] reads and rewrites the text of a launcher entry,
//! [`config`] maps a display name to an icon, and [`app`] is the state machine
//! that drives a run, one request at a time.

pub mod app;
pub mod cli;
pub mod config;
pub mod desktop;
pub mod laws;
pub mod protocol;
pub mod text;
pub mod watch;
