//! Decision logic of the chumby panel supervisor: when to restart the
//! player, how to space crash restarts and chumby.com probes, and the small
//! parsers the supervisor needs. Time is injected as monotonic milliseconds.

pub mod args;
pub mod child;
pub mod config;
pub mod history;
pub mod laws;
pub mod nm;
pub mod policy;
pub mod probe;
pub mod route;
pub mod supervisor;
