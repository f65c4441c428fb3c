//! Decision logic of a process-module and kernel-driver lister.
//!
//! The operating system is queried by the caller. This crate decides which
//! query comes next, interprets each answer and lays out the text that is
//! reported.

pub mod cli;
pub mod decimal;
pub mod drivers;
pub mod modules;
pub mod path;
pub mod protocol;
pub mod report;
pub mod session;
pub mod text;
pub mod wide;
