//! Headless terminal host: the verified core.
//!
//! The crate holds the rules of a terminal host that drives a child process
//! through a pseudo-terminal: how key names become byte sequences, how control
//! requests become commands, how the session keeps its clock and announces
//! what happened, and what the coordination loop and the terminal driver
//! decide at each step.
pub mod api;
pub mod cli;
pub mod command;
pub mod hub;
pub mod json;
pub mod keys;
pub mod nbio;
pub mod protocol;
pub mod pty;
pub mod session;
pub mod text;
pub mod vt;
