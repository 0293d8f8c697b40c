//! Core logic of a dead-man's-switch notifier.
//!
//! The library covers the two stateful parts of the notifier: the
//! interactive authentication state machine that must complete before any
//! messaging operation, and the per-recipient heartbeat scheduler that sends
//! a scheduled alert and keeps re-arming it.  Network transport, terminal
//! prompts and file handling are left to the surrounding program, which
//! drives these state machines and performs the actions they request.

pub mod auth;
pub mod bot;
pub mod config;
pub mod constants;
pub mod text;
