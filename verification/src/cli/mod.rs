//! The command line: its commands, and the decisions its handlers take.

pub mod cmd;
pub mod handlers;
pub mod compact;
pub mod commands;
