//! The GUI's state and messages, and the decisions it takes on each
//! message; rendering and running the tasks is left to the caller.

pub mod handlers;
pub mod message;
pub mod state;
pub mod update;
pub mod view;
