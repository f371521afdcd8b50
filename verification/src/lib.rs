//! The core of a chat bot that answers commands: reading a message as a
//! command invocation, the table that binds command names and aliases to
//! handlers, and the dispatcher that brings the two together.
//!
//! Nothing in this crate talks to a chat service. It is handed the text of a
//! message and says what is to be run or sent.

pub mod commands;
pub mod dispatch;
pub mod invocation;
pub mod number;
pub mod registry;
mod text;
pub mod utils;

pub use dispatch::{handle_command, step, Action, Call, Event, State};
pub use invocation::{parse_invocation, Args, Invocation};
pub use registry::{Command, Commands, Duplicate};
