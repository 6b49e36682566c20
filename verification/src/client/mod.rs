//! The client: input focus, console commands, and the decisions of the
//! connection to a server or demo.

pub mod commands;
pub mod connection;
pub mod input;
