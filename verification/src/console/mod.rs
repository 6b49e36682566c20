//! The console: commands and their registry, cvars, and console output.

pub mod cmd;
pub mod layout;
pub mod outside;
pub mod registry;
pub mod output;
