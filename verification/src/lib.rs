//! Verified core logic of the Richter Quake client: console registry and
//! output, menus, string tables, palettes and the decisions that drive them.

pub mod capture;
pub mod client;
pub mod console;
pub mod menu;
pub mod particle;
pub mod progs;
pub mod text;
pub mod render;
pub mod sound;
pub mod startup;
