//! Reading-state logic of a terminal e-book reader: the library view with its
//! filter and sort, list selection, command parsing and completion, in-chapter
//! search, reading statistics, preferences and the key-driven state machine.

pub mod config;
pub mod text;
pub mod model;
pub mod app;
pub mod command;
pub mod events;
pub mod keys;
pub mod laws;
pub mod layout;
pub mod paths;
