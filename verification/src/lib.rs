//! Ephemeral chat rooms for live sessions: the rooms, the protocol their
//! clients speak, and the event log they are rebuilt from, all as plain data
//! with proved contracts. Sockets, channels, timers and the database live in
//! the server around this library.

pub mod assets;
pub mod auth;
pub mod calls;
pub mod config;
pub mod consistency;
pub mod db;
pub mod doors;
pub mod event;
pub mod formats;
pub mod frames;
pub mod handlers;
pub mod json;
pub mod laws;
pub mod list;
pub mod outside;
pub mod recovery;
pub mod replaying;
pub mod socket;
pub mod state;
pub mod table;
pub mod text;
pub mod wire;
pub mod ws;
