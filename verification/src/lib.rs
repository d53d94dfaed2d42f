//! Discord Rich Presence for Simkl: the decisions behind the presence that is shown.
//!
//! Everything here works on plain values. Sending requests, talking to Discord,
//! reading files and drawing the tray are left to the application around it.

pub mod cache;
pub mod clock;
pub mod config;
pub mod dashboard;
pub mod discord;
pub mod icon;
pub mod json;
pub mod number;
pub mod page;
pub mod pin;
pub mod playback;
pub mod poll;
pub mod retry;
pub mod simkl;
pub mod state;
pub mod text;
pub mod tray;
pub mod version;
