//! Resolves which application holds input focus on a GNOME session.
pub mod window;
pub mod payload;
pub mod cascade;
pub mod client;
pub mod config;
