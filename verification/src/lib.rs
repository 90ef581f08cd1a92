//! A clipboard history manager's core: its data model, the rules that decide
//! what is captured, deduplicated, searched and pasted, and the wire
//! protocol spoken between the daemon and its clients.
pub mod text;
pub mod errors;
pub mod json;
pub mod clock;
pub mod hashing;
pub mod mime;
pub mod models;
pub mod config;
pub mod search;
pub mod store;
pub mod retention;
pub mod fts;
pub mod hotkeys;
pub mod gsettings_hotkey;
pub mod clipboard;
pub mod diagnostics;
pub mod x11;
pub mod keymap;
pub mod focus;
pub mod paste;
pub mod wayland;
pub mod protocol;
pub mod services;
pub mod ingest;
pub mod commands;
pub mod server;
pub mod auth;
pub mod ui;
pub mod daemon;
pub mod client;
