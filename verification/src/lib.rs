//! A Twitch chat bot's logic: its configuration, the registry and parsing of
//! chat commands, the reaction to EventSub messages, the OAuth token flow,
//! the Helix requests it sends, the plugin file filter and the user-id cache.
//! The I/O around it (HTTP, websockets, files, dynamic libraries) lives in
//! the program under `app/`.

pub mod text;
pub mod errors;
pub mod config;
pub mod commands;
pub mod bot;
pub mod auth;
pub mod api;
pub mod plugins;
pub mod user_cache;
