//! The decisions of a BitTorrent client with a daemon and a terminal interface.

pub mod answers;
pub mod autostart;
pub mod autostart_laws;
pub mod background;
pub mod binary64;
pub mod bridge;
pub mod categories;
pub mod cli;
pub mod config;
pub mod config_keys;
pub mod config_laws;
pub mod daemon;
pub mod display;
pub mod display_laws;
pub mod feed_laws;
pub mod folders;
pub mod handle;
pub mod integers;
pub mod ipc;
pub mod layout;
pub mod listing;
pub mod names;
pub mod network;
pub mod order;
pub mod paths;
pub mod rename;
pub mod requests;
pub mod rss;
pub mod running;
pub mod server;
pub mod session;
pub mod sources;
pub mod start_laws;
pub mod text;
pub mod text_laws;
pub mod textfield;
pub mod tui;
pub mod typing_laws;
