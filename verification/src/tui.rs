//! The terminal interface: its state, and how keys, the mouse and answers of the daemon change
//! it. What is drawn is computed here; drawing it is left to the program.

pub mod add_form;
pub mod app_state;
pub mod cells;
pub mod columns;
pub mod control_laws;
pub mod feeds;
pub mod files;
pub mod filters;
pub mod key_laws;
pub mod keys;
pub mod list_layout;
pub mod main_view;
pub mod mouse;
pub mod overlays;
pub mod page_laws;
pub mod priority;
pub mod prompt;
pub mod replies;
pub mod schema;
pub mod screen_laws;
pub mod selection;
pub mod setting_laws;
pub mod settings;
pub mod settings_lines;
pub mod shown_laws;
pub mod tree;
