//! State and layout of the full-screen terminal interface.

pub mod app;
pub mod confirm;
pub mod content;
pub mod dependencies;
pub mod envs;
pub mod file_picker;
pub mod goto;
pub mod help;
pub mod layout;
pub mod list_state;
pub mod markdown;
pub mod menu;
pub mod notification;
pub mod output;
pub mod overlay;
pub mod preview;
pub mod search;
pub mod selection;
pub mod tasks;
pub mod themes;
