//! The terminal interface.

pub mod actions;
pub mod dialogs;
pub mod events;
pub mod flow;
pub mod footer;
pub mod handover;
pub mod input;
pub mod life_law;
pub mod open;
pub mod render;
pub mod resize;
pub mod stream;
pub mod tick;
pub mod use_law;
