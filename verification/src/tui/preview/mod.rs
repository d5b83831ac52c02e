//! The preview of a document.

pub mod frame;
pub mod images;
pub mod interact;
pub mod layout_lines;
pub mod open;
pub mod pane;
pub mod place_law;
pub mod reading_law;
pub mod rebuild;
pub mod relayout;
pub mod rows;
pub mod search;
pub mod selection;
pub mod visual_lines;
