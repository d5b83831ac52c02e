//! Markdown as lines of the terminal.

pub mod ast;
pub mod document;
pub mod inline;
pub mod known;
pub mod line;
pub mod marks;
pub mod markup;
pub mod paint;
pub mod render;
pub mod shown_law;
pub mod slice;
pub mod source_law;
pub mod table;
pub mod table_law;
pub mod visual;
pub mod visual_law;
