//! State and output of the command-line front end.

pub mod app;
pub mod choice;
pub mod handover;
pub mod keys;
pub mod line_counter;
pub mod output;
pub mod plain;
pub mod render;
pub mod shown;
pub mod unattended;
