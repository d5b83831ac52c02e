//! Verified core of a Markdown runbook runner: dependency scheduling, layout,
//! selection, search and editing state for its terminal and command-line
//! front ends.

pub mod captures;
pub mod cli;
pub mod code;
pub mod config;
pub mod exec;
pub mod highlight;
pub mod navigation;
pub mod num;
pub mod picker;
pub mod rect;
pub mod scheduler;
pub mod seqs;
pub mod style;
pub mod task;
pub mod text;
pub mod theme;
pub mod theme_library;
pub mod tui;
