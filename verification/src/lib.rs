//! A keyboard-driven todo list: projects stored as Markdown files, each holding
//! a heading and a list of checkbox items, and the key handling that edits them.

pub mod text;
pub mod clock;
pub mod paths;
pub mod config;
pub mod models;
pub mod markdown;
pub mod names;
pub mod storage;
pub mod ui;
pub mod screen;
