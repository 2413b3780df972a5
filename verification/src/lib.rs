use vstd::prelude::*;

pub mod cli;
pub mod config;
pub mod entry;
pub mod mode;
pub mod order;
pub mod pattern;
pub mod render;
pub mod size;
pub mod text;
pub mod toml_doc;
