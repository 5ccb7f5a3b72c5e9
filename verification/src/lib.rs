//! Decision core of a tabbed terminal workspace host.

pub mod app_config;
pub mod float_bits;
pub mod float_laws;
pub mod float_ops;
pub mod json;
pub mod paths;
pub mod settings_editor;
pub mod split_tree;
pub mod terminal;
pub mod text;
pub mod window;
