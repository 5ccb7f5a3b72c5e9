//! Terminal surfaces: what the host decides between the toolkit and the terminal
//! library.
pub mod action;
pub mod clipboard;
pub mod cursor;
pub mod handle;
pub mod keys;
pub mod menu;
pub mod shell;
pub mod surface;
pub mod widget;
