//! The main window: its workspaces, and what it answers to commands, shortcuts
//! and notifications.
pub mod appearance;
pub mod control;
pub mod css;
pub mod folder;
pub mod focus;
pub mod handles;
pub mod notifications;
pub mod panes;
pub mod payload;
pub mod rows;
pub mod session;
pub mod setup;
pub mod shortcuts;
pub mod sidebar;
pub mod targets;
pub mod workspaces;
