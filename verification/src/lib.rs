//! A live model of a window manager's workspaces and windows.
//!
//! The model is folded from the window manager's change events, one event at
//! a time, and rendered as an ordered list of workspaces, each carrying its
//! windows and their icons.

pub mod desktop;
pub mod icon;
pub mod laws;
pub mod model;
pub mod order;
pub mod search;
pub mod snapshot;
pub mod state;
pub mod table;
pub mod text;

pub use icon::IconCache;
pub use snapshot::{Window, Workspace};
pub use state::State;
