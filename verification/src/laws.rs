//! What holds of the library along every run, stated and proved.

pub mod cache;
pub mod events;
pub mod search;
pub mod snapshot;
