//! Tracks which roles each invite link grants and how often it has been used.

pub mod cache;
pub mod directory;
pub mod editor;
pub mod events;
pub mod history;
pub mod join;
pub mod reconcile;
pub mod record;
pub mod report;
pub mod roles;
pub mod search;
pub mod startup;
pub mod store;
