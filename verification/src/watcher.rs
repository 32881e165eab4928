//! The watcher side: producers of normalized change events.

pub mod base;
pub mod debounce;
pub mod emptywatcher;
pub mod filewatcher;
