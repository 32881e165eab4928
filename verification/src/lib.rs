//! Verified core of a directory-mirroring agent.
//!
//! The agent watches a local directory tree and mirrors each change to a
//! remote host: normalized change events are classified, debounced and
//! filtered on the watcher side, then translated into idempotent remote
//! operations (upload, move, recursive delete) on the doer side.
//!
//! This crate holds the logic that carries the design risk — path
//! remapping, event normalization, the event wire format, and remote
//! action planning — with machine-checked contracts. The I/O shells
//! (filesystem notification, SSH transport, SMTP, configuration files)
//! live outside the library and hand it plain values.

pub mod config;
pub mod doer;
pub mod event;
pub mod paths;
pub mod text;
pub mod watcher;
pub mod wire;
