//! The doer side: consumers of normalized change events.

pub mod base;
pub mod emailsender;
pub mod emptydoer;
pub mod remotesync;
