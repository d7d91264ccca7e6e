//! The state of a client outside its cryptographic core.

pub mod app;
pub mod contacts;
pub mod conversations;
