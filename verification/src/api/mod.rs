//! The interface of the core to its users.

pub mod crypto;
pub mod messaging;
