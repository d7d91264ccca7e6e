//! The protocol between client and server: its messages and their checks.

pub mod messages;
pub mod validation;
