//! Small helpers shared by the other modules.

pub mod bytes;
pub mod decimal;
pub mod encoding;
pub mod secret;
pub mod time;
pub mod validation;
