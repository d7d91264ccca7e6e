//! What is handed to and taken from storage.

pub mod models;
