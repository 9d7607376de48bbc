//! The tool surface: arguments, payloads and their translation.

pub mod schema;
pub mod tools;
