//! The use cases wired against the browsers and Kagi.

pub mod discovery;
