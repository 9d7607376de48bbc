//! Verified core of an MCP server that searches Kagi with a session token
//! discovered from the user's installed browsers.

pub mod domain;
pub mod html;
pub mod num;
pub mod text;
pub mod adapters;
pub mod app;
pub mod mcp;
