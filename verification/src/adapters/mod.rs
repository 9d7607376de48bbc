//! The logic of the adapters: browser cookie stores, cookie decryption,
//! the Kagi protocol and the page fetcher.

pub mod browser;
pub mod crypto;
pub mod kagi_http;
pub mod serp_parser;
pub mod url_fetcher;
