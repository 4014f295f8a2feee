//! Credential rotation for a proxy in front of a conversational API.
//!
//! The crate holds the three pieces of the proxy that decide rather than
//! transmit: the pool of account credentials ([`services::cookie_manager`]),
//! the cache of prepared responses ([`services::cache`]) and the retrying
//! exchange built on both ([`claude_state`]). Each is plain data with
//! verified transitions; the program around them performs the I/O that a
//! transition asks for and reports back what happened.
pub mod config;
pub mod error;
pub mod seq_facts;
pub mod services;
pub mod claude_state;
