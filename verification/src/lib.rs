//! A small password manager: secrets kept in a store keyed by a content
//! hash, a command-line parser, and an encrypted vault of entries.

pub mod secret;
pub mod words;
pub mod parser;
pub mod hashing;
pub mod clock;
pub mod search;
pub mod store;
pub mod error;
pub mod encoding;
pub mod crypto;
pub mod entry;
pub mod vault;
pub mod cli;
pub mod laws;
