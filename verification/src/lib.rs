//! The decisions of a bridge that serves code intelligence to a tool-calling client by
//! driving a language server: which symbols answer a search, what is known of a symbol,
//! how the server's packed tokens are read, when the server is ready, and what the ends
//! of background tasks add up to.
//!
//! The library reads no file, starts no process and speaks no protocol. Its caller does,
//! hands in plain values and acts on the plain values it gets back. Every function is
//! verified against its contract, but for a handful of small private wrappers: each of
//! them makes one call into another crate or the standard library and says above its
//! header what is taken on trust.

pub mod error;
pub mod info;
pub mod init;
pub mod intercept;
pub mod lang;
pub mod lines;
pub mod location;
pub mod orchestrate;
pub mod progress;
pub mod search;
pub mod symbols;
pub mod tasks;
pub mod text;
pub mod tokens;
