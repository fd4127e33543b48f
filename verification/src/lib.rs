//! Credentials for SSH sessions: which encrypted artifact answers for a
//! login on a remote, how the secret codec reads and writes one, and how an
//! interactive session is relayed.
//!
//! The library decides and does not act. It never touches a file, a process,
//! the terminal or the network: whoever uses it does that, and tells the
//! library what happened.

pub mod cli;
pub mod config;
pub mod connect;
pub mod encryption;
pub mod error;
pub mod ssh;
pub mod store;
pub mod text;
