//! A small password manager: an in-memory store of passwords keyed by
//! site and user, its byte encoding, the configuration that holds the
//! database location and the encryption key, and a password generator.

pub mod codec;
pub mod config;
pub mod error;
pub mod outside;
pub mod password;
pub mod store;

pub use config::Config;
pub use error::{Error, ErrorKind};
pub use password::genpass;
pub use store::PassMan;
