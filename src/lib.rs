//! Parameter derivation, hashing invocation and report rendering for an
//! Argon2 command-line hasher.

pub mod args;
pub mod config;
pub mod harness;
pub mod hashing;
pub mod password;
pub mod pipeline;
pub mod report;
