//! An in-memory key-value store speaking a Redis-style wire protocol.
//!
//! Three subsystems make up the core: the wire-protocol framer
//! ([`protocol`]), turning a byte stream into structured frames and back,
//! byte-exactly; the command layer ([`command`]), mapping a parsed request
//! through a registry to a typed, validated command; and the storage model
//! ([`object`], [`sds`], [`database`]), a tagged value representation with a
//! small-string optimization over a concurrent map with lazy per-key
//! expiration.

pub mod ascii;
pub mod command;
pub mod config;
pub mod database;
pub mod decimal;
pub mod errors;
pub mod object;
pub mod protocol;
pub mod sds;
