//! A small in-memory key/value cache: the wire format of its messages, the
//! least-recently-used store that answers them, and the service stack that
//! counts what it has answered.
//!
//! The functions here are verified against the contracts written above
//! them. The contracts are stated over plain mathematical values: a message
//! is viewed as a [`message::MessageView`], a frame as a sequence of bytes,
//! and the store as a sequence of entries ordered from the least to the most
//! recently used.
//!
//! Two things come from other crates and are not verified: the byte buffer
//! ([`buffer`], over `bytes`) and the store ([`store`], over `lru-cache`).
//! Each call into them, and the one into `String::from_utf8`, stands in a
//! small function of its own whose contract is taken on trust and says what
//! it claims.
pub mod error;
pub mod message;
pub mod bigendian;
pub mod buffer;
pub mod codec;
pub mod store;
pub mod cache;
pub mod text;
pub mod stats;
pub mod service;
pub mod cli;
