//! Streaming decoder and explode pipeline for pack archives: files that hold
//! many zlib-compressed, optionally delta-encoded objects behind a 12-byte
//! header and a trailing checksum.
//!
//! The crate decodes such archives entry by entry, resolves delta chains with
//! the help of a companion index, recomputes each object's content identity
//! and compares it against the identity the index expects.

pub mod decode;
pub mod delta;
pub mod explode;
pub mod entry;
pub mod hash;
pub mod iter;
pub mod safety;
pub mod tree;
pub mod zlib;
