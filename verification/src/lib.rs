//! A verified codec for ID3 metadata tags on MP3 files.
//!
//! The crate decodes ID3v2 tags from the front of a byte source, falls back
//! to the fixed 128-byte ID3v1 trailer when no ID3v2 marker is present,
//! serialises tags back to ID3v2.4 bytes, and maps legacy ID3v1 fields onto
//! the ID3v2.4 frame model.

pub mod bridge;
pub mod bytes;
pub mod cli;
pub mod commands;
pub mod resolve;
pub mod synch;
pub mod tag;
pub mod v1;
pub mod v2;
