//! Codec for a length-prefixed, flag-driven binary database protocol:
//! frames, query parameters and the values they carry.

pub mod compression;
pub mod consistency;
pub mod cursor;
pub mod endian;
pub mod error;
pub mod frame;
pub mod query;
pub mod types;
pub mod value;
