//! A codec for length-prefixed, type-tagged, checksum-verified chunks in the
//! layout of PNG: `[length:4][type:4][data:length][crc:4]`, integers big-endian.
//!
//! Every function states its behaviour over `Seq<u8>` models of the values it
//! handles, and Verus proves the stated behaviour.

pub mod checksum;
pub mod chunk;
pub mod chunk_type;
pub mod text;
