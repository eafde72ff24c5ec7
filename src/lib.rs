//! Extraction support for archives whose entries carry QDOS file metadata:
//! decoding of the QDOS header found in an entry's extra field, encoding of
//! the emulator file prefix, filename escaping, and the per-entry decisions.

pub mod escape;
pub mod extract;
pub mod header;
mod text;
