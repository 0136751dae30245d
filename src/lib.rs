//! A seed registry's core: it reassembles a gzip-compressed tar payload
//! from chunk files and checks it against its SHA-256 digest, then answers
//! a read-only subset of the OCI distribution API from the image layout the
//! payload unpacks to.
//!
//! - `payload`, `order`, `digest`, `archive`: reassembly, digest check,
//!   decompression and the safety of archive entry paths.
//! - `route`, `layout`, `json`, `reply`: request routing, resolution of tags
//!   through `index.json`, and the replies, with the laws they keep.
//! - `text`: character and decimal helpers.

pub mod archive;
pub mod digest;
pub mod json;
pub mod layout;
pub mod order;
pub mod payload;
pub mod reply;
pub mod route;
pub mod text;
