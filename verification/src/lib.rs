//! Streaming multipart upload engine for S3-compatible object storage.
//!
//! The engine reads a byte stream incrementally, accumulates bytes into parts,
//! and decides between a single-shot PUT and a bounded-concurrency multipart
//! upload. All decision logic lives here and is verified; an unverified driver
//! performs the actual network transfers and feeds results back as plain data.

pub mod chunker;
pub mod config;
pub mod counter;
pub mod error;
pub mod gate;
pub mod manager;
pub mod orchestrator;
pub mod parts;

use vstd::prelude::*;

verus! {

/// Represents an ETag used for multi-part uploads: the backend's opaque
/// integrity tag for one part, together with the part number it was
/// uploaded under.
pub struct ETag {
    pub e_tag: String,
    pub part_number: usize,
}

} // verus!
