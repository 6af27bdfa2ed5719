//! Host-facing buffer types for mesh and volume data.

use vstd::prelude::*;

verus! {

/// A typed byte buffer owned by the core (label and byte length only).
#[derive(Debug, Clone)]
pub struct Buffer {
    pub label: String,
    pub byte_len: usize,
}

impl Buffer {
    /// An empty buffer carrying the given label.
    pub fn empty(label: String) -> (b: Buffer)
        ensures
            b.label@ == label@,
            b.byte_len == 0,
    {
        Buffer { label, byte_len: 0 }
    }
}

} // verus!
