//! Chunks: the named, bounded sections of a data file.

use vstd::prelude::*;

verus! {

/// A named section of the data file, with its byte bounds.
#[derive(Debug)]
pub struct GMChunk {
    pub name: String,
    pub start_pos: u32,
    pub end_pos: u32,
    pub is_last_chunk: bool,
}

impl Clone for GMChunk {
    fn clone(&self) -> (r: Self)
        ensures
            r == *self,
    {
        GMChunk {
            name: self.name.clone(),
            start_pos: self.start_pos,
            end_pos: self.end_pos,
            is_last_chunk: self.is_last_chunk,
        }
    }
}

impl GMChunk {
    /// Whether the chunk holds no bytes.
    pub fn is_empty(&self) -> (r: bool)
        ensures
            r == (self.start_pos == self.end_pos),
    {
        self.start_pos == self.end_pos
    }
}

} // verus!
