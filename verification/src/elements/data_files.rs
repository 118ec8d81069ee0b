//! Data files (chunk `DAFL`), which hold nothing that is read.

use vstd::prelude::*;
use crate::builder::{lemma_extends_refl, DataBuilder};
use crate::element::{GMChunkElement, GMElement};
use crate::reader::DataReader;

verus! {

/// The data files chunk: only whether it exists.
pub struct GMDataFiles {
    pub exists: bool,
}

impl GMDataFiles {
    /// The chunk as it is when the data file has none.
    pub fn stub() -> (r: Self)
        ensures
            !r.exists,
    {
        GMDataFiles { exists: false }
    }
}

impl GMChunkElement for GMDataFiles {
    fn empty() -> (r: GMDataFiles)
        ensures
            !r.exists,
    {
        GMDataFiles { exists: false }
    }

    fn chunk_exists(&self) -> (r: bool)
        ensures
            r == self.exists,
    {
        self.exists
    }
}

impl GMElement for GMDataFiles {
    open spec fn readable<'a>(before: DataReader<'a>) -> bool {
        true
    }

    open spec fn read_end<'a>(before: DataReader<'a>) -> int {
        before.cur_pos as int
    }

    open spec fn writable(&self, before: DataBuilder) -> bool {
        true
    }

    open spec fn written(&self, before: DataBuilder, after: DataBuilder) -> bool {
        after == before
    }

    open spec fn deserialized<'a>(before: DataReader<'a>, after: DataReader<'a>, value: GMDataFiles) -> bool {
        value.exists && after == before
    }

    fn deserialize(reader: &mut DataReader) -> (r: Result<GMDataFiles, String>)
        ensures
            r is Ok,
    {
        Ok(GMDataFiles { exists: true })
    }

    fn serialize(&self, builder: &mut DataBuilder) -> (r: Result<(), String>)
        ensures
            r is Ok && *final(builder) == *old(builder),
    {
        proof {
            lemma_extends_refl(*builder);
        }
        Ok(())
    }
}

} // verus!
