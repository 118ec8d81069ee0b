//! Feature flags (chunk `FEAT`): the names of the features a game uses.

use vstd::prelude::*;
use crate::builder::{lemma_extends_trans, lemma_prefix_extends, DataBuilder};
use crate::bytes::{spec_u32_at, u32_le_bytes};
use crate::element::{GMChunkElement, GMElement};
use crate::lists::{placeholders, string_list_readable};
use crate::reader::{align_pad, DataReader};
use crate::refs::GMRef;
use crate::resources::string_at;

verus! {

/// The feature flags of a data file.
pub struct GMFeatureFlags {
    pub feature_flags: Vec<GMRef<String>>,
    pub exists: bool,
}

/// `values` is what the list of strings (a 32-bit count, then a position word per string)
/// at the reader's position holds; `after` is the reader past it.
pub open spec fn string_list_read<'a>(before: DataReader<'a>, after: DataReader<'a>, values: Seq<GMRef<String>>) -> bool {
    &&& before.can_read(4 + 4 * values.len() as int)
    &&& values.len() == spec_u32_at(before.data@, before.cur_pos as int)
    &&& after == before.moved(before.cur_pos + 4 + 4 * values.len())
    &&& forall|k: int| 0 <= k < values.len() ==> string_at(before, before.cur_pos + 4 + 4 * k) == Some(#[trigger] values[k])
}

impl GMChunkElement for GMFeatureFlags {
    fn empty() -> (r: GMFeatureFlags)
        ensures
            !r.exists,
            r.feature_flags@.len() == 0,
    {
        GMFeatureFlags { feature_flags: Vec::new(), exists: false }
    }

    fn chunk_exists(&self) -> (r: bool)
        ensures
            r == self.exists,
    {
        self.exists
    }
}

impl GMElement for GMFeatureFlags {
    open spec fn readable<'a>(before: DataReader<'a>) -> bool {
        before.zero_padded(4) && string_list_readable(before.aligned(4))
    }

    open spec fn read_end<'a>(before: DataReader<'a>) -> int {
        before.aligned(4).cur_pos + 4 + 4 * before.aligned(4).word()
    }

    open spec fn writable(&self, before: DataBuilder) -> bool {
        &&& self.feature_flags@.len() <= u32::MAX
        &&& before.bytes@.len() + align_pad(before.bytes@.len() as int, 4) + 4 * self.feature_flags@.len() <= u32::MAX
    }

    open spec fn written(&self, before: DataBuilder, after: DataBuilder) -> bool {
        after.bytes@ == before.bytes@ + Seq::new(align_pad(before.bytes@.len() as int, 4) as nat, |i: int| 0u8)
            + u32_le_bytes(self.feature_flags@.len() as u32) + placeholders(self.feature_flags@.len())
    }

    open spec fn deserialized<'a>(before: DataReader<'a>, after: DataReader<'a>, value: GMFeatureFlags) -> bool {
        &&& value.exists
        &&& before.zero_padded(4)
        &&& string_list_read(before.aligned(4), after, value.feature_flags@)
    }

    fn deserialize(reader: &mut DataReader) -> (r: Result<GMFeatureFlags, String>) {
        reader.align(4)?;
        let feature_flags = reader.read_simple_list_of_strings()?;
        Ok(GMFeatureFlags { feature_flags, exists: true })
    }

    fn serialize(&self, builder: &mut DataBuilder) -> (r: Result<(), String>) {
        builder.align(4);
        let ghost mid = *builder;
        proof {
            lemma_prefix_extends(*old(builder), mid);
        }
        let res = builder.write_simple_list_of_strings(&self.feature_flags);
        proof {
            lemma_extends_trans(*old(builder), mid, *builder);
        }
        res
    }
}

} // verus!
