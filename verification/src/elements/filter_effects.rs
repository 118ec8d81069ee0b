//! Filter effects (chunk `FEDS`).

use vstd::prelude::*;
use crate::builder::{i32_bytes, lemma_extends_trans, lemma_prefix_extends, ref_placeholder, DataBuilder};
use crate::bytes::spec_u32_at;
use crate::element::{GMChunkElement, GMElement};
use crate::lists::{elements_fit, pointer_list_fits, pointer_list_written, pointer_list_end, pointer_list_read, pointer_list_readable};
use crate::reader::{align_pad, DataReader};
use crate::refs::GMRef;
use crate::resources::string_at;

verus! {

/// The filter effects of a data file.
pub struct GMFilterEffects {
    pub filter_effects: Vec<GMFilterEffect>,
    pub exists: bool,
}

/// A filter effect: a name and its value.
pub struct GMFilterEffect {
    pub name: GMRef<String>,
    pub value: GMRef<String>,
}

impl GMElement for GMFilterEffect {
    open spec fn readable<'a>(before: DataReader<'a>) -> bool {
        let p = before.cur_pos as int;
        before.can_read(8) && string_at(before, p) is Some && string_at(before, p + 4) is Some
    }

    open spec fn read_end<'a>(before: DataReader<'a>) -> int {
        before.cur_pos + 8
    }

    open spec fn writable(&self, before: DataBuilder) -> bool {
        before.bytes@.len() + 4 <= u32::MAX
    }

    open spec fn written(&self, before: DataBuilder, after: DataBuilder) -> bool {
        after.bytes@ == before.bytes@ + ref_placeholder() + ref_placeholder()
    }

    open spec fn deserialized<'a>(before: DataReader<'a>, after: DataReader<'a>, value: GMFilterEffect) -> bool {
        &&& before.can_read(8)
        &&& after == before.moved(before.cur_pos + 8)
        &&& string_at(before, before.cur_pos as int) == Some(value.name)
        &&& string_at(before, before.cur_pos + 4) == Some(value.value)
    }

    fn deserialize(reader: &mut DataReader) -> (r: Result<GMFilterEffect, String>) {
        let name = reader.read_gm_string()?;
        let value = reader.read_gm_string()?;
        Ok(GMFilterEffect { name, value })
    }

    fn serialize(&self, builder: &mut DataBuilder) -> (r: Result<(), String>) {
        builder.write_gm_string(&self.name)?;
        let ghost mid = *builder;
        let res = builder.write_gm_string(&self.value);
        proof {
            lemma_extends_trans(*old(builder), mid, *builder);
        }
        res
    }
}

impl GMElement for GMFilterEffects {
    open spec fn readable<'a>(before: DataReader<'a>) -> bool {
        let a = before.aligned(4);
        &&& before.zero_padded(4)
        &&& a.can_read(4)
        &&& spec_u32_at(before.data@, a.cur_pos as int) == 1
        &&& pointer_list_readable::<GMFilterEffect>(a.moved(a.cur_pos + 4))
    }

    open spec fn read_end<'a>(before: DataReader<'a>) -> int {
        let a = before.aligned(4);
        pointer_list_end::<GMFilterEffect>(a.moved(a.cur_pos + 4))
    }

    /// The padding, the version, the count, and a pointer and two references per effect
    /// fit below 2^32.
    open spec fn writable(&self, before: DataBuilder) -> bool {
        before.bytes@.len() + 11 + 12 * self.filter_effects@.len() <= u32::MAX
    }

    open spec fn written(&self, before: DataBuilder, after: DataBuilder) -> bool {
        exists|b: DataBuilder| {
            &&& b.bytes@ == before.bytes@ + Seq::new(align_pad(before.bytes@.len() as int, 4) as nat, |i: int| 0u8)
                + i32_bytes(1i32)
            &&& #[trigger] pointer_list_written(self.filter_effects@, b, after)
        }
    }

    open spec fn deserialized<'a>(before: DataReader<'a>, after: DataReader<'a>, value: GMFilterEffects) -> bool {
        let a = before.aligned(4);
        &&& value.exists
        &&& before.zero_padded(4)
        &&& a.can_read(4)
        &&& spec_u32_at(before.data@, a.cur_pos as int) == 1
        &&& pointer_list_read(a.moved(a.cur_pos + 4), value.filter_effects@)
    }

    fn deserialize(reader: &mut DataReader) -> (r: Result<GMFilterEffects, String>) {
        reader.align(4)?;
        let version = reader.read_u32()?;
        if version != 1 {
            return Err("Unexpected FEDS version".to_owned());
        }
        let filter_effects: Vec<GMFilterEffect> = reader.read_pointer_list()?;
        Ok(GMFilterEffects { filter_effects, exists: true })
    }

    fn serialize(&self, builder: &mut DataBuilder) -> (r: Result<(), String>) {
        builder.align(4);
        let ghost b1 = *builder;
        builder.write_i32(1);
        let ghost mid = *builder;
        proof {
            lemma_prefix_extends(*old(builder), b1);
            lemma_prefix_extends(b1, mid);
            lemma_extends_trans(*old(builder), b1, mid);
        }
        proof {
            if self.writable(*old(builder)) {
                let es = self.filter_effects@;
                assert(align_pad(old(builder).bytes@.len() as int, 4) <= 3);
                assert forall|k: int, b: DataBuilder| 0 <= k < es.len() && b.bytecode_version == mid.bytecode_version
                    && b.gm_version == mid.gm_version && b.bytes@.len() + 8 <= u32::MAX
                    implies #[trigger] es[k].writable(b) by {}
                assert forall|k: int, b: DataBuilder, a: DataBuilder| 0 <= k < es.len() && #[trigger] es[k].written(b, a)
                    implies a.bytes@.len() <= b.bytes@.len() + 8 by {}
                assert(elements_fit(es, mid, 8));
                assert(pointer_list_fits(es, mid, 8));
            }
        }
        let res = builder.write_pointer_list(&self.filter_effects);
        proof {
            lemma_extends_trans(*old(builder), mid, *builder);
        }
        res
    }
}

impl GMChunkElement for GMFilterEffects {
    fn empty() -> (r: GMFilterEffects)
        ensures
            !r.exists,
            r.filter_effects@.len() == 0,
    {
        GMFilterEffects { filter_effects: Vec::new(), exists: false }
    }

    fn chunk_exists(&self) -> (r: bool)
        ensures
            r == self.exists,
    {
        self.exists
    }
}

} // verus!
