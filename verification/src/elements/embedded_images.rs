//! Embedded images (chunk `EMBI`): the built-in particle sprites.

use vstd::prelude::*;
use crate::builder::{i32_bytes, lemma_extends_trans, lemma_prefix_extends, ref_placeholder, DataBuilder};
use crate::bytes::{spec_i32_at, spec_u32_at};
use crate::element::{GMChunkElement, GMElement};
use crate::lists::{elements_fit, simple_list_fits, simple_list_written, elements_end, list_read, simple_list_readable};
use crate::reader::DataReader;
use crate::refs::GMRef;
use crate::resources::{string_at, texture_at, GMTexturePageItem};

verus! {

/// The embedded images of a data file.
pub struct GMEmbeddedImages {
    pub embedded_images: Vec<GMEmbeddedImage>,
    pub exists: bool,
}

/// An embedded image: a name and the texture page item holding it.
pub struct GMEmbeddedImage {
    pub name: GMRef<String>,
    pub texture_entry: GMRef<GMTexturePageItem>,
}

impl GMEmbeddedImages {
    /// The chunk as it is when the data file has none.
    pub fn stub() -> (r: Self)
        ensures
            !r.exists,
            r.embedded_images@.len() == 0,
    {
        GMEmbeddedImages { embedded_images: Vec::new(), exists: false }
    }
}

impl GMElement for GMEmbeddedImage {
    open spec fn readable<'a>(before: DataReader<'a>) -> bool {
        let p = before.cur_pos as int;
        before.can_read(8) && string_at(before, p) is Some && texture_at(before, p + 4) is Some
    }

    open spec fn read_end<'a>(before: DataReader<'a>) -> int {
        before.cur_pos + 8
    }

    open spec fn writable(&self, before: DataBuilder) -> bool {
        before.bytes@.len() + 4 <= u32::MAX
    }

    open spec fn written(&self, before: DataBuilder, after: DataBuilder) -> bool {
        after.bytes@ == before.bytes@ + ref_placeholder() + ref_placeholder()
    }

    open spec fn deserialized<'a>(before: DataReader<'a>, after: DataReader<'a>, value: GMEmbeddedImage) -> bool {
        &&& before.can_read(8)
        &&& after == before.moved(before.cur_pos + 8)
        &&& string_at(before, before.cur_pos as int) == Some(value.name)
        &&& texture_at(before, before.cur_pos + 4) == Some(value.texture_entry)
    }

    fn deserialize(reader: &mut DataReader) -> (r: Result<GMEmbeddedImage, String>) {
        let name = reader.read_gm_string()?;
        let texture_entry = reader.read_gm_texture()?;
        Ok(GMEmbeddedImage { name, texture_entry })
    }

    fn serialize(&self, builder: &mut DataBuilder) -> (r: Result<(), String>) {
        builder.write_gm_string(&self.name)?;
        let ghost mid = *builder;
        let res = builder.write_gm_texture(&self.texture_entry);
        proof {
            lemma_extends_trans(*old(builder), mid, *builder);
        }
        res
    }
}

impl GMChunkElement for GMEmbeddedImages {
    fn empty() -> (r: GMEmbeddedImages)
        ensures
            !r.exists,
            r.embedded_images@.len() == 0,
    {
        GMEmbeddedImages { embedded_images: Vec::new(), exists: false }
    }

    fn chunk_exists(&self) -> (r: bool)
        ensures
            r == self.exists,
    {
        self.exists
    }
}

impl GMElement for GMEmbeddedImages {
    open spec fn readable<'a>(before: DataReader<'a>) -> bool {
        let p = before.cur_pos as int;
        &&& before.can_read(4)
        &&& spec_i32_at(before.data@, p) == 1
        &&& simple_list_readable::<GMEmbeddedImage>(before.moved(p + 4))
    }

    open spec fn read_end<'a>(before: DataReader<'a>) -> int {
        let p = before.cur_pos as int;
        elements_end::<GMEmbeddedImage>(before.moved(p + 8), spec_u32_at(before.data@, p + 4) as nat)
    }

    /// The version, the count and two references per image fit below 2^32.
    open spec fn writable(&self, before: DataBuilder) -> bool {
        before.bytes@.len() + 8 + 8 * self.embedded_images@.len() <= u32::MAX
    }

    open spec fn written(&self, before: DataBuilder, after: DataBuilder) -> bool {
        exists|b: DataBuilder| {
            &&& b.bytes@ == before.bytes@ + i32_bytes(1i32)
            &&& #[trigger] simple_list_written(self.embedded_images@, b, after)
        }
    }

    open spec fn deserialized<'a>(before: DataReader<'a>, after: DataReader<'a>, value: GMEmbeddedImages) -> bool {
        let p = before.cur_pos as int;
        &&& value.exists
        &&& before.can_read(8)
        &&& spec_i32_at(before.data@, p) == 1
        &&& value.embedded_images@.len() == spec_u32_at(before.data@, p + 4)
        &&& list_read(before.moved(p + 8), after, value.embedded_images@)
    }

    /// Fails unless the chunk's version is 1.
    fn deserialize(reader: &mut DataReader) -> (r: Result<GMEmbeddedImages, String>) {
        let version = reader.read_i32()?;
        if version != 1 {
            return Err("Unexpected EMBI version".to_owned());
        }
        let embedded_images: Vec<GMEmbeddedImage> = reader.read_simple_list()?;
        Ok(GMEmbeddedImages { embedded_images, exists: true })
    }

    fn serialize(&self, builder: &mut DataBuilder) -> (r: Result<(), String>) {
        builder.write_i32(1);
        let ghost mid = *builder;
        proof {
            lemma_prefix_extends(*old(builder), mid);
        }
        proof {
            if self.writable(*old(builder)) {
                let es = self.embedded_images@;
                assert(elements_fit(es, mid, 8)) by {
                    assert forall|k: int, b: DataBuilder| 0 <= k < es.len() && b.bytecode_version == mid.bytecode_version
                        && b.gm_version == mid.gm_version && b.bytes@.len() + 8 <= u32::MAX
                        implies #[trigger] es[k].writable(b) by {}
                    assert forall|k: int, b: DataBuilder, a: DataBuilder| 0 <= k < es.len() && #[trigger] es[k].written(b, a)
                        implies a.bytes@.len() <= b.bytes@.len() + 8 by {}
                }
                assert(simple_list_fits(es, mid, 8));
            }
        }
        let res = builder.write_simple_list(&self.embedded_images);
        proof {
            lemma_extends_trans(*old(builder), mid, *builder);
        }
        res
    }
}

} // verus!
