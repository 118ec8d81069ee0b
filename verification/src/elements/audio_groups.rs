//! Audio groups (chunk `AGRP`): named sets of sounds.

use vstd::prelude::*;
use crate::builder::{lemma_extends_refl, lemma_extends_trans, ref_placeholder, DataBuilder};
use crate::element::{GMChunkElement, GMElement};
use crate::lists::{elements_fit, pointer_list_fits, pointer_list_written, pointer_list_end, pointer_list_read, pointer_list_readable};
use crate::reader::DataReader;
use crate::refs::GMRef;
use crate::resources::string_at;
use crate::version::{version_at_least, version_req, GMVersion};

verus! {

/// The audio groups of a data file.
pub struct GMAudioGroups {
    pub audio_groups: Vec<GMAudioGroup>,
    pub exists: bool,
}

/// An audio group.
pub struct GMAudioGroup {
    /// The name by which code refers to the group.
    pub name: GMRef<String>,
    /// The path of the group's file relative to the data file, in GameMaker 2024.14 and later.
    pub path: Option<GMRef<String>>,
}

impl GMElement for GMAudioGroup {
    open spec fn readable<'a>(before: DataReader<'a>) -> bool {
        let p = before.cur_pos as int;
        if version_at_least(before.gm_version, version_req(2024, 14)) {
            before.can_read(8) && string_at(before, p) is Some && string_at(before, p + 4) is Some
        } else {
            before.can_read(4) && string_at(before, p) is Some
        }
    }

    open spec fn read_end<'a>(before: DataReader<'a>) -> int {
        if version_at_least(before.gm_version, version_req(2024, 14)) { before.cur_pos + 8 } else { before.cur_pos + 4 }
    }

    open spec fn writable(&self, before: DataBuilder) -> bool {
        &&& before.bytes@.len() + 4 <= u32::MAX
        &&& (version_at_least(before.gm_version, version_req(2024, 14)) ==> self.path is Some)
    }

    open spec fn written(&self, before: DataBuilder, after: DataBuilder) -> bool {
        if version_at_least(before.gm_version, version_req(2024, 14)) {
            after.bytes@ == before.bytes@ + ref_placeholder() + ref_placeholder()
        } else {
            after.bytes@ == before.bytes@ + ref_placeholder()
        }
    }

    open spec fn deserialized<'a>(before: DataReader<'a>, after: DataReader<'a>, value: GMAudioGroup) -> bool {
        let p = before.cur_pos as int;
        if version_at_least(before.gm_version, version_req(2024, 14)) {
            &&& before.can_read(8)
            &&& after == before.moved(p + 8)
            &&& string_at(before, p) == Some(value.name)
            &&& value.path matches Some(path) && string_at(before, p + 4) == Some(path)
        } else {
            &&& before.can_read(4)
            &&& after == before.moved(p + 4)
            &&& string_at(before, p) == Some(value.name)
            &&& value.path is None
        }
    }

    fn deserialize(reader: &mut DataReader) -> (r: Result<GMAudioGroup, String>) {
        let name = reader.read_gm_string()?;
        let path = if reader.gm_version.is_version_at_least(&GMVersion::new(2024, 14, 0, 0)) {
            Some(reader.read_gm_string()?)
        } else {
            None
        };
        Ok(GMAudioGroup { name, path })
    }

    /// Fails in GameMaker 2024.14 and later when the group has no path.
    fn serialize(&self, builder: &mut DataBuilder) -> (r: Result<(), String>)
        ensures
            version_at_least(old(builder).gm_version, version_req(2024, 14)) && self.path is None ==> r is Err,
    {
        builder.write_gm_string(&self.name)?;
        if builder.is_gm_version_at_least(&GMVersion::new(2024, 14, 0, 0)) {
            let ghost mid = *builder;
            match &self.path {
                Some(path) => {
                    let res = builder.write_gm_string(path);
                    proof {
                        lemma_extends_trans(*old(builder), mid, *builder);
                    }
                    return res;
                },
                None => return Err("Audio Group Path not set for 2024.14+".to_owned()),
            }
        }
        Ok(())
    }
}

impl GMChunkElement for GMAudioGroups {
    fn empty() -> (r: GMAudioGroups)
        ensures
            !r.exists,
            r.audio_groups@.len() == 0,
    {
        GMAudioGroups { audio_groups: Vec::new(), exists: false }
    }

    fn chunk_exists(&self) -> (r: bool)
        ensures
            r == self.exists,
    {
        self.exists
    }
}

impl GMElement for GMAudioGroups {
    open spec fn readable<'a>(before: DataReader<'a>) -> bool {
        pointer_list_readable::<GMAudioGroup>(before)
    }

    open spec fn read_end<'a>(before: DataReader<'a>) -> int {
        pointer_list_end::<GMAudioGroup>(before)
    }

    /// The count, a pointer and at most two references per group fit below 2^32, and from
    /// GameMaker 2024.14 on every group has a path.
    open spec fn writable(&self, before: DataBuilder) -> bool {
        &&& before.bytes@.len() + 4 + 12 * self.audio_groups@.len() <= u32::MAX
        &&& version_at_least(before.gm_version, version_req(2024, 14))
            ==> forall|k: int| 0 <= k < self.audio_groups@.len() ==> (#[trigger] self.audio_groups@[k]).path is Some
    }

    open spec fn written(&self, before: DataBuilder, after: DataBuilder) -> bool {
        pointer_list_written(self.audio_groups@, before, after)
    }

    open spec fn deserialized<'a>(before: DataReader<'a>, after: DataReader<'a>, value: GMAudioGroups) -> bool {
        value.exists && pointer_list_read(before, value.audio_groups@)
    }

    fn deserialize(reader: &mut DataReader) -> (r: Result<GMAudioGroups, String>) {
        let audio_groups: Vec<GMAudioGroup> = reader.read_pointer_list()?;
        Ok(GMAudioGroups { audio_groups, exists: true })
    }

    fn serialize(&self, builder: &mut DataBuilder) -> (r: Result<(), String>) {
        proof {
            if self.writable(*builder) {
                let gs = self.audio_groups@;
                assert(elements_fit(gs, *builder, 8)) by {
                    assert forall|k: int, b: DataBuilder| 0 <= k < gs.len() && b.bytecode_version == builder.bytecode_version
                        && b.gm_version == builder.gm_version && b.bytes@.len() + 8 <= u32::MAX
                        implies #[trigger] gs[k].writable(b) by {}
                    assert forall|k: int, b: DataBuilder, a: DataBuilder| 0 <= k < gs.len() && #[trigger] gs[k].written(b, a)
                        implies a.bytes@.len() <= b.bytes@.len() + 8 by {}
                }
                assert(pointer_list_fits(gs, *builder, 8));
            }
        }
        builder.write_pointer_list(&self.audio_groups)
    }
}

} // verus!
