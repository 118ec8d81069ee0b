//! Sound flags and the audio group that sounds use by default.

use vstd::prelude::*;
use crate::builder::{lemma_prefix_extends, DataBuilder};
use crate::bytes::{spec_u32_at, u32_le_bytes};
use crate::element::{moved_past, GMElement};
use crate::reader::DataReader;
use crate::version::{version_at_least, GMVersion, LTSBranch};

verus! {

/// The flags of a sound.
#[derive(Clone, Copy, Debug, PartialEq, Eq, Structural)]
pub struct GMSoundFlags {
    pub is_embedded: bool,
    pub is_compressed: bool,
    pub is_decompressed_on_load: bool,
    pub regular: bool,
}

/// The flags that the bits of `raw` set: `is_decompressed_on_load` takes both of the two
/// lowest bits, `regular` any bit of 0x64.
pub open spec fn sound_flags_of(raw: u32) -> GMSoundFlags {
    GMSoundFlags {
        is_embedded: raw & 0x1 != 0,
        is_compressed: raw & 0x2 != 0,
        is_decompressed_on_load: raw & 0x3 == 3,
        regular: raw & 0x64 != 0,
    }
}

/// The bits that the flags set.
pub open spec fn sound_flags_bits(f: GMSoundFlags) -> u32 {
    (if f.is_embedded { 0x1u32 } else { 0u32 }) | (if f.is_compressed { 0x2u32 } else { 0u32 })
        | (if f.is_decompressed_on_load { 0x3u32 } else { 0u32 }) | (if f.regular { 0x64u32 } else { 0u32 })
}

impl GMElement for GMSoundFlags {
    open spec fn readable<'a>(before: DataReader<'a>) -> bool {
        before.can_read(4)
    }

    open spec fn read_end<'a>(before: DataReader<'a>) -> int {
        before.cur_pos + 4
    }

    open spec fn writable(&self, before: DataBuilder) -> bool {
        true
    }

    open spec fn written(&self, before: DataBuilder, after: DataBuilder) -> bool {
        after.appended(&before, u32_le_bytes(sound_flags_bits(*self)))
    }

    open spec fn deserialized<'a>(before: DataReader<'a>, after: DataReader<'a>, value: GMSoundFlags) -> bool {
        moved_past(before, after, 4) && value == sound_flags_of(spec_u32_at(before.data@, before.cur_pos as int))
    }

    fn deserialize(reader: &mut DataReader) -> (r: Result<GMSoundFlags, String>)
        ensures
            r is Ok <==> old(reader).can_read(4),
    {
        let raw = reader.read_u32()?;
        Ok(GMSoundFlags {
            is_embedded: raw & 0x1 != 0,
            is_compressed: raw & 0x2 != 0,
            is_decompressed_on_load: raw & 0x3 == 3,
            regular: raw & 0x64 != 0,
        })
    }

    fn serialize(&self, builder: &mut DataBuilder) -> (r: Result<(), String>)
        ensures
            r is Ok && final(builder).appended(old(builder), u32_le_bytes(sound_flags_bits(*self))),
    {
        let raw: u32 = (if self.is_embedded { 0x1u32 } else { 0u32 }) | (if self.is_compressed { 0x2u32 } else { 0u32 })
            | (if self.is_decompressed_on_load { 0x3u32 } else { 0u32 }) | (if self.regular { 0x64u32 } else { 0u32 });
        builder.write_u32(raw);
        proof {
            lemma_prefix_extends(*old(builder), *builder);
        }
        Ok(())
    }
}

/// The audio group that sounds belong to by default: 0 from 1.0.0.1250 on, and from
/// 1.0.0.161 up to (not including) 1.0.0.1000; 1 otherwise.
pub open spec fn builtin_sound_group_id(v: GMVersion) -> u32 {
    let at_least = |major: u32, build: u32| version_at_least(v, GMVersion { major, minor: 0, release: 0, build, branch: LTSBranch::PreLTS });
    if at_least(1, 1250) || (at_least(1, 161) && !at_least(1, 1000)) {
        0
    } else {
        1
    }
}

/// The audio group that sounds belong to by default in `gm_version`.
pub fn get_builtin_sound_group_id(gm_version: &GMVersion) -> (r: u32)
    ensures
        r == builtin_sound_group_id(*gm_version),
{
    if gm_version.is_version_at_least(&GMVersion::new(1, 0, 0, 1250))
        || gm_version.is_version_at_least(&GMVersion::new(1, 0, 0, 161))
            && !gm_version.is_version_at_least(&GMVersion::new(1, 0, 0, 1000)) {
        0
    } else {
        1
    }
}

} // verus!
