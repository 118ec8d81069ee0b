//! General information about the game (chunk `GEN8`): its flags and the classes of
//! functions it uses.

use vstd::prelude::*;
use crate::builder::{bool32_bytes, lemma_appended_extends, lemma_extends_refl, lemma_extends_trans, lemma_prefix_extends, ref_placeholder, DataBuilder};
use crate::bytes::{spec_u32_at, spec_u64_at, u16_le_bytes, u32_le_bytes, u64_le_bytes};
use crate::element::{moved_past, GMChunkElement, GMElement};
use crate::reader::DataReader;
use crate::bytes::{spec_i32_at, spec_i64_at, spec_u16_at};
use crate::elements::backgrounds::bool32_at;
use crate::refs::{gm_ref, GMRef};
use crate::resources::string_at;
use crate::lists::id_list_readable;
use crate::rng::{rng_output, CSharpRng};
use crate::version::{version_at_least, version_req, GMVersion, LTSBranch};

verus! {

/// `mask` if `set`, else nothing.
#[verifier::opaque]
pub open spec fn bit32(set: bool, mask: u32) -> u32 {
    if set { mask } else { 0 }
}

/// The info flags of a data file.
#[derive(Clone, Copy, Debug, PartialEq, Eq, Structural)]
pub struct GMGeneralInfoFlags {
    /// Start the game as fullscreen.
    pub fullscreen: bool,
    /// Use synchronization to avoid tearing.
    pub sync_vertex1: bool,
    pub sync_vertex2: bool,
    pub sync_vertex3: bool,
    /// Interpolate colours between pixels.
    pub interpolate: bool,
    /// Keep aspect ratio during scaling.
    pub scale: bool,
    /// Display mouse cursor.
    pub show_cursor: bool,
    /// Allows window to be resized.
    pub sizeable: bool,
    /// Allows fullscreen switching.
    pub screen_key: bool,
    pub studio_version_b1: bool,
    pub studio_version_b2: bool,
    pub studio_version_b3: bool,
    pub steam_enabled: bool,
    pub local_data_enabled: bool,
    /// Whether the game supports borderless window.
    pub borderless_window: bool,
    /// Tells the runner to run Javascript code.
    pub javascript_mode: bool,
    pub license_exclusions: bool,
}

/// The flags that the bits of `raw` set.
pub open spec fn general_info_flags_of(raw: u32) -> GMGeneralInfoFlags {
    GMGeneralInfoFlags {
        fullscreen: raw & 0x0001 != 0,
        sync_vertex1: raw & 0x0002 != 0,
        sync_vertex2: raw & 0x0004 != 0,
        sync_vertex3: raw & 0x0100 != 0,
        interpolate: raw & 0x0008 != 0,
        scale: raw & 0x0010 != 0,
        show_cursor: raw & 0x0020 != 0,
        sizeable: raw & 0x0040 != 0,
        screen_key: raw & 0x0080 != 0,
        studio_version_b1: raw & 0x0200 != 0,
        studio_version_b2: raw & 0x0400 != 0,
        studio_version_b3: raw & 0x0800 != 0,
        steam_enabled: raw & 0x1000 != 0,
        local_data_enabled: raw & 0x2000 != 0,
        borderless_window: raw & 0x4000 != 0,
        javascript_mode: raw & 0x8000 != 0,
        license_exclusions: raw & 0x10000 != 0,
    }
}

/// The bits that the flags set.
pub open spec fn general_info_flags_bits(f: GMGeneralInfoFlags) -> u32 {
    bit32(f.fullscreen, 0x0001)
        | bit32(f.sync_vertex1, 0x0002)
        | bit32(f.sync_vertex2, 0x0004)
        | bit32(f.sync_vertex3, 0x0100)
        | bit32(f.interpolate, 0x0008)
        | bit32(f.scale, 0x0010)
        | bit32(f.show_cursor, 0x0020)
        | bit32(f.sizeable, 0x0040)
        | bit32(f.screen_key, 0x0080)
        | bit32(f.studio_version_b1, 0x0200)
        | bit32(f.studio_version_b2, 0x0400)
        | bit32(f.studio_version_b3, 0x0800)
        | bit32(f.steam_enabled, 0x1000)
        | bit32(f.local_data_enabled, 0x2000)
        | bit32(f.borderless_window, 0x4000)
        | bit32(f.javascript_mode, 0x8000)
        | bit32(f.license_exclusions, 0x10000)
}

/// The bits of the general info flags that have a meaning.
pub const GENERAL_INFO_FLAGS_MASK: u32 = 0x1FFFF;

impl GMGeneralInfoFlags {
    /// Decodes the flags from their bits.
    pub fn parse(raw: u32) -> (r: Self)
        ensures
            r == general_info_flags_of(raw),
    {
        GMGeneralInfoFlags {
            fullscreen: raw & 0x0001 != 0,
            sync_vertex1: raw & 0x0002 != 0,
            sync_vertex2: raw & 0x0004 != 0,
            sync_vertex3: raw & 0x0100 != 0,
            interpolate: raw & 0x0008 != 0,
            scale: raw & 0x0010 != 0,
            show_cursor: raw & 0x0020 != 0,
            sizeable: raw & 0x0040 != 0,
            screen_key: raw & 0x0080 != 0,
            studio_version_b1: raw & 0x0200 != 0,
            studio_version_b2: raw & 0x0400 != 0,
            studio_version_b3: raw & 0x0800 != 0,
            steam_enabled: raw & 0x1000 != 0,
            local_data_enabled: raw & 0x2000 != 0,
            borderless_window: raw & 0x4000 != 0,
            javascript_mode: raw & 0x8000 != 0,
            license_exclusions: raw & 0x10000 != 0,
        }
    }

    /// Encodes the flags as bits.
    pub fn build(&self) -> (r: u32)
        ensures
            r == general_info_flags_bits(*self),
    {
        proof {
            reveal(bit32);
        }
        (if self.fullscreen { 0x0001u32 } else { 0u32 })
            | (if self.sync_vertex1 { 0x0002u32 } else { 0u32 })
            | (if self.sync_vertex2 { 0x0004u32 } else { 0u32 })
            | (if self.sync_vertex3 { 0x0100u32 } else { 0u32 })
            | (if self.interpolate { 0x0008u32 } else { 0u32 })
            | (if self.scale { 0x0010u32 } else { 0u32 })
            | (if self.show_cursor { 0x0020u32 } else { 0u32 })
            | (if self.sizeable { 0x0040u32 } else { 0u32 })
            | (if self.screen_key { 0x0080u32 } else { 0u32 })
            | (if self.studio_version_b1 { 0x0200u32 } else { 0u32 })
            | (if self.studio_version_b2 { 0x0400u32 } else { 0u32 })
            | (if self.studio_version_b3 { 0x0800u32 } else { 0u32 })
            | (if self.steam_enabled { 0x1000u32 } else { 0u32 })
            | (if self.local_data_enabled { 0x2000u32 } else { 0u32 })
            | (if self.borderless_window { 0x4000u32 } else { 0u32 })
            | (if self.javascript_mode { 0x8000u32 } else { 0u32 })
            | (if self.license_exclusions { 0x10000u32 } else { 0u32 })
    }
}

/// The flag kept at bit `k` of the flags word, in GameMaker's layout: 0 fullscreen, 1 and 2
/// the first two vertex syncs, 3 interpolation, 4 scaling, 5 the cursor, 6 resizing, 7 the
/// fullscreen key, 8 the third vertex sync, 9 to 11 the studio version, 12 Steam, 13 local
/// data, 14 the borderless window, 15 JavaScript mode, 16 license exclusions; `false` for
/// the other bits.
pub open spec fn general_info_flag_at(f: GMGeneralInfoFlags, k: int) -> bool {
    if k == 0 { f.fullscreen }
    else if k == 1 { f.sync_vertex1 }
    else if k == 2 { f.sync_vertex2 }
    else if k == 3 { f.interpolate }
    else if k == 4 { f.scale }
    else if k == 5 { f.show_cursor }
    else if k == 6 { f.sizeable }
    else if k == 7 { f.screen_key }
    else if k == 8 { f.sync_vertex3 }
    else if k == 9 { f.studio_version_b1 }
    else if k == 10 { f.studio_version_b2 }
    else if k == 11 { f.studio_version_b3 }
    else if k == 12 { f.steam_enabled }
    else if k == 13 { f.local_data_enabled }
    else if k == 14 { f.borderless_window }
    else if k == 15 { f.javascript_mode }
    else if k == 16 { f.license_exclusions }
    else { false }
}

/// Bit `k` of a word is set exactly when the word has the single-bit mask `1 << k`; the
/// masks of the bits the flags use.
proof fn lemma_flag_masks(raw: u32, k: u32)
    by (bit_vector)
    requires
        k < 32,
    ensures
        ((raw >> k) & 1 == 1) == (raw & (1u32 << k) != 0),
        1u32 << 0u32 == 0x1u32 && 1u32 << 1u32 == 0x2u32 && 1u32 << 2u32 == 0x4u32 && 1u32 << 3u32 == 0x8u32,
        1u32 << 4u32 == 0x10u32 && 1u32 << 5u32 == 0x20u32 && 1u32 << 6u32 == 0x40u32 && 1u32 << 7u32 == 0x80u32,
        1u32 << 8u32 == 0x100u32 && 1u32 << 9u32 == 0x200u32 && 1u32 << 10u32 == 0x400u32 && 1u32 << 11u32 == 0x800u32,
        1u32 << 12u32 == 0x1000u32 && 1u32 << 13u32 == 0x2000u32 && 1u32 << 14u32 == 0x4000u32,
        1u32 << 15u32 == 0x8000u32 && 1u32 << 16u32 == 0x10000u32,
{
}

/// Reading a flags word sets each flag from its own bit: the flag at bit `k` is set exactly
/// when bit `k` of the word is, for every word and every bit the flags use.
pub proof fn law_general_info_flag_bits(raw: u32, k: u32)
    requires
        k < 17,
    ensures
        general_info_flag_at(general_info_flags_of(raw), k as int) == ((raw >> k) & 1 == 1),
{
    lemma_flag_masks(raw, k);
}

/// Writing flags sets bit `k` of the word exactly when the flag at bit `k` is set; bits the
/// flags do not use stay clear.
pub proof fn law_general_info_bits_of_flags(f: GMGeneralInfoFlags, k: u32)
    requires
        k < 32,
    ensures
        ((general_info_flags_bits(f) >> k) & 1 == 1) == general_info_flag_at(f, k as int),
{
    let x = general_info_flags_bits(f);
    law_general_info_flags_roundtrip(f);
    law_general_info_bits_roundtrip(x);
    if k < 17 {
        law_general_info_flag_bits(x, k);
    } else {
        assert(general_info_flags_bits(general_info_flags_of(x)) == x & GENERAL_INFO_FLAGS_MASK);
        assert(x == x & 0x1FFFFu32);
        assert(x == x & 0x1FFFFu32 && 17 <= k < 32 ==> (x >> k) & 1 == 0) by (bit_vector);
    }
}

/// Encoding the flags that some bits decode to gives back those bits, less the ones without
/// a meaning.
pub proof fn law_general_info_bits_roundtrip(raw: u32)
    ensures
        general_info_flags_bits(general_info_flags_of(raw)) == raw & GENERAL_INFO_FLAGS_MASK,
{
    reveal(bit32);
    assert(general_info_flags_bits(general_info_flags_of(raw)) == raw & 0x1FFFF) by (bit_vector);
}

/// Decoding the bits that some flags encode to gives back those flags.
#[verifier::rlimit(80)]
#[verifier::spinoff_prover]
pub proof fn law_general_info_flags_roundtrip(f: GMGeneralInfoFlags)
    ensures
        general_info_flags_of(general_info_flags_bits(f)) == f,
{
    reveal(bit32);
    let fullscreen: bool = f.fullscreen;
    let sync_vertex1: bool = f.sync_vertex1;
    let sync_vertex2: bool = f.sync_vertex2;
    let sync_vertex3: bool = f.sync_vertex3;
    let interpolate: bool = f.interpolate;
    let scale: bool = f.scale;
    let show_cursor: bool = f.show_cursor;
    let sizeable: bool = f.sizeable;
    let screen_key: bool = f.screen_key;
    let studio_version_b1: bool = f.studio_version_b1;
    let studio_version_b2: bool = f.studio_version_b2;
    let studio_version_b3: bool = f.studio_version_b3;
    let steam_enabled: bool = f.steam_enabled;
    let local_data_enabled: bool = f.local_data_enabled;
    let borderless_window: bool = f.borderless_window;
    let javascript_mode: bool = f.javascript_mode;
    let license_exclusions: bool = f.license_exclusions;
    let x: u32 = general_info_flags_bits(f);
    assert(x == (if fullscreen { 0x1u32 } else { 0u32 }) | (if sync_vertex1 { 0x2u32 } else { 0u32 }) | (if sync_vertex2 { 0x4u32 } else { 0u32 }) | (if sync_vertex3 { 0x100u32 } else { 0u32 }) | (if interpolate { 0x8u32 } else { 0u32 }) | (if scale { 0x10u32 } else { 0u32 }) | (if show_cursor { 0x20u32 } else { 0u32 }) | (if sizeable { 0x40u32 } else { 0u32 }) | (if screen_key { 0x80u32 } else { 0u32 }) | (if studio_version_b1 { 0x200u32 } else { 0u32 }) | (if studio_version_b2 { 0x400u32 } else { 0u32 }) | (if studio_version_b3 { 0x800u32 } else { 0u32 }) | (if steam_enabled { 0x1000u32 } else { 0u32 }) | (if local_data_enabled { 0x2000u32 } else { 0u32 }) | (if borderless_window { 0x4000u32 } else { 0u32 }) | (if javascript_mode { 0x8000u32 } else { 0u32 }) | (if license_exclusions { 0x10000u32 } else { 0u32 }));
    assert({
        &&& (x & 0x1u32 != 0) == fullscreen
        &&& (x & 0x2u32 != 0) == sync_vertex1
        &&& (x & 0x4u32 != 0) == sync_vertex2
        &&& (x & 0x100u32 != 0) == sync_vertex3
        &&& (x & 0x8u32 != 0) == interpolate
        &&& (x & 0x10u32 != 0) == scale
        &&& (x & 0x20u32 != 0) == show_cursor
        &&& (x & 0x40u32 != 0) == sizeable
        &&& (x & 0x80u32 != 0) == screen_key
        &&& (x & 0x200u32 != 0) == studio_version_b1
        &&& (x & 0x400u32 != 0) == studio_version_b2
        &&& (x & 0x800u32 != 0) == studio_version_b3
        &&& (x & 0x1000u32 != 0) == steam_enabled
        &&& (x & 0x2000u32 != 0) == local_data_enabled
        &&& (x & 0x4000u32 != 0) == borderless_window
        &&& (x & 0x8000u32 != 0) == javascript_mode
        &&& (x & 0x10000u32 != 0) == license_exclusions
    }) by (bit_vector)
        requires
            x == (if fullscreen { 0x1u32 } else { 0u32 }) | (if sync_vertex1 { 0x2u32 } else { 0u32 }) | (if sync_vertex2 { 0x4u32 } else { 0u32 }) | (if sync_vertex3 { 0x100u32 } else { 0u32 }) | (if interpolate { 0x8u32 } else { 0u32 }) | (if scale { 0x10u32 } else { 0u32 }) | (if show_cursor { 0x20u32 } else { 0u32 }) | (if sizeable { 0x40u32 } else { 0u32 }) | (if screen_key { 0x80u32 } else { 0u32 }) | (if studio_version_b1 { 0x200u32 } else { 0u32 }) | (if studio_version_b2 { 0x400u32 } else { 0u32 }) | (if studio_version_b3 { 0x800u32 } else { 0u32 }) | (if steam_enabled { 0x1000u32 } else { 0u32 }) | (if local_data_enabled { 0x2000u32 } else { 0u32 }) | (if borderless_window { 0x4000u32 } else { 0u32 }) | (if javascript_mode { 0x8000u32 } else { 0u32 }) | (if license_exclusions { 0x10000u32 } else { 0u32 });
}

impl GMElement for GMGeneralInfoFlags {
    open spec fn readable<'a>(before: DataReader<'a>) -> bool {
        before.can_read(4)
    }

    open spec fn read_end<'a>(before: DataReader<'a>) -> int {
        before.cur_pos + 4
    }

    open spec fn writable(&self, before: DataBuilder) -> bool {
        true
    }

    open spec fn written(&self, before: DataBuilder, after: DataBuilder) -> bool {
        after.appended(&before, u32_le_bytes(general_info_flags_bits(*self)))
    }

    open spec fn deserialized<'a>(before: DataReader<'a>, after: DataReader<'a>, value: GMGeneralInfoFlags) -> bool {
        moved_past(before, after, 4) && value == general_info_flags_of(spec_u32_at(before.data@, before.cur_pos as int))
    }

    fn deserialize(reader: &mut DataReader) -> (r: Result<GMGeneralInfoFlags, String>)
        ensures
            r is Ok <==> old(reader).can_read(4),
    {
        let raw = reader.read_u32()?;
        Ok(Self::parse(raw))
    }

    fn serialize(&self, builder: &mut DataBuilder) -> (r: Result<(), String>)
        ensures
            r is Ok && final(builder).appended(old(builder), u32_le_bytes(general_info_flags_bits(*self))),
    {
        builder.write_u32(self.build());
        proof {
            lemma_appended_extends(*old(builder), *builder, u32_le_bytes(general_info_flags_bits(*self)));
        }
        Ok(())
    }
}

/// The classes of built-in functions that a game uses, one bit each.
#[derive(Clone, Copy, Debug, PartialEq, Eq, Structural)]
pub struct GMFunctionClassifications {
    pub internet: bool,
    pub joystick: bool,
    pub gamepad: bool,
    pub immersion: bool,
    pub screengrab: bool,
    pub math: bool,
    pub action: bool,
    pub matrix_d3d: bool,
    pub d3dmodel: bool,
    pub data_structures: bool,
    pub file: bool,
    pub ini: bool,
    pub filename: bool,
    pub directory: bool,
    pub environment: bool,
    pub unused1: bool,
    pub http: bool,
    pub encoding: bool,
    pub uidialog: bool,
    pub motion_planning: bool,
    pub shape_collision: bool,
    pub instance: bool,
    pub room: bool,
    pub game: bool,
    pub display: bool,
    pub device: bool,
    pub window: bool,
    pub draw_color: bool,
    pub texture: bool,
    pub layer: bool,
    pub string: bool,
    pub tiles: bool,
    pub surface: bool,
    pub skeleton: bool,
    pub io: bool,
    pub variables: bool,
    pub array: bool,
    pub external_call: bool,
    pub notification: bool,
    pub date: bool,
    pub particle: bool,
    pub sprite: bool,
    pub clickable: bool,
    pub legacy_sound: bool,
    pub audio: bool,
    pub event: bool,
    pub unused2: bool,
    pub free_type: bool,
    pub analytics: bool,
    pub unused3: bool,
    pub unused4: bool,
    pub achievement: bool,
    pub cloud_saving: bool,
    pub ads: bool,
    pub os: bool,
    pub iap: bool,
    pub facebook: bool,
    pub physics: bool,
    pub flash_aa: bool,
    pub console: bool,
    pub buffer: bool,
    pub steam: bool,
    pub unused5: bool,
    pub shaders: bool,
    pub vertex_buffers: bool,
}

/// The flags that the bits of `raw` set.
pub open spec fn function_classifications_of(raw: u64) -> GMFunctionClassifications {
    GMFunctionClassifications {
        internet: raw & 0x1 != 0,
        joystick: raw & 0x2 != 0,
        gamepad: raw & 0x4 != 0,
        immersion: raw & 0x8 != 0,
        screengrab: raw & 0x10 != 0,
        math: raw & 0x20 != 0,
        action: raw & 0x40 != 0,
        matrix_d3d: raw & 0x80 != 0,
        d3dmodel: raw & 0x100 != 0,
        data_structures: raw & 0x200 != 0,
        file: raw & 0x400 != 0,
        ini: raw & 0x800 != 0,
        filename: raw & 0x1000 != 0,
        directory: raw & 0x2000 != 0,
        environment: raw & 0x4000 != 0,
        unused1: raw & 0x8000 != 0,
        http: raw & 0x10000 != 0,
        encoding: raw & 0x20000 != 0,
        uidialog: raw & 0x40000 != 0,
        motion_planning: raw & 0x80000 != 0,
        shape_collision: raw & 0x100000 != 0,
        instance: raw & 0x200000 != 0,
        room: raw & 0x400000 != 0,
        game: raw & 0x800000 != 0,
        display: raw & 0x1000000 != 0,
        device: raw & 0x2000000 != 0,
        window: raw & 0x4000000 != 0,
        draw_color: raw & 0x8000000 != 0,
        texture: raw & 0x10000000 != 0,
        layer: raw & 0x20000000 != 0,
        string: raw & 0x40000000 != 0,
        tiles: raw & 0x80000000 != 0,
        surface: raw & 0x100000000 != 0,
        skeleton: raw & 0x200000000 != 0,
        io: raw & 0x400000000 != 0,
        variables: raw & 0x800000000 != 0,
        array: raw & 0x1000000000 != 0,
        external_call: raw & 0x2000000000 != 0,
        notification: raw & 0x4000000000 != 0,
        date: raw & 0x8000000000 != 0,
        particle: raw & 0x10000000000 != 0,
        sprite: raw & 0x20000000000 != 0,
        clickable: raw & 0x40000000000 != 0,
        legacy_sound: raw & 0x80000000000 != 0,
        audio: raw & 0x100000000000 != 0,
        event: raw & 0x200000000000 != 0,
        unused2: raw & 0x400000000000 != 0,
        free_type: raw & 0x800000000000 != 0,
        analytics: raw & 0x1000000000000 != 0,
        unused3: raw & 0x2000000000000 != 0,
        unused4: raw & 0x4000000000000 != 0,
        achievement: raw & 0x8000000000000 != 0,
        cloud_saving: raw & 0x10000000000000 != 0,
        ads: raw & 0x20000000000000 != 0,
        os: raw & 0x40000000000000 != 0,
        iap: raw & 0x80000000000000 != 0,
        facebook: raw & 0x100000000000000 != 0,
        physics: raw & 0x200000000000000 != 0,
        flash_aa: raw & 0x400000000000000 != 0,
        console: raw & 0x800000000000000 != 0,
        buffer: raw & 0x1000000000000000 != 0,
        steam: raw & 0x2000000000000000 != 0,
        unused5: raw & 0x2010000000000000 != 0,
        shaders: raw & 0x4000000000000000 != 0,
        vertex_buffers: raw & 0x8000000000000000 != 0,
    }
}

/// The bits that the flags set.
pub open spec fn function_classifications_bits(f: GMFunctionClassifications) -> u64 {
    (if f.internet { 0x1u64 } else { 0u64 })
        | (if f.joystick { 0x2u64 } else { 0u64 })
        | (if f.gamepad { 0x4u64 } else { 0u64 })
        | (if f.immersion { 0x8u64 } else { 0u64 })
        | (if f.screengrab { 0x10u64 } else { 0u64 })
        | (if f.math { 0x20u64 } else { 0u64 })
        | (if f.action { 0x40u64 } else { 0u64 })
        | (if f.matrix_d3d { 0x80u64 } else { 0u64 })
        | (if f.d3dmodel { 0x100u64 } else { 0u64 })
        | (if f.data_structures { 0x200u64 } else { 0u64 })
        | (if f.file { 0x400u64 } else { 0u64 })
        | (if f.ini { 0x800u64 } else { 0u64 })
        | (if f.filename { 0x1000u64 } else { 0u64 })
        | (if f.directory { 0x2000u64 } else { 0u64 })
        | (if f.environment { 0x4000u64 } else { 0u64 })
        | (if f.unused1 { 0x8000u64 } else { 0u64 })
        | (if f.http { 0x10000u64 } else { 0u64 })
        | (if f.encoding { 0x20000u64 } else { 0u64 })
        | (if f.uidialog { 0x40000u64 } else { 0u64 })
        | (if f.motion_planning { 0x80000u64 } else { 0u64 })
        | (if f.shape_collision { 0x100000u64 } else { 0u64 })
        | (if f.instance { 0x200000u64 } else { 0u64 })
        | (if f.room { 0x400000u64 } else { 0u64 })
        | (if f.game { 0x800000u64 } else { 0u64 })
        | (if f.display { 0x1000000u64 } else { 0u64 })
        | (if f.device { 0x2000000u64 } else { 0u64 })
        | (if f.window { 0x4000000u64 } else { 0u64 })
        | (if f.draw_color { 0x8000000u64 } else { 0u64 })
        | (if f.texture { 0x10000000u64 } else { 0u64 })
        | (if f.layer { 0x20000000u64 } else { 0u64 })
        | (if f.string { 0x40000000u64 } else { 0u64 })
        | (if f.tiles { 0x80000000u64 } else { 0u64 })
        | (if f.surface { 0x100000000u64 } else { 0u64 })
        | (if f.skeleton { 0x200000000u64 } else { 0u64 })
        | (if f.io { 0x400000000u64 } else { 0u64 })
        | (if f.variables { 0x800000000u64 } else { 0u64 })
        | (if f.array { 0x1000000000u64 } else { 0u64 })
        | (if f.external_call { 0x2000000000u64 } else { 0u64 })
        | (if f.notification { 0x4000000000u64 } else { 0u64 })
        | (if f.date { 0x8000000000u64 } else { 0u64 })
        | (if f.particle { 0x10000000000u64 } else { 0u64 })
        | (if f.sprite { 0x20000000000u64 } else { 0u64 })
        | (if f.clickable { 0x40000000000u64 } else { 0u64 })
        | (if f.legacy_sound { 0x80000000000u64 } else { 0u64 })
        | (if f.audio { 0x100000000000u64 } else { 0u64 })
        | (if f.event { 0x200000000000u64 } else { 0u64 })
        | (if f.unused2 { 0x400000000000u64 } else { 0u64 })
        | (if f.free_type { 0x800000000000u64 } else { 0u64 })
        | (if f.analytics { 0x1000000000000u64 } else { 0u64 })
        | (if f.unused3 { 0x2000000000000u64 } else { 0u64 })
        | (if f.unused4 { 0x4000000000000u64 } else { 0u64 })
        | (if f.achievement { 0x8000000000000u64 } else { 0u64 })
        | (if f.cloud_saving { 0x10000000000000u64 } else { 0u64 })
        | (if f.ads { 0x20000000000000u64 } else { 0u64 })
        | (if f.os { 0x40000000000000u64 } else { 0u64 })
        | (if f.iap { 0x80000000000000u64 } else { 0u64 })
        | (if f.facebook { 0x100000000000000u64 } else { 0u64 })
        | (if f.physics { 0x200000000000000u64 } else { 0u64 })
        | (if f.flash_aa { 0x400000000000000u64 } else { 0u64 })
        | (if f.console { 0x800000000000000u64 } else { 0u64 })
        | (if f.buffer { 0x1000000000000000u64 } else { 0u64 })
        | (if f.steam { 0x2000000000000000u64 } else { 0u64 })
        | (if f.unused5 { 0x2010000000000000u64 } else { 0u64 })
        | (if f.shaders { 0x4000000000000000u64 } else { 0u64 })
        | (if f.vertex_buffers { 0x8000000000000000u64 } else { 0u64 })
}

impl GMFunctionClassifications {
    /// Decodes the classifications from their bits.
    pub fn parse(raw: u64) -> (r: Self)
        ensures
            r == function_classifications_of(raw),
    {
        GMFunctionClassifications {
            internet: raw & 0x1 != 0,
            joystick: raw & 0x2 != 0,
            gamepad: raw & 0x4 != 0,
            immersion: raw & 0x8 != 0,
            screengrab: raw & 0x10 != 0,
            math: raw & 0x20 != 0,
            action: raw & 0x40 != 0,
            matrix_d3d: raw & 0x80 != 0,
            d3dmodel: raw & 0x100 != 0,
            data_structures: raw & 0x200 != 0,
            file: raw & 0x400 != 0,
            ini: raw & 0x800 != 0,
            filename: raw & 0x1000 != 0,
            directory: raw & 0x2000 != 0,
            environment: raw & 0x4000 != 0,
            unused1: raw & 0x8000 != 0,
            http: raw & 0x10000 != 0,
            encoding: raw & 0x20000 != 0,
            uidialog: raw & 0x40000 != 0,
            motion_planning: raw & 0x80000 != 0,
            shape_collision: raw & 0x100000 != 0,
            instance: raw & 0x200000 != 0,
            room: raw & 0x400000 != 0,
            game: raw & 0x800000 != 0,
            display: raw & 0x1000000 != 0,
            device: raw & 0x2000000 != 0,
            window: raw & 0x4000000 != 0,
            draw_color: raw & 0x8000000 != 0,
            texture: raw & 0x10000000 != 0,
            layer: raw & 0x20000000 != 0,
            string: raw & 0x40000000 != 0,
            tiles: raw & 0x80000000 != 0,
            surface: raw & 0x100000000 != 0,
            skeleton: raw & 0x200000000 != 0,
            io: raw & 0x400000000 != 0,
            variables: raw & 0x800000000 != 0,
            array: raw & 0x1000000000 != 0,
            external_call: raw & 0x2000000000 != 0,
            notification: raw & 0x4000000000 != 0,
            date: raw & 0x8000000000 != 0,
            particle: raw & 0x10000000000 != 0,
            sprite: raw & 0x20000000000 != 0,
            clickable: raw & 0x40000000000 != 0,
            legacy_sound: raw & 0x80000000000 != 0,
            audio: raw & 0x100000000000 != 0,
            event: raw & 0x200000000000 != 0,
            unused2: raw & 0x400000000000 != 0,
            free_type: raw & 0x800000000000 != 0,
            analytics: raw & 0x1000000000000 != 0,
            unused3: raw & 0x2000000000000 != 0,
            unused4: raw & 0x4000000000000 != 0,
            achievement: raw & 0x8000000000000 != 0,
            cloud_saving: raw & 0x10000000000000 != 0,
            ads: raw & 0x20000000000000 != 0,
            os: raw & 0x40000000000000 != 0,
            iap: raw & 0x80000000000000 != 0,
            facebook: raw & 0x100000000000000 != 0,
            physics: raw & 0x200000000000000 != 0,
            flash_aa: raw & 0x400000000000000 != 0,
            console: raw & 0x800000000000000 != 0,
            buffer: raw & 0x1000000000000000 != 0,
            steam: raw & 0x2000000000000000 != 0,
            unused5: raw & 0x2010000000000000 != 0,
            shaders: raw & 0x4000000000000000 != 0,
            vertex_buffers: raw & 0x8000000000000000 != 0,
        }
    }

    /// Encodes the classifications as bits.
    pub fn build(&self) -> (r: u64)
        ensures
            r == function_classifications_bits(*self),
    {
        (if self.internet { 0x1u64 } else { 0u64 })
            | (if self.joystick { 0x2u64 } else { 0u64 })
            | (if self.gamepad { 0x4u64 } else { 0u64 })
            | (if self.immersion { 0x8u64 } else { 0u64 })
            | (if self.screengrab { 0x10u64 } else { 0u64 })
            | (if self.math { 0x20u64 } else { 0u64 })
            | (if self.action { 0x40u64 } else { 0u64 })
            | (if self.matrix_d3d { 0x80u64 } else { 0u64 })
            | (if self.d3dmodel { 0x100u64 } else { 0u64 })
            | (if self.data_structures { 0x200u64 } else { 0u64 })
            | (if self.file { 0x400u64 } else { 0u64 })
            | (if self.ini { 0x800u64 } else { 0u64 })
            | (if self.filename { 0x1000u64 } else { 0u64 })
            | (if self.directory { 0x2000u64 } else { 0u64 })
            | (if self.environment { 0x4000u64 } else { 0u64 })
            | (if self.unused1 { 0x8000u64 } else { 0u64 })
            | (if self.http { 0x10000u64 } else { 0u64 })
            | (if self.encoding { 0x20000u64 } else { 0u64 })
            | (if self.uidialog { 0x40000u64 } else { 0u64 })
            | (if self.motion_planning { 0x80000u64 } else { 0u64 })
            | (if self.shape_collision { 0x100000u64 } else { 0u64 })
            | (if self.instance { 0x200000u64 } else { 0u64 })
            | (if self.room { 0x400000u64 } else { 0u64 })
            | (if self.game { 0x800000u64 } else { 0u64 })
            | (if self.display { 0x1000000u64 } else { 0u64 })
            | (if self.device { 0x2000000u64 } else { 0u64 })
            | (if self.window { 0x4000000u64 } else { 0u64 })
            | (if self.draw_color { 0x8000000u64 } else { 0u64 })
            | (if self.texture { 0x10000000u64 } else { 0u64 })
            | (if self.layer { 0x20000000u64 } else { 0u64 })
            | (if self.string { 0x40000000u64 } else { 0u64 })
            | (if self.tiles { 0x80000000u64 } else { 0u64 })
            | (if self.surface { 0x100000000u64 } else { 0u64 })
            | (if self.skeleton { 0x200000000u64 } else { 0u64 })
            | (if self.io { 0x400000000u64 } else { 0u64 })
            | (if self.variables { 0x800000000u64 } else { 0u64 })
            | (if self.array { 0x1000000000u64 } else { 0u64 })
            | (if self.external_call { 0x2000000000u64 } else { 0u64 })
            | (if self.notification { 0x4000000000u64 } else { 0u64 })
            | (if self.date { 0x8000000000u64 } else { 0u64 })
            | (if self.particle { 0x10000000000u64 } else { 0u64 })
            | (if self.sprite { 0x20000000000u64 } else { 0u64 })
            | (if self.clickable { 0x40000000000u64 } else { 0u64 })
            | (if self.legacy_sound { 0x80000000000u64 } else { 0u64 })
            | (if self.audio { 0x100000000000u64 } else { 0u64 })
            | (if self.event { 0x200000000000u64 } else { 0u64 })
            | (if self.unused2 { 0x400000000000u64 } else { 0u64 })
            | (if self.free_type { 0x800000000000u64 } else { 0u64 })
            | (if self.analytics { 0x1000000000000u64 } else { 0u64 })
            | (if self.unused3 { 0x2000000000000u64 } else { 0u64 })
            | (if self.unused4 { 0x4000000000000u64 } else { 0u64 })
            | (if self.achievement { 0x8000000000000u64 } else { 0u64 })
            | (if self.cloud_saving { 0x10000000000000u64 } else { 0u64 })
            | (if self.ads { 0x20000000000000u64 } else { 0u64 })
            | (if self.os { 0x40000000000000u64 } else { 0u64 })
            | (if self.iap { 0x80000000000000u64 } else { 0u64 })
            | (if self.facebook { 0x100000000000000u64 } else { 0u64 })
            | (if self.physics { 0x200000000000000u64 } else { 0u64 })
            | (if self.flash_aa { 0x400000000000000u64 } else { 0u64 })
            | (if self.console { 0x800000000000000u64 } else { 0u64 })
            | (if self.buffer { 0x1000000000000000u64 } else { 0u64 })
            | (if self.steam { 0x2000000000000000u64 } else { 0u64 })
            | (if self.unused5 { 0x2010000000000000u64 } else { 0u64 })
            | (if self.shaders { 0x4000000000000000u64 } else { 0u64 })
            | (if self.vertex_buffers { 0x8000000000000000u64 } else { 0u64 })
    }
}

impl GMElement for GMFunctionClassifications {
    open spec fn readable<'a>(before: DataReader<'a>) -> bool {
        before.can_read(8)
    }

    open spec fn read_end<'a>(before: DataReader<'a>) -> int {
        before.cur_pos + 8
    }

    open spec fn writable(&self, before: DataBuilder) -> bool {
        true
    }

    open spec fn written(&self, before: DataBuilder, after: DataBuilder) -> bool {
        after.appended(&before, u64_le_bytes(function_classifications_bits(*self)))
    }

    open spec fn deserialized<'a>(before: DataReader<'a>, after: DataReader<'a>, value: GMFunctionClassifications) -> bool {
        moved_past(before, after, 8) && value == function_classifications_of(spec_u64_at(before.data@, before.cur_pos as int))
    }

    fn deserialize(reader: &mut DataReader) -> (r: Result<GMFunctionClassifications, String>)
        ensures
            r is Ok <==> old(reader).can_read(8),
    {
        let raw = reader.read_u64()?;
        Ok(Self::parse(raw))
    }

    fn serialize(&self, builder: &mut DataBuilder) -> (r: Result<(), String>)
        ensures
            r is Ok && final(builder).appended(old(builder), u64_le_bytes(function_classifications_bits(*self))),
    {
        builder.write_u64(self.build());
        proof {
            lemma_appended_extends(*old(builder), *builder, u64_le_bytes(function_classifications_bits(*self)));
        }
        Ok(())
    }
}

/// The earliest creation time (in seconds since 1970) that a date can hold: January 1 of
/// year -262143.
pub const TIMESTAMP_MIN: i64 = -8334601228800;

/// The latest creation time (in seconds since 1970) that a date can hold: the last second of
/// December 31, 262142.
pub const TIMESTAMP_MAX: i64 = 8210266876799;

/// A GUID stored with its first three fields little-endian, in the byte order of the UUID it
/// stands for: the first four bytes reversed, then the next two, then the two after, then
/// the last eight as they are.
pub open spec fn guid_order(b: Seq<u8>) -> Seq<u8> {
    seq![b[3], b[2], b[1], b[0], b[5], b[4], b[7], b[6], b[8], b[9], b[10], b[11], b[12], b[13], b[14], b[15]]
}

/// `uuid::Builder::from_bytes_le`, read back as bytes: claimed to reorder the bytes as
/// `guid_order` says, which is what the crate's source does.
#[verifier::external_body]
fn guid_bytes(b: [u8; 16]) -> (r: [u8; 16])
    ensures
        r@ == guid_order(b@),
{
    uuid::Builder::from_bytes_le(b).into_uuid().into_bytes()
}

/// `chrono::DateTime::from_timestamp(secs, 0)`: claimed to give a date exactly for the
/// seconds between `TIMESTAMP_MIN` and `TIMESTAMP_MAX`, the range of chrono's dates.
#[verifier::external_body]
fn timestamp_in_range(secs: i64) -> (r: bool)
    ensures
        r <==> TIMESTAMP_MIN <= secs <= TIMESTAMP_MAX,
{
    chrono::DateTime::from_timestamp(secs, 0).is_some()
}

/// The data of the general info that GameMaker 2 and later add.
#[derive(Clone, Copy)]
pub struct GMGeneralInfoGMS2 {
    /// Four words derived from the creation time and the game's settings.
    pub random_uid: [i64; 4],
    /// The bits of the game's frame rate (a 32-bit float).
    pub fps: u32,
    /// Whether the runner may report player counts.
    pub allow_statistics: bool,
    pub game_guid: [u8; 16],
    /// Whether the random UID was derived from the creation time less 1000 seconds.
    pub info_timestamp_offset: bool,
}

/// General information about the game.
pub struct GMGeneralInfo {
    pub is_debugger_disabled: bool,
    pub bytecode_version: u8,
    pub unknown_value: u16,
    pub game_file_name: GMRef<String>,
    pub config: GMRef<String>,
    pub last_object_id: u32,
    pub last_tile_id: u32,
    pub game_id: u32,
    /// The DirectPlay GUID, in UUID byte order.
    pub directplay_guid: [u8; 16],
    pub game_name: GMRef<String>,
    pub version: GMVersion,
    pub default_window_width: u32,
    pub default_window_height: u32,
    pub flags: GMGeneralInfoFlags,
    pub license_crc32: u32,
    pub license_md5: [u8; 16],
    /// The creation time, in seconds since 1970.
    pub timestamp_created: i64,
    pub display_name: GMRef<String>,
    pub active_targets: u64,
    pub function_classifications: GMFunctionClassifications,
    pub steam_appid: i32,
    /// Present from bytecode 14 on.
    pub debugger_port: Option<u32>,
    pub room_order: Vec<GMRef<GMRoom>>,
    /// Present in GameMaker 2 and later.
    pub gms2_info: Option<GMGeneralInfoGMS2>,
    pub exists: bool,
}

/// A room (its data lives in chunk `ROOM`, which is read elsewhere).
pub struct GMRoom {
    pub index: u32,
}

/// The seed of the generator behind the random UID: the low 32 bits of the creation time.
pub open spec fn uid_seed(timestamp: i64) -> i32 {
    (timestamp & 0xFFFF_FFFF) as i32
}

/// Two draws of a 31-bit generator joined into one word, the first one high.
pub open spec fn join_draws(high: i32, low: i32) -> i64 {
    ((high as i64) << 32) | (low as i64)
}

/// The first word of the random UID: the generator's first two draws.
pub open spec fn uid_first(timestamp: i64) -> i64 {
    join_draws(rng_output(uid_seed(timestamp), 0), rng_output(uid_seed(timestamp), 1))
}

/// The byte shuffle of a random UID's info number.
pub open spec fn uid_bitmush(info_number: i64) -> i64 {
    let temp = info_number as u64;
    ((temp << 56u64 & 0xFF00_0000_0000_0000u64)
        | (temp >> 8u64 & 0x00FF_0000_0000_0000u64)
        | (temp << 32u64 & 0x0000_FF00_0000_0000u64)
        | (temp >> 16u64 & 0x0000_00FF_0000_0000u64)
        | (temp << 8u64 & 0x0000_0000_FF00_0000u64)
        | (temp >> 24u64 & 0x0000_0000_00FF_0000u64)
        | (temp >> 16u64 & 0x0000_0000_0000_FF00u64)
        | (temp >> 32u64 & 0x0000_0000_0000_00FFu64)) as i64
}

/// The word of the random UID that carries the game's settings: the creation time (less
/// 1000 seconds when `offset`), shuffled, mixed with the first word, inverted, and mixed with
/// the game id, the window size plus the flags, and the bytecode version.
pub open spec fn uid_info_number(timestamp: i64, first: i64, offset: bool, game_id: u32, width: u32,
    height: u32, flags_raw: u32, bytecode_version: u8) -> i64 {
    let t: i64 = if offset { (timestamp - 1000) as i64 } else { timestamp };
    let w: u64 = (width as u64 + flags_raw as u64) as u64;
    let h: u64 = (height as u64 + flags_raw as u64) as u64;
    let g: u64 = game_id as u64;
    let mixed: u64 = !((uid_bitmush(t) ^ first) as u64);
    (mixed ^ ((g << 32u64) | g) ^ ((w << 48u64) | (h << 32u64) | (h << 16u64) | w) ^ (bytecode_version as u64)) as i64
}

/// `x` wrapped into a signed 32-bit integer.
pub open spec fn wrap_i32(x: int) -> int {
    let m = x % 0x1_0000_0000;
    if m >= 0x8000_0000 { m - 0x1_0000_0000 } else { m }
}

/// Where in the random UID the info number stands (0 to 3): the wrapped sum of the low 16
/// bits of the creation time divided by 7, the game id less the window width and the number
/// of rooms, taken without its sign, modulo 4.
pub open spec fn uid_info_location(timestamp: i64, game_id: u32, width: u32, room_count: nat) -> int {
    let w = wrap_i32((timestamp & 0xFFFF) / 7 + wrap_i32(game_id - width) + wrap_i32(room_count as int));
    if w == i32::MIN { 0 } else if w < 0 { (-w) % 4 } else { w % 4 }
}

/// Two 32-bit words joined into one 64-bit word, the first one high.
pub open spec fn join_words(high: u32, low: u32) -> i64 {
    ((high as i64) << 32) | (low as i64)
}

/// Slot `i` of the random UID after the first word, in data `d` whose UID starts at `e`, is
/// what it must be: at the info location `loc`, one of the two info numbers; elsewhere, two
/// words that are the generator's next two draws.
pub open spec fn uid_slot_valid(d: Seq<u8>, e: int, loc: int, i: int, timestamp: i64, with_offset: i64,
    without: i64) -> bool {
    let slot = e + 8 + 8 * i;
    let j = if i < loc { i } else { i - 1 };
    if i == loc {
        spec_i64_at(d, slot) == with_offset || spec_i64_at(d, slot) == without
    } else {
        &&& spec_u32_at(d, slot) == rng_output(uid_seed(timestamp), (2 + 2 * j) as nat) as u32
        &&& spec_u32_at(d, slot + 4) == rng_output(uid_seed(timestamp), (3 + 2 * j) as nat) as u32
    }
}

/// The word that slot `i` of the random UID gives: the 64-bit word at the info location, else
/// its two 32-bit words joined, the first one high.
pub open spec fn uid_slot_word(d: Seq<u8>, e: int, loc: int, i: int) -> i64 {
    let slot = e + 8 + 8 * i;
    if i == loc { spec_i64_at(d, slot) } else { join_words(spec_u32_at(d, slot), spec_u32_at(d, slot + 4)) }
}

/// Word `i` of the random UID after the first was read as `v`.
pub open spec fn uid_slot_read(d: Seq<u8>, e: int, loc: int, i: int, timestamp: i64, with_offset: i64,
    without: i64, v: i64) -> bool {
    uid_slot_valid(d, e, loc, i, timestamp, with_offset, without) && v == uid_slot_word(d, e, loc, i)
}

/// The GameMaker 2 part of the general info was read from `before` to `after`, for a game
/// with this creation time, these settings and this many rooms: the first word of the
/// random UID is the generator's first two draws; of the four words after it, the one at
/// the info location is the info number (with or without the offset, which is recorded)
/// and each other holds the generator's next two draws; then the frame rate bits, the
/// statistics flag and the game GUID follow.
pub open spec fn gms2_read<'a>(before: DataReader<'a>, after: DataReader<'a>, timestamp: i64, game_id: u32,
    width: u32, height: u32, flags_raw: u32, bytecode_version: u8, room_count: nat, g: GMGeneralInfoGMS2) -> bool {
    let e = before.cur_pos as int;
    let d = before.data@;
    let seed = uid_seed(timestamp);
    let first = uid_first(timestamp);
    let loc = uid_info_location(timestamp, game_id, width, room_count);
    let with_offset = uid_info_number(timestamp, first, true, game_id, width, height, flags_raw, bytecode_version);
    let without = uid_info_number(timestamp, first, false, game_id, width, height, flags_raw, bytecode_version);
    &&& before.can_read(64)
    &&& after == before.moved(e + 64)
    &&& spec_i64_at(d, e) == first
    &&& forall|i: int| 0 <= i < 4 ==> uid_slot_read(d, e, loc, i, timestamp, with_offset, without, #[trigger] g.random_uid@[i])
    &&& g.info_timestamp_offset == (spec_i64_at(d, e + 8 + 8 * loc) == with_offset)
    &&& g.fps == spec_u32_at(d, e + 40)
    &&& bool32_at(d, e + 44) == Some(g.allow_statistics)
    &&& g.game_guid@ == d.subrange(e + 48, e + 64)
}

/// `x` wrapped into a signed 32-bit integer.
fn wrap_i32_exec(x: i64) -> (r: i64)
    requires
        -0x100_0000_0000 <= x <= 0x100_0000_0000,
    ensures
        r == wrap_i32(x as int),
{
    let y: i64 = x + 0x100_0000_0000;
    let m: i64 = y % 0x1_0000_0000;
    assert(m == (x as int) % 0x1_0000_0000) by (nonlinear_arith)
        requires y == x + 0x100_0000_0000, y >= 0, m == y % 0x1_0000_0000;
    if m >= 0x8000_0000 { m - 0x1_0000_0000 } else { m }
}

/// The info location of the random UID.
fn info_location(timestamp: i64, game_id: u32, width: u32, room_count: usize) -> (r: usize)
    requires
        room_count <= u32::MAX,
    ensures
        r == uid_info_location(timestamp, game_id, width, room_count as nat),
        r < 4,
{
    let low: i64 = timestamp & 0xFFFF;
    assert(0 <= low <= 0xFFFF) by (bit_vector)
        requires low == timestamp & 0xFFFF;
    let a: i64 = low / 7;
    let dd = wrap_i32_exec(game_id as i64 - width as i64);
    let c = wrap_i32_exec(room_count as i64);
    let w = wrap_i32_exec(a + dd + c);
    if w == i32::MIN as i64 {
        0
    } else if w < 0 {
        ((-w) % 4) as usize
    } else {
        (w % 4) as usize
    }
}

/// The byte shuffle of an info number.
fn bitmush(info_number: i64) -> (r: i64)
    ensures
        r == uid_bitmush(info_number),
{
    let temp = info_number as u64;
    ((temp << 56u64 & 0xFF00_0000_0000_0000u64)
        | (temp >> 8u64 & 0x00FF_0000_0000_0000u64)
        | (temp << 32u64 & 0x0000_FF00_0000_0000u64)
        | (temp >> 16u64 & 0x0000_00FF_0000_0000u64)
        | (temp << 8u64 & 0x0000_0000_FF00_0000u64)
        | (temp >> 24u64 & 0x0000_0000_00FF_0000u64)
        | (temp >> 16u64 & 0x0000_0000_0000_FF00u64)
        | (temp >> 32u64 & 0x0000_0000_0000_00FFu64)) as i64
}

/// The info number of the random UID.
fn info_number(timestamp: i64, first: i64, offset: bool, game_id: u32, width: u32, height: u32,
    flags_raw: u32, bytecode_version: u8) -> (r: i64)
    requires
        TIMESTAMP_MIN <= timestamp,
    ensures
        r == uid_info_number(timestamp, first, offset, game_id, width, height, flags_raw, bytecode_version),
{
    let t: i64 = if offset { timestamp - 1000 } else { timestamp };
    let w: u64 = width as u64 + flags_raw as u64;
    let h: u64 = height as u64 + flags_raw as u64;
    let g: u64 = game_id as u64;
    let mixed: u64 = !((bitmush(t) ^ first) as u64);
    (mixed ^ ((g << 32u64) | g) ^ ((w << 48u64) | (h << 32u64) | (h << 16u64) | w) ^ (bytecode_version as u64)) as i64
}

/// The GameMaker 2 part of the general info can be read from `before` for a game with this
/// creation time, these settings and this many rooms: the 64 bytes are there, the random UID
/// matches the generator and the settings, and the statistics flag is 0 or 1.
pub open spec fn gms2_readable<'a>(before: DataReader<'a>, timestamp: i64, game_id: u32, width: u32,
    height: u32, flags_raw: u32, bytecode_version: u8, room_count: nat) -> bool {
    let e = before.cur_pos as int;
    let d = before.data@;
    let first = uid_first(timestamp);
    let loc = uid_info_location(timestamp, game_id, width, room_count);
    let with_offset = uid_info_number(timestamp, first, true, game_id, width, height, flags_raw, bytecode_version);
    let without = uid_info_number(timestamp, first, false, game_id, width, height, flags_raw, bytecode_version);
    &&& before.can_read(64)
    &&& spec_i64_at(d, e) == first
    &&& forall|i: int| 0 <= i < 4 ==> #[trigger] uid_slot_valid(d, e, loc, i, timestamp, with_offset, without)
    &&& bool32_at(d, e + 44) is Some
}


/// Reads the GameMaker 2 part of the general info, checking the random UID against the
/// generator seeded with the creation time.
#[verifier::rlimit(60)]
#[verifier::spinoff_prover]
fn read_gms2_info(reader: &mut DataReader, timestamp: i64, game_id: u32, width: u32, height: u32,
    flags_raw: u32, bytecode_version: u8, room_count: usize) -> (r: Result<GMGeneralInfoGMS2, String>)
    requires
        old(reader).wf(),
        TIMESTAMP_MIN <= timestamp,
        room_count <= u32::MAX,
    ensures
        final(reader).wf(),
        final(reader).data == old(reader).data,
        old(reader).only_moved(*final(reader)),
        r matches Ok(g) ==> gms2_read(*old(reader), *final(reader), timestamp, game_id, width, height,
            flags_raw, bytecode_version, room_count as nat, g),
        gms2_readable(*old(reader), timestamp, game_id, width, height, flags_raw, bytecode_version, room_count as nat)
            ==> r is Ok,
{
    let ghost e = reader.cur_pos as int;
    let ghost d = reader.data@;
    let ghost base = *reader;
    #[verifier::truncate]
    let seed: i32 = (timestamp & 0xFFFF_FFFF) as i32;
    let mut rng = CSharpRng::new(seed);
    let high = rng.next();
    let low = rng.next();
    let first_expected: i64 = ((high as i64) << 32) | (low as i64);
    let first_actual = reader.read_i64()?;
    if first_actual != first_expected {
        return Err("Unexpected random UID #1".to_owned());
    }
    let loc = info_location(timestamp, game_id, width, room_count);
    let with_offset = info_number(timestamp, first_expected, true, game_id, width, height, flags_raw, bytecode_version);
    let without = info_number(timestamp, first_expected, false, game_id, width, height, flags_raw, bytecode_version);
    let ghost ok = gms2_readable(base, timestamp, game_id, width, height, flags_raw, bytecode_version, room_count as nat);
    let mut info_timestamp_offset = true;
    let mut random_uid: Vec<i64> = Vec::new();
    let mut i: usize = 0;
    while i < 4
        invariant
            i <= 4,
            loc < 4,
            reader.wf(),
            reader.data == base.data,
            base == *old(reader),
            e == base.cur_pos,
            d == base.data@,
            base.can_read(8 + 8 * i),
            *reader == base.moved(e + 8 + 8 * i),
            rng.wf(),
            rng.seed() == uid_seed(timestamp),
            rng.draws() == 2 + 2 * (if i <= loc { i } else { (i - 1) as usize }),
            first_expected == uid_first(timestamp),
            loc == uid_info_location(timestamp, game_id, width, room_count as nat),
            with_offset == uid_info_number(timestamp, first_expected, true, game_id, width, height, flags_raw, bytecode_version),
            without == uid_info_number(timestamp, first_expected, false, game_id, width, height, flags_raw, bytecode_version),
            random_uid@.len() == i,
            ok == gms2_readable(base, timestamp, game_id, width, height, flags_raw, bytecode_version, room_count as nat),
            i <= loc ==> info_timestamp_offset,
            i > loc ==> info_timestamp_offset == (spec_i64_at(d, e + 8 + 8 * loc) == with_offset),
            forall|k: int| 0 <= k < i ==> uid_slot_read(d, e, loc as int, k, timestamp, with_offset, without, #[trigger] random_uid@[k]),
        decreases 4 - i,
    {
        let ghost prev = random_uid@;
        let ghost slot = e + 8 + 8 * i;
        proof {
            if ok {
                assert(uid_slot_valid(d, e, loc as int, i as int, timestamp, with_offset, without));
            }
        }
        if i == loc {
            let curr = reader.read_i64()?;
            if curr != with_offset {
                if curr != without {
                    return Err("Unexpected random UID info".to_owned());
                } else {
                    info_timestamp_offset = false;
                }
            }
            random_uid.push(curr);
        } else {
            let second_actual = reader.read_u32()?;
            let third_actual = reader.read_u32()?;
            let second_expected = rng.next() as u32;
            let third_expected = rng.next() as u32;
            if second_actual != second_expected {
                return Err("Unexpected random UID #2".to_owned());
            }
            if third_actual != third_expected {
                return Err("Unexpected random UID #3".to_owned());
            }
            random_uid.push(((second_actual as i64) << 32) | (third_actual as i64));
        }
        proof {
            assert forall|k: int| 0 <= k < i + 1 implies uid_slot_read(d, e, loc as int, k, timestamp, with_offset, without,
                #[trigger] random_uid@[k]) by {
                if k < i {
                    assert(random_uid@[k] == prev[k]);
                }
            }
        }
        i = i + 1;
    }
    let fps = reader.read_u32()?;
    let allow_statistics = reader.read_bool32()?;
    let game_guid = reader.read_bytes16()?;
    let uid: [i64; 4] = [random_uid[0], random_uid[1], random_uid[2], random_uid[3]];
    assert(uid@ =~= random_uid@);
    Ok(GMGeneralInfoGMS2 { random_uid: uid, fps, allow_statistics, game_guid, info_timestamp_offset })
}

/// Where the room order of the general info at `p` starts: after the debugger port, which is
/// there from bytecode 14 on.
pub open spec fn room_order_pos(d: Seq<u8>, p: int) -> int {
    if d[p + 1] >= 14 { p + 128 } else { p + 124 }
}

/// The fields of the general info before its GameMaker 2 part were read from `before`: each
/// at its place, with the GUID reordered, a creation time that a date can hold, the debugger
/// port from bytecode 14 on, and the list of room ids.
pub open spec fn general_info_head_read<'a>(before: DataReader<'a>, v: GMGeneralInfo) -> bool {
    let p = before.cur_pos as int;
    let d = before.data@;
    let q = room_order_pos(d, p);
    let rooms = before.moved(q);
    &&& before.can_read(q - p)
    &&& (d[p] == 0 || d[p] == 1)
    &&& v.is_debugger_disabled == (d[p] == 1)
    &&& v.bytecode_version == d[p + 1]
    &&& v.unknown_value == spec_u16_at(d, p + 2)
    &&& string_at(before, p + 4) == Some(v.game_file_name)
    &&& string_at(before, p + 8) == Some(v.config)
    &&& v.last_object_id == spec_u32_at(d, p + 12)
    &&& v.last_tile_id == spec_u32_at(d, p + 16)
    &&& v.game_id == spec_u32_at(d, p + 20)
    &&& v.directplay_guid@ == guid_order(d.subrange(p + 24, p + 40))
    &&& string_at(before, p + 40) == Some(v.game_name)
    &&& v.version == (GMVersion {
        major: spec_u32_at(d, p + 44),
        minor: spec_u32_at(d, p + 48),
        release: spec_u32_at(d, p + 52),
        build: spec_u32_at(d, p + 56),
        branch: LTSBranch::PreLTS,
    })
    &&& v.default_window_width == spec_u32_at(d, p + 60)
    &&& v.default_window_height == spec_u32_at(d, p + 64)
    &&& v.flags == general_info_flags_of(spec_u32_at(d, p + 68))
    &&& v.license_crc32 == spec_u32_at(d, p + 72)
    &&& v.license_md5@ == d.subrange(p + 76, p + 92)
    &&& v.timestamp_created == spec_i64_at(d, p + 92)
    &&& TIMESTAMP_MIN <= v.timestamp_created <= TIMESTAMP_MAX
    &&& string_at(before, p + 100) == Some(v.display_name)
    &&& v.active_targets == spec_u64_at(d, p + 104)
    &&& v.function_classifications == function_classifications_of(spec_u64_at(d, p + 112))
    &&& v.steam_appid == spec_i32_at(d, p + 120)
    &&& v.debugger_port == (if d[p + 1] >= 14 { Some(spec_u32_at(d, p + 124)) } else { None })
    &&& id_list_readable(rooms)
    &&& v.room_order@.len() == rooms.word()
    &&& forall|k: int| 0 <= k < v.room_order@.len() ==> #[trigger] v.room_order@[k] == gm_ref::<GMRoom>(spec_u32_at(d, q + 4 + 4 * k))
    &&& v.exists
}

/// The fields of the general info before its GameMaker 2 part can be read from `before`:
/// they are there, the debugger flag is 0 or 1, the names resolve, the creation time is one
/// a date can hold, and the room ids can be read.
pub open spec fn general_info_head_readable<'a>(before: DataReader<'a>) -> bool {
    let p = before.cur_pos as int;
    let d = before.data@;
    let q = room_order_pos(d, p);
    let ts = spec_i64_at(d, p + 92);
    &&& before.can_read(q - p)
    &&& (d[p] == 0 || d[p] == 1)
    &&& string_at(before, p + 4) is Some
    &&& string_at(before, p + 8) is Some
    &&& string_at(before, p + 40) is Some
    &&& string_at(before, p + 100) is Some
    &&& TIMESTAMP_MIN <= ts <= TIMESTAMP_MAX
    &&& id_list_readable(before.moved(q))
}

/// Where the room order of the general info at `before` ends.
pub open spec fn room_order_end<'a>(before: DataReader<'a>) -> int {
    let q = room_order_pos(before.data@, before.cur_pos as int);
    q + 4 + 4 * before.moved(q).word()
}

/// Reads the general info's fields up to its GUID: the debugger flag (a byte that is 0 or 1),
/// the bytecode version, an unknown word, the file and configuration names and three ids.
#[verifier::rlimit(40)]
fn read_info_ids(reader: &mut DataReader) -> (r: Result<(bool, u8, u16, GMRef<String>, GMRef<String>, u32, u32, u32), String>)
    requires
        old(reader).wf(),
    ensures
        final(reader).wf(),
        final(reader).data == old(reader).data,
        old(reader).only_moved(*final(reader)),
        r matches Ok(t) ==> {
            let p = old(reader).cur_pos as int;
            let d = old(reader).data@;
            &&& old(reader).can_read(24)
            &&& *final(reader) == old(reader).moved(p + 24)
            &&& (d[p] == 0 || d[p] == 1)
            &&& t.0 == (d[p] == 1)
            &&& t.1 == d[p + 1]
            &&& t.2 == spec_u16_at(d, p + 2)
            &&& string_at(*old(reader), p + 4) == Some(t.3)
            &&& string_at(*old(reader), p + 8) == Some(t.4)
            &&& t.5 == spec_u32_at(d, p + 12)
            &&& t.6 == spec_u32_at(d, p + 16)
            &&& t.7 == spec_u32_at(d, p + 20)
        },
        ({
            let p = old(reader).cur_pos as int;
            let d = old(reader).data@;
            old(reader).can_read(24) && (d[p] == 0 || d[p] == 1) && string_at(*old(reader), p + 4) is Some
                && string_at(*old(reader), p + 8) is Some
        }) ==> r is Ok,
{
    let debugger_byte = reader.read_u8()?;
    let is_debugger_disabled: bool = if debugger_byte == 0 {
        false
    } else if debugger_byte == 1 {
        true
    } else {
        return Err("Invalid u8 bool while reading general info \"is debugger disabled\"".to_owned());
    };
    let bytecode_version = reader.read_u8()?;
    let unknown_value = reader.read_u16()?;
    let game_file_name = reader.read_gm_string()?;
    let config = reader.read_gm_string()?;
    let last_object_id = reader.read_u32()?;
    let last_tile_id = reader.read_u32()?;
    let game_id = reader.read_u32()?;
    Ok((is_debugger_disabled, bytecode_version, unknown_value, game_file_name, config, last_object_id, last_tile_id, game_id))
}

/// Reads the general info's fields from its GUID to its creation time, which must be one
/// that a date can hold.
#[verifier::rlimit(40)]
fn read_info_settings(reader: &mut DataReader)
    -> (r: Result<([u8; 16], GMRef<String>, GMVersion, u32, u32, u32, u32, [u8; 16], i64), String>)
    requires
        old(reader).wf(),
    ensures
        final(reader).wf(),
        final(reader).data == old(reader).data,
        old(reader).only_moved(*final(reader)),
        r matches Ok(t) ==> {
            let p = old(reader).cur_pos as int;
            let d = old(reader).data@;
            &&& old(reader).can_read(76)
            &&& *final(reader) == old(reader).moved(p + 76)
            &&& t.0@ == guid_order(d.subrange(p, p + 16))
            &&& string_at(*old(reader), p + 16) == Some(t.1)
            &&& t.2 == (GMVersion {
                major: spec_u32_at(d, p + 20),
                minor: spec_u32_at(d, p + 24),
                release: spec_u32_at(d, p + 28),
                build: spec_u32_at(d, p + 32),
                branch: LTSBranch::PreLTS,
            })
            &&& t.3 == spec_u32_at(d, p + 36)
            &&& t.4 == spec_u32_at(d, p + 40)
            &&& t.5 == spec_u32_at(d, p + 44)
            &&& t.6 == spec_u32_at(d, p + 48)
            &&& t.7@ == d.subrange(p + 52, p + 68)
            &&& t.8 == spec_i64_at(d, p + 68)
            &&& TIMESTAMP_MIN <= t.8 <= TIMESTAMP_MAX
        },
        ({
            let p = old(reader).cur_pos as int;
            let ts = spec_i64_at(old(reader).data@, p + 68);
            old(reader).can_read(76) && string_at(*old(reader), p + 16) is Some && TIMESTAMP_MIN <= ts <= TIMESTAMP_MAX
        }) ==> r is Ok,
{
    let raw_guid = reader.read_bytes16()?;
    let directplay_guid = guid_bytes(raw_guid);
    let game_name = reader.read_gm_string()?;
    let major = reader.read_u32()?;
    let minor = reader.read_u32()?;
    let release = reader.read_u32()?;
    let build = reader.read_u32()?;
    let version = GMVersion::new(major, minor, release, build);
    let default_window_width = reader.read_u32()?;
    let default_window_height = reader.read_u32()?;
    let flags_raw = reader.read_u32()?;
    let license_crc32 = reader.read_u32()?;
    let license_md5 = reader.read_bytes16()?;
    let timestamp_created = reader.read_i64()?;
    if !timestamp_in_range(timestamp_created) {
        return Err("Invalid creation timestamp in chunk 'GEN8'".to_owned());
    }
    Ok((directplay_guid, game_name, version, default_window_width, default_window_height, flags_raw, license_crc32,
        license_md5, timestamp_created))
}

/// Reads the general info's fields from its display name to its room order: the debugger
/// port is there from bytecode 14 on.
#[verifier::rlimit(40)]
fn read_info_targets(reader: &mut DataReader, bytecode_version: u8)
    -> (r: Result<(GMRef<String>, u64, u64, i32, Option<u32>, Vec<GMRef<GMRoom>>), String>)
    requires
        old(reader).wf(),
    ensures
        final(reader).wf(),
        final(reader).data == old(reader).data,
        old(reader).only_moved(*final(reader)),
        r matches Ok(t) ==> {
            let p = old(reader).cur_pos as int;
            let d = old(reader).data@;
            let q = if bytecode_version >= 14 { p + 28 } else { p + 24 };
            let rooms = old(reader).moved(q);
            &&& old(reader).can_read(q - p)
            &&& string_at(*old(reader), p) == Some(t.0)
            &&& t.1 == spec_u64_at(d, p + 4)
            &&& t.2 == spec_u64_at(d, p + 12)
            &&& t.3 == spec_i32_at(d, p + 20)
            &&& t.4 == (if bytecode_version >= 14 { Some(spec_u32_at(d, p + 24)) } else { None })
            &&& id_list_readable(rooms)
            &&& t.5@.len() == rooms.word()
            &&& forall|k: int| 0 <= k < t.5@.len() ==> #[trigger] t.5@[k] == gm_ref::<GMRoom>(spec_u32_at(d, q + 4 + 4 * k))
            &&& final(reader).cur_pos == q + 4 + 4 * rooms.word()
        },
        ({
            let p = old(reader).cur_pos as int;
            let q = if bytecode_version >= 14 { p + 28 } else { p + 24 };
            old(reader).can_read(q - p) && string_at(*old(reader), p) is Some && id_list_readable(old(reader).moved(q))
        }) ==> r is Ok,
{
    let display_name = reader.read_gm_string()?;
    let active_targets = reader.read_u64()?;
    let classifications_raw = reader.read_u64()?;
    let steam_appid = reader.read_i32()?;
    let debugger_port: Option<u32> = if bytecode_version >= 14 {
        Some(reader.read_u32()?)
    } else {
        None
    };
    let room_order: Vec<GMRef<GMRoom>> = reader.read_simple_list_of_resource_ids()?;
    Ok((display_name, active_targets, classifications_raw, steam_appid, debugger_port, room_order))
}

/// Reads the fields of the general info before its GameMaker 2 part.
#[verifier::rlimit(60)]
#[verifier::spinoff_prover]
fn read_general_info_head(reader: &mut DataReader) -> (r: Result<(GMGeneralInfo, u32), String>)
    requires
        old(reader).wf(),
    ensures
        final(reader).wf(),
        final(reader).data == old(reader).data,
        old(reader).only_moved(*final(reader)),
        r matches Ok((v, flags_raw)) ==> {
            &&& general_info_head_read(*old(reader), v)
            &&& flags_raw == spec_u32_at(old(reader).data@, old(reader).cur_pos + 68)
            &&& v.gms2_info is None
            &&& final(reader).cur_pos == room_order_end(*old(reader))
        },
        general_info_head_readable(*old(reader)) ==> r is Ok,
{
    let ghost base = *reader;
    let ghost p = reader.cur_pos as int;
    let ids = read_info_ids(reader)?;
    let ghost r1 = *reader;
    let settings = read_info_settings(reader)?;
    let ghost r2 = *reader;
    let targets = read_info_targets(reader, ids.1)?;
    let (is_debugger_disabled, bytecode_version, unknown_value, game_file_name, config, last_object_id, last_tile_id, game_id) = ids;
    let (directplay_guid, game_name, version, default_window_width, default_window_height, flags_raw, license_crc32,
        license_md5, timestamp_created) = settings;
    let (display_name, active_targets, classifications_raw, steam_appid, debugger_port, room_order) = targets;
    proof {
        assert(base.data@.subrange(p + 24, p + 40) =~= r1.data@.subrange(r1.cur_pos as int, r1.cur_pos + 16));
        assert(base.data@.subrange(p + 76, p + 92) =~= r1.data@.subrange(r1.cur_pos + 52, r1.cur_pos + 68));
        assert(base.moved(room_order_pos(base.data@, p)) == r2.moved(room_order_pos(base.data@, p)));
    }
    Ok((GMGeneralInfo {
        is_debugger_disabled,
        bytecode_version,
        unknown_value,
        game_file_name,
        config,
        last_object_id,
        last_tile_id,
        game_id,
        directplay_guid,
        game_name,
        version,
        default_window_width,
        default_window_height,
        flags: GMGeneralInfoFlags::parse(flags_raw),
        license_crc32,
        license_md5,
        timestamp_created,
        display_name,
        active_targets,
        function_classifications: GMFunctionClassifications::parse(classifications_raw),
        steam_appid,
        debugger_port,
        room_order,
        gms2_info: None,
        exists: true,
    }, flags_raw))
}

/// The bytes a GUID in UUID byte order is stored as: the inverse reordering, which is the
/// same swap.
fn guid_storage_bytes(g: &[u8; 16]) -> (r: [u8; 16])
    ensures
        r@ == guid_order(g@),
{
    let r: [u8; 16] = [g[3], g[2], g[1], g[0], g[5], g[4], g[7], g[6], g[8], g[9], g[10], g[11], g[12], g[13], g[14], g[15]];
    assert(r@ =~= guid_order(g@));
    r
}

/// The words of the room order.
pub open spec fn room_ids_bytes(rooms: Seq<GMRef<GMRoom>>) -> Seq<u8>
    decreases rooms.len(),
{
    if rooms.len() == 0 {
        Seq::empty()
    } else {
        room_ids_bytes(rooms.drop_last()) + u32_le_bytes(rooms.last().index)
    }
}

/// The first four bytes of the general info: the debugger flag, the bytecode version and
/// an unknown 16-bit value.
pub open spec fn info_start_bytes(info: GMGeneralInfo) -> Seq<u8> {
    seq![if info.is_debugger_disabled { 1u8 } else { 0u8 }, info.bytecode_version] + u16_le_bytes(info.unknown_value)
}

/// The last object and tile ids, the game id and the stored DirectPlay GUID.
pub open spec fn info_ids_bytes(info: GMGeneralInfo) -> Seq<u8> {
    u32_le_bytes(info.last_object_id) + u32_le_bytes(info.last_tile_id) + u32_le_bytes(info.game_id)
        + guid_order(info.directplay_guid@)
}

/// The version, window size, flags, license and creation time.
pub open spec fn info_settings_bytes(info: GMGeneralInfo) -> Seq<u8> {
    u32_le_bytes(info.version.major) + u32_le_bytes(info.version.minor) + u32_le_bytes(info.version.release)
        + u32_le_bytes(info.version.build) + u32_le_bytes(info.default_window_width)
        + u32_le_bytes(info.default_window_height) + u32_le_bytes(general_info_flags_bits(info.flags))
        + u32_le_bytes(info.license_crc32) + info.license_md5@ + u64_le_bytes(info.timestamp_created as u64)
}

/// The targets, function classifications, Steam app id and, from bytecode 14 on, the
/// debugger port.
pub open spec fn info_targets_bytes(info: GMGeneralInfo) -> Seq<u8> {
    u64_le_bytes(info.active_targets) + u64_le_bytes(function_classifications_bits(info.function_classifications))
        + u32_le_bytes(info.steam_appid as u32)
        + (if info.bytecode_version >= 14 { u32_le_bytes(info.debugger_port->Some_0) } else { Seq::empty() })
}

/// The bytes of the general info before its GameMaker 2 part, with a placeholder for each
/// string reference.
pub open spec fn info_head_bytes(info: GMGeneralInfo) -> Seq<u8> {
    info_start_bytes(info) + ref_placeholder() + ref_placeholder() + info_ids_bytes(info) + ref_placeholder()
        + info_settings_bytes(info) + ref_placeholder() + info_targets_bytes(info)
        + u32_le_bytes(info.room_order@.len() as u32) + room_ids_bytes(info.room_order@)
}

/// Slot `i` of the random UID after the first word: the info number at the info location
/// `loc`, else the generator's next two draws as 32-bit words.
pub open spec fn uid_slot_bytes(seed: i32, loc: int, number: i64, i: int) -> Seq<u8> {
    let j = if i < loc { i } else { i - 1 };
    if i == loc {
        u64_le_bytes(number as u64)
    } else {
        u32_le_bytes(rng_output(seed, (2 + 2 * j) as nat) as u32)
            + u32_le_bytes(rng_output(seed, (3 + 2 * j) as nat) as u32)
    }
}

/// The first `n` slots of the random UID after its first word.
pub open spec fn uid_slots_bytes(seed: i32, loc: int, number: i64, n: int) -> Seq<u8>
    decreases n,
{
    if n <= 0 {
        Seq::empty()
    } else {
        uid_slots_bytes(seed, loc, number, n - 1) + uid_slot_bytes(seed, loc, number, n - 1)
    }
}

/// The bytes of the GameMaker 2 part of the general info: the random UID that the generator
/// seeded with the creation time and the settings give, the frame rate bits, the statistics
/// flag and the game GUID.
pub open spec fn gms2_bytes(info: GMGeneralInfo, g: GMGeneralInfoGMS2) -> Seq<u8> {
    let t = info.timestamp_created;
    let first = uid_first(t);
    let number = uid_info_number(t, first, g.info_timestamp_offset, info.game_id, info.default_window_width,
        info.default_window_height, general_info_flags_bits(info.flags), info.bytecode_version);
    let loc = uid_info_location(t, info.game_id, info.default_window_width, info.room_order@.len());
    u64_le_bytes(first as u64) + uid_slots_bytes(uid_seed(t), loc, number, 4) + u32_le_bytes(g.fps)
        + bool32_bytes(g.allow_statistics) + g.game_guid@
}

/// Writes the fields of the general info before its GameMaker 2 part.
#[verifier::rlimit(60)]
fn write_info_head(info: &GMGeneralInfo, builder: &mut DataBuilder) -> (r: Result<(), String>)
    ensures
        final(builder).extends(old(builder)),
        r is Ok ==> final(builder).bytes@ == old(builder).bytes@ + info_head_bytes(*info),
        old(builder).bytes@.len() + 100 <= u32::MAX && (info.bytecode_version >= 14 ==> info.debugger_port is Some)
            && info.room_order@.len() <= u32::MAX ==> r is Ok,
{
    proof {
        lemma_extends_refl(*builder);
    }
    let head: [u8; 2] = [if info.is_debugger_disabled { 1u8 } else { 0u8 }, info.bytecode_version];
    builder.write_bytes(&head);
    builder.write_u16(info.unknown_value);
    let ghost b2 = *builder;
    proof {
        lemma_prefix_extends(*old(builder), b2);
        assert(b2.bytes@.len() == old(builder).bytes@.len() + 4);
    }
    let res = builder.write_gm_string(&info.game_file_name);
    proof { lemma_extends_trans(*old(builder), b2, *builder); }
    res?;
    let ghost b3 = *builder;
    assert(b3.bytes@ =~= old(builder).bytes@ + info_start_bytes(*info) + ref_placeholder());
    let res = builder.write_gm_string(&info.config);
    proof { lemma_extends_trans(*old(builder), b3, *builder); }
    res?;
    let ghost b4 = *builder;
    let ghost p4 = old(builder).bytes@ + info_start_bytes(*info) + ref_placeholder() + ref_placeholder();
    assert(b4.bytes@ =~= p4);
    builder.write_u32(info.last_object_id);
    builder.write_u32(info.last_tile_id);
    builder.write_u32(info.game_id);
    let guid = guid_storage_bytes(&info.directplay_guid);
    builder.write_bytes(&guid);
    proof { lemma_prefix_extends(b4, *builder); lemma_extends_trans(*old(builder), b4, *builder); }
    let ghost b5 = *builder;
    assert(b5.bytes@ =~= p4 + info_ids_bytes(*info));
    let res = builder.write_gm_string(&info.game_name);
    proof { lemma_extends_trans(*old(builder), b5, *builder); }
    res?;
    let ghost b6 = *builder;
    let ghost p6 = p4 + info_ids_bytes(*info) + ref_placeholder();
    assert(b6.bytes@ =~= p6);
    builder.write_u32(info.version.major);
    builder.write_u32(info.version.minor);
    builder.write_u32(info.version.release);
    builder.write_u32(info.version.build);
    builder.write_u32(info.default_window_width);
    builder.write_u32(info.default_window_height);
    builder.write_u32(info.flags.build());
    builder.write_u32(info.license_crc32);
    builder.write_bytes(&info.license_md5);
    builder.write_i64(info.timestamp_created);
    proof { lemma_prefix_extends(b6, *builder); lemma_extends_trans(*old(builder), b6, *builder); }
    let ghost b7 = *builder;
    assert(b7.bytes@ =~= p6 + info_settings_bytes(*info));
    let res = builder.write_gm_string(&info.display_name);
    proof { lemma_extends_trans(*old(builder), b7, *builder); }
    res?;
    let ghost b8 = *builder;
    let ghost p8 = p6 + info_settings_bytes(*info) + ref_placeholder();
    assert(b8.bytes@ =~= p8);
    builder.write_u64(info.active_targets);
    builder.write_u64(info.function_classifications.build());
    builder.write_i32(info.steam_appid);
    proof { lemma_prefix_extends(b8, *builder); lemma_extends_trans(*old(builder), b8, *builder); }
    let ghost b9 = *builder;
    if info.bytecode_version >= 14 {
        match info.debugger_port {
            Some(port) => {
                builder.write_u32(port);
                proof { lemma_prefix_extends(b9, *builder); lemma_extends_trans(*old(builder), b9, *builder); }
            },
            None => return Err("Debugger Port not set for bytecode 14 and later".to_owned()),
        }
    }
    let ghost b10 = *builder;
    assert(b10.bytes@ =~= p8 + info_targets_bytes(*info));
    if let Err(e) = builder.write_usize(info.room_order.len()) {
        return Err(e);
    }
    proof { lemma_prefix_extends(b10, *builder); lemma_extends_trans(*old(builder), b10, *builder); }
    let ghost b11 = *builder;
    let mut k: usize = 0;
    while k < info.room_order.len()
        invariant
            builder.extends(old(builder)),
            k <= info.room_order@.len(),
            builder.bytes@ == b11.bytes@ + room_ids_bytes(info.room_order@.take(k as int)),
        decreases info.room_order@.len() - k,
    {
        let ghost b12 = *builder;
        builder.write_resource_id(&info.room_order[k]);
        proof {
            lemma_prefix_extends(b12, *builder);
            lemma_extends_trans(*old(builder), b12, *builder);
            let next = info.room_order@.take(k + 1);
            assert(next.drop_last() =~= info.room_order@.take(k as int));
            assert(builder.bytes@ =~= b11.bytes@ + room_ids_bytes(next));
        }
        k = k + 1;
    }
    proof {
        assert(info.room_order@.take(info.room_order@.len() as int) =~= info.room_order@);
        assert(builder.bytes@ =~= p8 + info_targets_bytes(*info) + u32_le_bytes(info.room_order@.len() as u32)
            + room_ids_bytes(info.room_order@));
        assert(builder.bytes@ =~= old(builder).bytes@ + info_head_bytes(*info));
    }
    Ok(())
}

/// Writes the GameMaker 2 part of the general info: the random UID that the generator seeded
/// with the creation time and the settings give, then the frame rate bits, the statistics
/// flag and the game GUID.
#[verifier::rlimit(40)]
fn write_random_uid(info: &GMGeneralInfo, g: &GMGeneralInfoGMS2, builder: &mut DataBuilder)
    requires
        TIMESTAMP_MIN <= info.timestamp_created,
        info.room_order@.len() <= u32::MAX,
    ensures
        final(builder).extends(old(builder)),
        final(builder).bytes@ == old(builder).bytes@ + gms2_bytes(*info, *g),
{
    #[verifier::truncate]
    let seed: i32 = (info.timestamp_created & 0xFFFF_FFFF) as i32;
    let mut rng = CSharpRng::new(seed);
    let high = rng.next();
    let low = rng.next();
    let first_random: i64 = ((high as i64) << 32) | (low as i64);
    let number = info_number(info.timestamp_created, first_random, g.info_timestamp_offset, info.game_id,
        info.default_window_width, info.default_window_height, info.flags.build(), info.bytecode_version);
    let loc = info_location(info.timestamp_created, info.game_id, info.default_window_width, info.room_order.len());
    let ghost sd = uid_seed(info.timestamp_created);
    builder.write_i64(first_random);
    proof {
        lemma_prefix_extends(*old(builder), *builder);
    }
    let ghost b1 = *builder;
    let mut i: usize = 0;
    while i < 4
        invariant
            builder.extends(old(builder)),
            rng.wf(),
            rng.seed() == sd,
            i <= 4,
            loc < 4,
            rng.draws() == 2 + 2 * (if i > loc { i - 1 } else { i as int }),
            builder.bytes@ == b1.bytes@ + uid_slots_bytes(sd, loc as int, number, i as int),
        decreases 4 - i,
    {
        let ghost b = *builder;
        if i == loc {
            builder.write_i64(number);
        } else {
            #[verifier::truncate]
            let first = rng.next() as u32;
            #[verifier::truncate]
            let second = rng.next() as u32;
            builder.write_u32(first);
            builder.write_u32(second);
        }
        proof {
            lemma_prefix_extends(b, *builder);
            lemma_extends_trans(*old(builder), b, *builder);
            assert(builder.bytes@ =~= b1.bytes@ + uid_slots_bytes(sd, loc as int, number, i + 1));
        }
        i = i + 1;
    }
    let ghost b2 = *builder;
    builder.write_u32(g.fps);
    builder.write_bool32(g.allow_statistics);
    builder.write_bytes(&g.game_guid);
    proof {
        lemma_prefix_extends(b2, *builder);
        lemma_extends_trans(*old(builder), b2, *builder);
        assert(builder.bytes@ =~= old(builder).bytes@ + gms2_bytes(*info, *g));
    }
}

impl GMGeneralInfo {
    /// A placeholder general info for a data file whose `GEN8` chunk has not been read yet:
    /// marked as not existing, with the placeholder values GameMaker tools use.
    pub fn stub() -> (r: GMGeneralInfo)
        ensures
            !r.exists,
            r.is_debugger_disabled,
            r.bytecode_version == 187,
            r.unknown_value == 187,
            r.game_file_name.index == 69420 && r.config.index == 69420 && r.game_name.index == 69420
                && r.display_name.index == 69420,
            r.last_object_id == 69420 && r.last_tile_id == 69420 && r.game_id == 69420,
            r.directplay_guid@ == Seq::new(16, |i: int| 0u8),
            r.version == (GMVersion { major: 69420, minor: 69420, release: 69420, build: 69420, branch: LTSBranch::PostLTS }),
            r.default_window_width == 69420 && r.default_window_height == 69420,
            r.flags == general_info_flags_of(0),
            r.license_crc32 == 69420,
            r.license_md5@ == seq![6u8, 9, 4, 2, 0, 6, 9, 4, 2, 0, 6, 9, 4, 2, 0, 0],
            r.timestamp_created == 0,
            r.active_targets == 69420,
            r.function_classifications == function_classifications_of(0),
            r.steam_appid == 69420,
            r.debugger_port is None,
            r.room_order@.len() == 0,
            r.gms2_info is None,
    {
        let guid: [u8; 16] = [0u8; 16];
        let md5: [u8; 16] = [6, 9, 4, 2, 0, 6, 9, 4, 2, 0, 6, 9, 4, 2, 0, 0];
        assert(guid@ =~= Seq::new(16, |i: int| 0u8));
        assert(md5@ =~= seq![6u8, 9, 4, 2, 0, 6, 9, 4, 2, 0, 6, 9, 4, 2, 0, 0]);
        GMGeneralInfo {
            is_debugger_disabled: true,
            bytecode_version: 187,
            unknown_value: 187,
            game_file_name: GMRef::new(69420),
            config: GMRef::new(69420),
            last_object_id: 69420,
            last_tile_id: 69420,
            game_id: 69420,
            directplay_guid: guid,
            game_name: GMRef::new(69420),
            version: GMVersion { major: 69420, minor: 69420, release: 69420, build: 69420, branch: LTSBranch::PostLTS },
            default_window_width: 69420,
            default_window_height: 69420,
            flags: GMGeneralInfoFlags::parse(0),
            license_crc32: 69420,
            license_md5: md5,
            timestamp_created: 0,
            display_name: GMRef::new(69420),
            active_targets: 69420,
            function_classifications: GMFunctionClassifications::parse(0),
            steam_appid: 69420,
            debugger_port: None,
            room_order: Vec::new(),
            gms2_info: None,
            exists: false,
        }
    }
}

impl GMChunkElement for GMGeneralInfo {
    fn empty() -> (r: GMGeneralInfo)
        ensures
            !r.exists,
            r.room_order@.len() == 0,
            r.gms2_info is None,
    {
        GMGeneralInfo::stub()
    }

    fn chunk_exists(&self) -> (r: bool)
        ensures
            r == self.exists,
    {
        self.exists
    }
}

impl GMElement for GMGeneralInfo {
    open spec fn readable<'a>(before: DataReader<'a>) -> bool {
        let p = before.cur_pos as int;
        let d = before.data@;
        &&& general_info_head_readable(before)
        &&& (spec_u32_at(d, p + 44) >= 2 ==> gms2_readable(before.moved(room_order_end(before)), spec_i64_at(d, p + 92),
            spec_u32_at(d, p + 20), spec_u32_at(d, p + 60), spec_u32_at(d, p + 64), spec_u32_at(d, p + 68), d[p + 1],
            before.moved(room_order_pos(d, p)).word() as nat))
    }

    open spec fn read_end<'a>(before: DataReader<'a>) -> int {
        if spec_u32_at(before.data@, before.cur_pos + 44) >= 2 { room_order_end(before) + 64 } else { room_order_end(before) }
    }

    /// A general info that was read, whose string references fit below 2^32, with a
    /// debugger port from bytecode 14 on and, from GameMaker 2 on, the GameMaker 2 part and
    /// a creation time within the dates that can be written.
    open spec fn writable(&self, before: DataBuilder) -> bool {
        &&& self.exists
        &&& before.bytes@.len() + 100 <= u32::MAX
        &&& self.bytecode_version >= 14 ==> self.debugger_port is Some
        &&& self.room_order@.len() <= u32::MAX
        &&& version_at_least(before.gm_version, version_req(2, 0))
            ==> self.gms2_info is Some && TIMESTAMP_MIN <= self.timestamp_created
    }

    /// The head, then from GameMaker 2 on the GameMaker 2 part.
    open spec fn written(&self, before: DataBuilder, after: DataBuilder) -> bool {
        after.bytes@ == before.bytes@ + info_head_bytes(*self) + (if version_at_least(before.gm_version, version_req(2, 0)) {
            gms2_bytes(*self, self.gms2_info->Some_0)
        } else {
            Seq::empty()
        })
    }

    open spec fn deserialized<'a>(before: DataReader<'a>, after: DataReader<'a>, v: GMGeneralInfo) -> bool {
        let p = before.cur_pos as int;
        let d = before.data@;
        let e = before.moved(room_order_end(before));
        &&& general_info_head_read(before, v)
        &&& if v.version.major >= 2 {
            &&& v.gms2_info matches Some(g)
            &&& gms2_read(e, after, v.timestamp_created, v.game_id, v.default_window_width, v.default_window_height,
                spec_u32_at(d, p + 68), v.bytecode_version, v.room_order@.len(), g)
        } else {
            v.gms2_info is None && after == e
        }
    }

    /// Reads the general info; from GameMaker 2 on, checks the random UID.
    fn deserialize(reader: &mut DataReader) -> (r: Result<GMGeneralInfo, String>) {
        let (mut info, flags_raw) = read_general_info_head(reader)?;
        if info.version.major >= 2 {
            let g = read_gms2_info(reader, info.timestamp_created, info.game_id, info.default_window_width,
                info.default_window_height, flags_raw, info.bytecode_version, info.room_order.len())?;
            info.gms2_info = Some(g);
        }
        Ok(info)
    }

    /// Writes the general info; fails for one that was never read, and in GameMaker 2 and
    /// later when the GameMaker 2 data is missing.
    fn serialize(&self, builder: &mut DataBuilder) -> (r: Result<(), String>) {
        proof {
            lemma_extends_refl(*builder);
        }
        if !self.exists {
            return Err("General info was never deserialized".to_owned());
        }
        let res = write_info_head(self, builder);
        let ghost b1 = *builder;
        res?;
        if builder.is_gm_version_at_least(&GMVersion::new(2, 0, 0, 0)) {
            let g = match &self.gms2_info {
                Some(g) => g,
                None => return Err("GMS2 Data not set in General Info".to_owned()),
            };
            if self.timestamp_created < TIMESTAMP_MIN || self.room_order.len() > u32::MAX as usize {
                return Err("Invalid creation timestamp in General Info".to_owned());
            }
            write_random_uid(self, g, builder);
            proof {
                lemma_extends_trans(*old(builder), b1, *builder);
                assert(builder.bytes@ =~= old(builder).bytes@ + info_head_bytes(*self) + gms2_bytes(*self, self.gms2_info->Some_0));
            }
        } else {
            assert(builder.bytes@ =~= old(builder).bytes@ + info_head_bytes(*self) + Seq::<u8>::empty());
        }
        Ok(())
    }
}

} // verus!
