//! Options (chunk `OPTN`): window, input and error settings, in an old and a new layout.

use vstd::prelude::*;
use crate::builder::{bool32_bytes, i32_bytes, lemma_extends_refl, lemma_extends_trans, lemma_prefix_extends, ref_opt_bytes, ref_placeholder, DataBuilder};
use crate::bytes::{spec_i32_at, spec_u32_at, spec_u64_at, u32_le_bytes, u64_le_bytes};
use crate::element::{moved_past, GMChunkElement, GMElement};
use crate::elements::backgrounds::bool32_at;
use crate::lists::{elements_end, elements_fit, list_read, simple_list_fits, simple_list_readable, simple_list_written};
use crate::reader::DataReader;
use crate::refs::GMRef;
use crate::resources::{string_at, texture_opt_at, GMTexturePageItem};

verus! {

/// The option flags, one bit each in the new layout.
#[derive(Clone, Copy, Debug, PartialEq, Eq, Structural)]
pub struct GMOptionsFlags {
    pub fullscreen: bool,
    pub interpolate_pixels: bool,
    pub use_new_audio: bool,
    pub no_border: bool,
    pub show_cursor: bool,
    pub sizeable: bool,
    pub stay_on_top: bool,
    pub change_resolution: bool,
    pub no_buttons: bool,
    pub screen_key: bool,
    pub help_key: bool,
    pub quit_key: bool,
    pub save_key: bool,
    pub screenshot_key: bool,
    pub close_sec: bool,
    pub freeze: bool,
    pub show_progress: bool,
    pub load_transparent: bool,
    pub scale_progress: bool,
    pub display_errors: bool,
    pub write_errors: bool,
    pub abort_errors: bool,
    pub variable_errors: bool,
    pub creation_event_order: bool,
    pub use_front_touch: bool,
    pub use_rear_touch: bool,
    pub use_fast_collision: bool,
    pub fast_collision_compatibility: bool,
    pub disable_sandbox: bool,
    pub enable_copy_on_write: bool,
}

/// The flags that the bits of `raw` set.
pub open spec fn options_flags_of(raw: u64) -> GMOptionsFlags {
    GMOptionsFlags {
        fullscreen: raw & 0x1 != 0,
        interpolate_pixels: raw & 0x2 != 0,
        use_new_audio: raw & 0x4 != 0,
        no_border: raw & 0x8 != 0,
        show_cursor: raw & 0x10 != 0,
        sizeable: raw & 0x20 != 0,
        stay_on_top: raw & 0x40 != 0,
        change_resolution: raw & 0x80 != 0,
        no_buttons: raw & 0x100 != 0,
        screen_key: raw & 0x200 != 0,
        help_key: raw & 0x400 != 0,
        quit_key: raw & 0x800 != 0,
        save_key: raw & 0x1000 != 0,
        screenshot_key: raw & 0x2000 != 0,
        close_sec: raw & 0x4000 != 0,
        freeze: raw & 0x8000 != 0,
        show_progress: raw & 0x10000 != 0,
        load_transparent: raw & 0x20000 != 0,
        scale_progress: raw & 0x40000 != 0,
        display_errors: raw & 0x80000 != 0,
        write_errors: raw & 0x100000 != 0,
        abort_errors: raw & 0x200000 != 0,
        variable_errors: raw & 0x400000 != 0,
        creation_event_order: raw & 0x800000 != 0,
        use_front_touch: raw & 0x1000000 != 0,
        use_rear_touch: raw & 0x2000000 != 0,
        use_fast_collision: raw & 0x4000000 != 0,
        fast_collision_compatibility: raw & 0x8000000 != 0,
        disable_sandbox: raw & 0x10000000 != 0,
        enable_copy_on_write: raw & 0x20000000 != 0,
    }
}

/// The bits that the flags set.
pub open spec fn options_flags_bits(f: GMOptionsFlags) -> u64 {
    (if f.fullscreen { 0x1u64 } else { 0u64 })
        | (if f.interpolate_pixels { 0x2u64 } else { 0u64 })
        | (if f.use_new_audio { 0x4u64 } else { 0u64 })
        | (if f.no_border { 0x8u64 } else { 0u64 })
        | (if f.show_cursor { 0x10u64 } else { 0u64 })
        | (if f.sizeable { 0x20u64 } else { 0u64 })
        | (if f.stay_on_top { 0x40u64 } else { 0u64 })
        | (if f.change_resolution { 0x80u64 } else { 0u64 })
        | (if f.no_buttons { 0x100u64 } else { 0u64 })
        | (if f.screen_key { 0x200u64 } else { 0u64 })
        | (if f.help_key { 0x400u64 } else { 0u64 })
        | (if f.quit_key { 0x800u64 } else { 0u64 })
        | (if f.save_key { 0x1000u64 } else { 0u64 })
        | (if f.screenshot_key { 0x2000u64 } else { 0u64 })
        | (if f.close_sec { 0x4000u64 } else { 0u64 })
        | (if f.freeze { 0x8000u64 } else { 0u64 })
        | (if f.show_progress { 0x10000u64 } else { 0u64 })
        | (if f.load_transparent { 0x20000u64 } else { 0u64 })
        | (if f.scale_progress { 0x40000u64 } else { 0u64 })
        | (if f.display_errors { 0x80000u64 } else { 0u64 })
        | (if f.write_errors { 0x100000u64 } else { 0u64 })
        | (if f.abort_errors { 0x200000u64 } else { 0u64 })
        | (if f.variable_errors { 0x400000u64 } else { 0u64 })
        | (if f.creation_event_order { 0x800000u64 } else { 0u64 })
        | (if f.use_front_touch { 0x1000000u64 } else { 0u64 })
        | (if f.use_rear_touch { 0x2000000u64 } else { 0u64 })
        | (if f.use_fast_collision { 0x4000000u64 } else { 0u64 })
        | (if f.fast_collision_compatibility { 0x8000000u64 } else { 0u64 })
        | (if f.disable_sandbox { 0x10000000u64 } else { 0u64 })
        | (if f.enable_copy_on_write { 0x20000000u64 } else { 0u64 })
}

impl GMOptionsFlags {
    /// Decodes the flags from their bits.
    pub fn parse(raw: u64) -> (r: Self)
        ensures
            r == options_flags_of(raw),
    {
        GMOptionsFlags {
            fullscreen: raw & 0x1 != 0,
            interpolate_pixels: raw & 0x2 != 0,
            use_new_audio: raw & 0x4 != 0,
            no_border: raw & 0x8 != 0,
            show_cursor: raw & 0x10 != 0,
            sizeable: raw & 0x20 != 0,
            stay_on_top: raw & 0x40 != 0,
            change_resolution: raw & 0x80 != 0,
            no_buttons: raw & 0x100 != 0,
            screen_key: raw & 0x200 != 0,
            help_key: raw & 0x400 != 0,
            quit_key: raw & 0x800 != 0,
            save_key: raw & 0x1000 != 0,
            screenshot_key: raw & 0x2000 != 0,
            close_sec: raw & 0x4000 != 0,
            freeze: raw & 0x8000 != 0,
            show_progress: raw & 0x10000 != 0,
            load_transparent: raw & 0x20000 != 0,
            scale_progress: raw & 0x40000 != 0,
            display_errors: raw & 0x80000 != 0,
            write_errors: raw & 0x100000 != 0,
            abort_errors: raw & 0x200000 != 0,
            variable_errors: raw & 0x400000 != 0,
            creation_event_order: raw & 0x800000 != 0,
            use_front_touch: raw & 0x1000000 != 0,
            use_rear_touch: raw & 0x2000000 != 0,
            use_fast_collision: raw & 0x4000000 != 0,
            fast_collision_compatibility: raw & 0x8000000 != 0,
            disable_sandbox: raw & 0x10000000 != 0,
            enable_copy_on_write: raw & 0x20000000 != 0,
        }
    }

    /// Encodes the flags as bits.
    pub fn build(&self) -> (r: u64)
        ensures
            r == options_flags_bits(*self),
    {
        (if self.fullscreen { 0x1u64 } else { 0u64 })
            | (if self.interpolate_pixels { 0x2u64 } else { 0u64 })
            | (if self.use_new_audio { 0x4u64 } else { 0u64 })
            | (if self.no_border { 0x8u64 } else { 0u64 })
            | (if self.show_cursor { 0x10u64 } else { 0u64 })
            | (if self.sizeable { 0x20u64 } else { 0u64 })
            | (if self.stay_on_top { 0x40u64 } else { 0u64 })
            | (if self.change_resolution { 0x80u64 } else { 0u64 })
            | (if self.no_buttons { 0x100u64 } else { 0u64 })
            | (if self.screen_key { 0x200u64 } else { 0u64 })
            | (if self.help_key { 0x400u64 } else { 0u64 })
            | (if self.quit_key { 0x800u64 } else { 0u64 })
            | (if self.save_key { 0x1000u64 } else { 0u64 })
            | (if self.screenshot_key { 0x2000u64 } else { 0u64 })
            | (if self.close_sec { 0x4000u64 } else { 0u64 })
            | (if self.freeze { 0x8000u64 } else { 0u64 })
            | (if self.show_progress { 0x10000u64 } else { 0u64 })
            | (if self.load_transparent { 0x20000u64 } else { 0u64 })
            | (if self.scale_progress { 0x40000u64 } else { 0u64 })
            | (if self.display_errors { 0x80000u64 } else { 0u64 })
            | (if self.write_errors { 0x100000u64 } else { 0u64 })
            | (if self.abort_errors { 0x200000u64 } else { 0u64 })
            | (if self.variable_errors { 0x400000u64 } else { 0u64 })
            | (if self.creation_event_order { 0x800000u64 } else { 0u64 })
            | (if self.use_front_touch { 0x1000000u64 } else { 0u64 })
            | (if self.use_rear_touch { 0x2000000u64 } else { 0u64 })
            | (if self.use_fast_collision { 0x4000000u64 } else { 0u64 })
            | (if self.fast_collision_compatibility { 0x8000000u64 } else { 0u64 })
            | (if self.disable_sandbox { 0x10000000u64 } else { 0u64 })
            | (if self.enable_copy_on_write { 0x20000000u64 } else { 0u64 })
    }
}

impl GMElement for GMOptionsFlags {
    open spec fn readable<'a>(before: DataReader<'a>) -> bool {
        before.can_read(8)
    }

    open spec fn read_end<'a>(before: DataReader<'a>) -> int {
        before.cur_pos + 8
    }

    open spec fn writable(&self, before: DataBuilder) -> bool {
        true
    }

    open spec fn written(&self, before: DataBuilder, after: DataBuilder) -> bool {
        after.appended(&before, u64_le_bytes(options_flags_bits(*self)))
    }

    open spec fn deserialized<'a>(before: DataReader<'a>, after: DataReader<'a>, value: GMOptionsFlags) -> bool {
        moved_past(before, after, 8) && value == options_flags_of(spec_u64_at(before.data@, before.cur_pos as int))
    }

    fn deserialize(reader: &mut DataReader) -> (r: Result<GMOptionsFlags, String>)
        ensures
            r is Ok <==> old(reader).can_read(8),
    {
        let raw = reader.read_u64()?;
        Ok(Self::parse(raw))
    }

    fn serialize(&self, builder: &mut DataBuilder) -> (r: Result<(), String>)
        ensures
            r is Ok && final(builder).appended(old(builder), u64_le_bytes(options_flags_bits(*self))),
    {
        builder.write_u64(self.build());
        proof {
            lemma_prefix_extends(*old(builder), *builder);
        }
        Ok(())
    }
}

/// A constant defined in the options: a name and its value.
pub struct GMOptionsConstant {
    pub name: GMRef<String>,
    pub value: GMRef<String>,
}

impl GMElement for GMOptionsConstant {
    open spec fn readable<'a>(before: DataReader<'a>) -> bool {
        let p = before.cur_pos as int;
        before.can_read(8) && string_at(before, p) is Some && string_at(before, p + 4) is Some
    }

    open spec fn read_end<'a>(before: DataReader<'a>) -> int {
        before.cur_pos + 8
    }

    open spec fn writable(&self, before: DataBuilder) -> bool {
        before.bytes@.len() + 4 <= u32::MAX
    }

    open spec fn written(&self, before: DataBuilder, after: DataBuilder) -> bool {
        after.bytes@ == before.bytes@ + ref_placeholder() + ref_placeholder()
    }

    open spec fn deserialized<'a>(before: DataReader<'a>, after: DataReader<'a>, value: GMOptionsConstant) -> bool {
        &&& before.can_read(8)
        &&& after == before.moved(before.cur_pos + 8)
        &&& string_at(before, before.cur_pos as int) == Some(value.name)
        &&& string_at(before, before.cur_pos + 4) == Some(value.value)
    }

    fn deserialize(reader: &mut DataReader) -> (r: Result<GMOptionsConstant, String>) {
        let name = reader.read_gm_string()?;
        let value = reader.read_gm_string()?;
        Ok(GMOptionsConstant { name, value })
    }

    fn serialize(&self, builder: &mut DataBuilder) -> (r: Result<(), String>) {
        builder.write_gm_string(&self.name)?;
        let ghost mid = *builder;
        let res = builder.write_gm_string(&self.value);
        proof {
            lemma_extends_trans(*old(builder), mid, *builder);
        }
        res
    }
}

/// The options of a data file.
pub struct GMOptions {
    /// Whether the chunk uses the new layout (which starts with the word 0x80000000).
    pub is_new_format: bool,
    pub unknown1: u32,
    pub unknown2: u32,
    pub flags: GMOptionsFlags,
    pub window_scale: i32,
    pub window_color: u32,
    pub color_depth: u32,
    pub resolution: u32,
    pub frequency: u32,
    pub vertex_sync: i32,
    pub priority: i32,
    pub back_image: Option<GMRef<GMTexturePageItem>>,
    pub front_image: Option<GMRef<GMTexturePageItem>>,
    pub load_image: Option<GMRef<GMTexturePageItem>>,
    pub load_alpha: u32,
    pub constants: Vec<GMOptionsConstant>,
    pub exists: bool,
}

/// The options in the new layout were read from `before` to `after`.
pub open spec fn options_new_read<'a>(before: DataReader<'a>, after: DataReader<'a>, value: GMOptions) -> bool {
    let p = before.cur_pos as int;
    let d = before.data@;
    &&& value.is_new_format
    &&& value.exists
    &&& before.can_read(64)
        &&& value.unknown1 == spec_u32_at(d, p)
        &&& value.unknown2 == spec_u32_at(d, p + 4)
        &&& value.flags == options_flags_of(spec_u64_at(d, p + 8))
        &&& value.window_scale == spec_i32_at(d, p + 16)
        &&& value.window_color == spec_u32_at(d, p + 20)
        &&& value.color_depth == spec_u32_at(d, p + 24)
        &&& value.resolution == spec_u32_at(d, p + 28)
        &&& value.frequency == spec_u32_at(d, p + 32)
        &&& value.vertex_sync == spec_i32_at(d, p + 36)
        &&& value.priority == spec_i32_at(d, p + 40)
        &&& texture_opt_at(before, p + 44) == Some(value.back_image)
        &&& texture_opt_at(before, p + 48) == Some(value.front_image)
        &&& texture_opt_at(before, p + 52) == Some(value.load_image)
        &&& value.load_alpha == spec_u32_at(d, p + 56)
    &&& value.constants@.len() == spec_u32_at(d, p + 60)
    &&& list_read(before.moved(p + 64), after, value.constants@)
}

/// The options in the old layout were read from `before` to `after`: every flag is a 32-bit
/// boolean of its own, flags the layout lacks are false, and the unknown words are 0.
pub open spec fn options_old_read<'a>(before: DataReader<'a>, after: DataReader<'a>, value: GMOptions) -> bool {
    let p = before.cur_pos as int;
    let d = before.data@;
    &&& !value.is_new_format
    &&& value.exists
    &&& value.unknown1 == 0
    &&& value.unknown2 == 0
    &&& before.can_read(144)
        &&& bool32_at(d, p) == Some(value.flags.fullscreen)
        &&& bool32_at(d, p + 4) == Some(value.flags.interpolate_pixels)
        &&& bool32_at(d, p + 8) == Some(value.flags.use_new_audio)
        &&& bool32_at(d, p + 12) == Some(value.flags.no_border)
        &&& bool32_at(d, p + 16) == Some(value.flags.show_cursor)
        &&& value.window_scale == spec_i32_at(d, p + 20)
        &&& bool32_at(d, p + 24) == Some(value.flags.sizeable)
        &&& bool32_at(d, p + 28) == Some(value.flags.stay_on_top)
        &&& value.window_color == spec_u32_at(d, p + 32)
        &&& bool32_at(d, p + 36) == Some(value.flags.change_resolution)
        &&& value.color_depth == spec_u32_at(d, p + 40)
        &&& value.resolution == spec_u32_at(d, p + 44)
        &&& value.frequency == spec_u32_at(d, p + 48)
        &&& bool32_at(d, p + 52) == Some(value.flags.no_buttons)
        &&& value.vertex_sync == spec_i32_at(d, p + 56)
        &&& bool32_at(d, p + 60) == Some(value.flags.screen_key)
        &&& bool32_at(d, p + 64) == Some(value.flags.help_key)
        &&& bool32_at(d, p + 68) == Some(value.flags.quit_key)
        &&& bool32_at(d, p + 72) == Some(value.flags.save_key)
        &&& bool32_at(d, p + 76) == Some(value.flags.screenshot_key)
        &&& bool32_at(d, p + 80) == Some(value.flags.close_sec)
        &&& value.priority == spec_i32_at(d, p + 84)
        &&& bool32_at(d, p + 88) == Some(value.flags.freeze)
        &&& bool32_at(d, p + 92) == Some(value.flags.show_progress)
        &&& texture_opt_at(before, p + 96) == Some(value.back_image)
        &&& texture_opt_at(before, p + 100) == Some(value.front_image)
        &&& texture_opt_at(before, p + 104) == Some(value.load_image)
        &&& bool32_at(d, p + 108) == Some(value.flags.load_transparent)
        &&& value.load_alpha == spec_u32_at(d, p + 112)
        &&& bool32_at(d, p + 116) == Some(value.flags.scale_progress)
        &&& bool32_at(d, p + 120) == Some(value.flags.display_errors)
        &&& bool32_at(d, p + 124) == Some(value.flags.write_errors)
        &&& bool32_at(d, p + 128) == Some(value.flags.abort_errors)
        &&& bool32_at(d, p + 132) == Some(value.flags.variable_errors)
        &&& bool32_at(d, p + 136) == Some(value.flags.creation_event_order)
        &&& !value.flags.use_front_touch
        &&& !value.flags.use_rear_touch
        &&& !value.flags.use_fast_collision
        &&& !value.flags.fast_collision_compatibility
        &&& !value.flags.disable_sandbox
        &&& !value.flags.enable_copy_on_write
    &&& value.constants@.len() == spec_u32_at(d, p + 140)
    &&& list_read(before.moved(p + 144), after, value.constants@)
}

/// The options in the new layout can be read from `before`: the fixed words are there,
/// the images name texture page items, and the list of constants can be read.
pub open spec fn options_new_readable<'a>(before: DataReader<'a>) -> bool {
    let p = before.cur_pos as int;
    &&& before.can_read(64)
    &&& texture_opt_at(before, p + 44) is Some
    &&& texture_opt_at(before, p + 48) is Some
    &&& texture_opt_at(before, p + 52) is Some
    &&& simple_list_readable::<GMOptionsConstant>(before.moved(p + 60))
}

/// Where the reader stands after reading the options in the new layout.
pub open spec fn options_new_end<'a>(before: DataReader<'a>) -> int {
    let p = before.cur_pos as int;
    elements_end::<GMOptionsConstant>(before.moved(p + 64), spec_u32_at(before.data@, p + 60) as nat)
}

/// The options in the old layout can be read from `before`: the fixed words are there,
/// every flag is 0 or 1, the images name texture page items, and the list of constants can
/// be read.
pub open spec fn options_old_readable<'a>(before: DataReader<'a>) -> bool {
    let p = before.cur_pos as int;
    let d = before.data@;
    &&& before.can_read(144)
    &&& bool32_at(d, p) is Some
    &&& bool32_at(d, p + 4) is Some
    &&& bool32_at(d, p + 8) is Some
    &&& bool32_at(d, p + 12) is Some
    &&& bool32_at(d, p + 16) is Some
    &&& bool32_at(d, p + 24) is Some
    &&& bool32_at(d, p + 28) is Some
    &&& bool32_at(d, p + 36) is Some
    &&& bool32_at(d, p + 52) is Some
    &&& bool32_at(d, p + 60) is Some
    &&& bool32_at(d, p + 64) is Some
    &&& bool32_at(d, p + 68) is Some
    &&& bool32_at(d, p + 72) is Some
    &&& bool32_at(d, p + 76) is Some
    &&& bool32_at(d, p + 80) is Some
    &&& bool32_at(d, p + 88) is Some
    &&& bool32_at(d, p + 92) is Some
    &&& bool32_at(d, p + 108) is Some
    &&& bool32_at(d, p + 116) is Some
    &&& bool32_at(d, p + 120) is Some
    &&& bool32_at(d, p + 124) is Some
    &&& bool32_at(d, p + 128) is Some
    &&& bool32_at(d, p + 132) is Some
    &&& bool32_at(d, p + 136) is Some
    &&& texture_opt_at(before, p + 96) is Some
    &&& texture_opt_at(before, p + 100) is Some
    &&& texture_opt_at(before, p + 104) is Some
    &&& simple_list_readable::<GMOptionsConstant>(before.moved(p + 140))
}

/// Where the reader stands after reading the options in the old layout.
pub open spec fn options_old_end<'a>(before: DataReader<'a>) -> int {
    let p = before.cur_pos as int;
    elements_end::<GMOptionsConstant>(before.moved(p + 144), spec_u32_at(before.data@, p + 140) as nat)
}

/// Reads the options in the new layout.
pub fn parse_options_new(reader: &mut DataReader) -> (r: Result<GMOptions, String>)
    requires
        old(reader).wf(),
    ensures
        final(reader).wf(),
        final(reader).data == old(reader).data,
        old(reader).only_moved(*final(reader)),
        r matches Ok(v) ==> options_new_read(*old(reader), *final(reader), v),
        options_new_readable(*old(reader)) ==> r is Ok && final(reader).cur_pos == options_new_end(*old(reader)),
{
    let unknown1 = reader.read_u32()?;
    let unknown2 = reader.read_u32()?;
    let flags = GMOptionsFlags::deserialize(reader)?;
    let window_scale = reader.read_i32()?;
    let window_color = reader.read_u32()?;
    let color_depth = reader.read_u32()?;
    let resolution = reader.read_u32()?;
    let frequency = reader.read_u32()?;
    let vertex_sync = reader.read_i32()?;
    let priority = reader.read_i32()?;
    let back_image = reader.read_gm_texture_opt()?;
    let front_image = reader.read_gm_texture_opt()?;
    let load_image = reader.read_gm_texture_opt()?;
    let load_alpha = reader.read_u32()?;
    let constants: Vec<GMOptionsConstant> = reader.read_simple_list()?;
    Ok(GMOptions {
        is_new_format: true,
        unknown1,
        unknown2,
        flags,
        window_scale,
        window_color,
        color_depth,
        resolution,
        frequency,
        vertex_sync,
        priority,
        back_image,
        front_image,
        load_image,
        load_alpha,
        constants,
        exists: true,
    })
}

/// Reads the options in the old layout.
#[verifier::spinoff_prover]
#[verifier::rlimit(100)]
pub fn parse_options_old(reader: &mut DataReader) -> (r: Result<GMOptions, String>)
    requires
        old(reader).wf(),
    ensures
        final(reader).wf(),
        final(reader).data == old(reader).data,
        old(reader).only_moved(*final(reader)),
        r matches Ok(v) ==> options_old_read(*old(reader), *final(reader), v),
        options_old_readable(*old(reader)) ==> r is Ok && final(reader).cur_pos == options_old_end(*old(reader)),
{
    let flag_fullscreen = reader.read_bool32()?;
    let flag_interpolate_pixels = reader.read_bool32()?;
    let flag_use_new_audio = reader.read_bool32()?;
    let flag_no_border = reader.read_bool32()?;
    let flag_show_cursor = reader.read_bool32()?;
    let window_scale = reader.read_i32()?;
    let flag_sizeable = reader.read_bool32()?;
    let flag_stay_on_top = reader.read_bool32()?;
    let window_color = reader.read_u32()?;
    let flag_change_resolution = reader.read_bool32()?;
    let color_depth = reader.read_u32()?;
    let resolution = reader.read_u32()?;
    let frequency = reader.read_u32()?;
    let flag_no_buttons = reader.read_bool32()?;
    let vertex_sync = reader.read_i32()?;
    let flag_screen_key = reader.read_bool32()?;
    let flag_help_key = reader.read_bool32()?;
    let flag_quit_key = reader.read_bool32()?;
    let flag_save_key = reader.read_bool32()?;
    let flag_screenshot_key = reader.read_bool32()?;
    let flag_close_sec = reader.read_bool32()?;
    let priority = reader.read_i32()?;
    let flag_freeze = reader.read_bool32()?;
    let flag_show_progress = reader.read_bool32()?;
    let back_image = reader.read_gm_texture_opt()?;
    let front_image = reader.read_gm_texture_opt()?;
    let load_image = reader.read_gm_texture_opt()?;
    let flag_load_transparent = reader.read_bool32()?;
    let load_alpha = reader.read_u32()?;
    let flag_scale_progress = reader.read_bool32()?;
    let flag_display_errors = reader.read_bool32()?;
    let flag_write_errors = reader.read_bool32()?;
    let flag_abort_errors = reader.read_bool32()?;
    let flag_variable_errors = reader.read_bool32()?;
    let flag_creation_event_order = reader.read_bool32()?;
    let constants: Vec<GMOptionsConstant> = reader.read_simple_list()?;
    Ok(GMOptions {
        is_new_format: false,
        unknown1: 0,
        unknown2: 0,
        flags: GMOptionsFlags {
            fullscreen: flag_fullscreen,
            interpolate_pixels: flag_interpolate_pixels,
            use_new_audio: flag_use_new_audio,
            no_border: flag_no_border,
            show_cursor: flag_show_cursor,
            sizeable: flag_sizeable,
            stay_on_top: flag_stay_on_top,
            change_resolution: flag_change_resolution,
            no_buttons: flag_no_buttons,
            screen_key: flag_screen_key,
            help_key: flag_help_key,
            quit_key: flag_quit_key,
            save_key: flag_save_key,
            screenshot_key: flag_screenshot_key,
            close_sec: flag_close_sec,
            freeze: flag_freeze,
            show_progress: flag_show_progress,
            load_transparent: flag_load_transparent,
            scale_progress: flag_scale_progress,
            display_errors: flag_display_errors,
            write_errors: flag_write_errors,
            abort_errors: flag_abort_errors,
            variable_errors: flag_variable_errors,
            creation_event_order: flag_creation_event_order,
            use_front_touch: false,
            use_rear_touch: false,
            use_fast_collision: false,
            fast_collision_compatibility: false,
            disable_sandbox: false,
            enable_copy_on_write: false,
        },
        window_scale,
        window_color,
        color_depth,
        resolution,
        frequency,
        vertex_sync,
        priority,
        back_image,
        front_image,
        load_image,
        load_alpha,
        constants,
        exists: true,
    })
}

/// Writes a 32-bit boolean.
fn write_flag(builder: &mut DataBuilder, v: bool)
    ensures
        final(builder).extends(old(builder)),
        final(builder).bytes@ == old(builder).bytes@ + bool32_bytes(v),
        final(builder).gm_version == old(builder).gm_version,
{
    builder.write_bool32(v);
    proof {
        lemma_prefix_extends(*old(builder), *builder);
    }
}

/// Writes a 32-bit word.
fn write_word(builder: &mut DataBuilder, v: u32)
    ensures
        final(builder).extends(old(builder)),
        final(builder).bytes@ == old(builder).bytes@ + u32_le_bytes(v),
        final(builder).gm_version == old(builder).gm_version,
{
    builder.write_u32(v);
    proof {
        lemma_prefix_extends(*old(builder), *builder);
    }
}

/// Writes a 32-bit signed integer.
fn write_int(builder: &mut DataBuilder, v: i32)
    ensures
        final(builder).extends(old(builder)),
        final(builder).bytes@ == old(builder).bytes@ + i32_bytes(v),
        final(builder).gm_version == old(builder).gm_version,
{
    builder.write_i32(v);
    proof {
        lemma_prefix_extends(*old(builder), *builder);
    }
}

/// The bytes of the options in the old layout after `before`: each flag as a 32-bit boolean
/// of its own and each number as a word, in the layout's order, the images as references.
pub open spec fn options_old_written(o: GMOptions, before: DataBuilder, after: DataBuilder) -> bool {
    after.bytes@ == before.bytes@ + bool32_bytes(o.flags.fullscreen)
        + bool32_bytes(o.flags.interpolate_pixels) + bool32_bytes(o.flags.use_new_audio)
        + bool32_bytes(o.flags.no_border) + bool32_bytes(o.flags.show_cursor) + i32_bytes(o.window_scale)
        + bool32_bytes(o.flags.sizeable) + bool32_bytes(o.flags.stay_on_top) + u32_le_bytes(o.window_color)
        + bool32_bytes(o.flags.change_resolution) + u32_le_bytes(o.color_depth) + u32_le_bytes(o.resolution)
        + u32_le_bytes(o.frequency) + bool32_bytes(o.flags.no_buttons) + i32_bytes(o.vertex_sync)
        + bool32_bytes(o.flags.screen_key) + bool32_bytes(o.flags.help_key) + bool32_bytes(o.flags.quit_key)
        + bool32_bytes(o.flags.save_key) + bool32_bytes(o.flags.screenshot_key)
        + bool32_bytes(o.flags.close_sec) + i32_bytes(o.priority) + bool32_bytes(o.flags.freeze)
        + bool32_bytes(o.flags.show_progress) + ref_opt_bytes(o.back_image) + ref_opt_bytes(o.front_image)
        + ref_opt_bytes(o.load_image) + bool32_bytes(o.flags.load_transparent) + u32_le_bytes(o.load_alpha)
        + bool32_bytes(o.flags.scale_progress) + bool32_bytes(o.flags.display_errors)
        + bool32_bytes(o.flags.write_errors) + bool32_bytes(o.flags.abort_errors)
        + bool32_bytes(o.flags.variable_errors) + bool32_bytes(o.flags.creation_event_order)
}

/// The bytes of the options in the new layout after `before`: the two unknown words, the
/// flags' bits, the numbers and the image references, then the list of constants.
pub open spec fn options_new_written(o: GMOptions, before: DataBuilder, after: DataBuilder) -> bool {
    exists|b: DataBuilder| {
        &&& b.bytes@ == before.bytes@ + u32_le_bytes(o.unknown1) + u32_le_bytes(o.unknown2)
            + u64_le_bytes(options_flags_bits(o.flags)) + i32_bytes(o.window_scale) + u32_le_bytes(o.window_color)
            + u32_le_bytes(o.color_depth) + u32_le_bytes(o.resolution) + u32_le_bytes(o.frequency)
            + i32_bytes(o.vertex_sync) + i32_bytes(o.priority) + ref_opt_bytes(o.back_image)
            + ref_opt_bytes(o.front_image) + ref_opt_bytes(o.load_image) + u32_le_bytes(o.load_alpha)
        &&& #[trigger] simple_list_written(o.constants@, b, after)
    }
}

/// Writes the window flags and scale in the old options layout.
fn write_options_old_window(builder: &mut DataBuilder, options: &GMOptions)
    ensures
        final(builder).extends(old(builder)),
        final(builder).bytes@ == old(builder).bytes@ + bool32_bytes(options.flags.fullscreen)
            + bool32_bytes(options.flags.interpolate_pixels) + bool32_bytes(options.flags.use_new_audio)
            + bool32_bytes(options.flags.no_border) + bool32_bytes(options.flags.show_cursor)
            + i32_bytes(options.window_scale) + bool32_bytes(options.flags.sizeable)
            + bool32_bytes(options.flags.stay_on_top),
        final(builder).gm_version == old(builder).gm_version,
        final(builder).bytecode_version == old(builder).bytecode_version,
{
    proof {
        lemma_extends_refl(*builder);
    }
    let ghost before = *builder;
    write_flag(builder, options.flags.fullscreen);
    proof {
        lemma_extends_trans(*old(builder), before, *builder);
    }
    let ghost before = *builder;
    write_flag(builder, options.flags.interpolate_pixels);
    proof {
        lemma_extends_trans(*old(builder), before, *builder);
    }
    let ghost before = *builder;
    write_flag(builder, options.flags.use_new_audio);
    proof {
        lemma_extends_trans(*old(builder), before, *builder);
    }
    let ghost before = *builder;
    write_flag(builder, options.flags.no_border);
    proof {
        lemma_extends_trans(*old(builder), before, *builder);
    }
    let ghost before = *builder;
    write_flag(builder, options.flags.show_cursor);
    proof {
        lemma_extends_trans(*old(builder), before, *builder);
    }
    let ghost before = *builder;
    write_int(builder, options.window_scale);
    proof {
        lemma_extends_trans(*old(builder), before, *builder);
    }
    let ghost before = *builder;
    write_flag(builder, options.flags.sizeable);
    proof {
        lemma_extends_trans(*old(builder), before, *builder);
    }
    let ghost before = *builder;
    write_flag(builder, options.flags.stay_on_top);
    proof {
        lemma_extends_trans(*old(builder), before, *builder);
    }
}

/// Writes the display settings in the old options layout.
fn write_options_old_display(builder: &mut DataBuilder, options: &GMOptions)
    ensures
        final(builder).extends(old(builder)),
        final(builder).bytes@ == old(builder).bytes@ + u32_le_bytes(options.window_color)
            + bool32_bytes(options.flags.change_resolution) + u32_le_bytes(options.color_depth)
            + u32_le_bytes(options.resolution) + u32_le_bytes(options.frequency)
            + bool32_bytes(options.flags.no_buttons) + i32_bytes(options.vertex_sync)
            + bool32_bytes(options.flags.screen_key),
        final(builder).gm_version == old(builder).gm_version,
        final(builder).bytecode_version == old(builder).bytecode_version,
{
    proof {
        lemma_extends_refl(*builder);
    }
    let ghost before = *builder;
    write_word(builder, options.window_color);
    proof {
        lemma_extends_trans(*old(builder), before, *builder);
    }
    let ghost before = *builder;
    write_flag(builder, options.flags.change_resolution);
    proof {
        lemma_extends_trans(*old(builder), before, *builder);
    }
    let ghost before = *builder;
    write_word(builder, options.color_depth);
    proof {
        lemma_extends_trans(*old(builder), before, *builder);
    }
    let ghost before = *builder;
    write_word(builder, options.resolution);
    proof {
        lemma_extends_trans(*old(builder), before, *builder);
    }
    let ghost before = *builder;
    write_word(builder, options.frequency);
    proof {
        lemma_extends_trans(*old(builder), before, *builder);
    }
    let ghost before = *builder;
    write_flag(builder, options.flags.no_buttons);
    proof {
        lemma_extends_trans(*old(builder), before, *builder);
    }
    let ghost before = *builder;
    write_int(builder, options.vertex_sync);
    proof {
        lemma_extends_trans(*old(builder), before, *builder);
    }
    let ghost before = *builder;
    write_flag(builder, options.flags.screen_key);
    proof {
        lemma_extends_trans(*old(builder), before, *builder);
    }
}

/// Writes the keys, priority and progress flags in the old options layout.
fn write_options_old_keys(builder: &mut DataBuilder, options: &GMOptions)
    ensures
        final(builder).extends(old(builder)),
        final(builder).bytes@ == old(builder).bytes@ + bool32_bytes(options.flags.help_key)
            + bool32_bytes(options.flags.quit_key) + bool32_bytes(options.flags.save_key)
            + bool32_bytes(options.flags.screenshot_key) + bool32_bytes(options.flags.close_sec)
            + i32_bytes(options.priority) + bool32_bytes(options.flags.freeze)
            + bool32_bytes(options.flags.show_progress),
        final(builder).gm_version == old(builder).gm_version,
        final(builder).bytecode_version == old(builder).bytecode_version,
{
    proof {
        lemma_extends_refl(*builder);
    }
    let ghost before = *builder;
    write_flag(builder, options.flags.help_key);
    proof {
        lemma_extends_trans(*old(builder), before, *builder);
    }
    let ghost before = *builder;
    write_flag(builder, options.flags.quit_key);
    proof {
        lemma_extends_trans(*old(builder), before, *builder);
    }
    let ghost before = *builder;
    write_flag(builder, options.flags.save_key);
    proof {
        lemma_extends_trans(*old(builder), before, *builder);
    }
    let ghost before = *builder;
    write_flag(builder, options.flags.screenshot_key);
    proof {
        lemma_extends_trans(*old(builder), before, *builder);
    }
    let ghost before = *builder;
    write_flag(builder, options.flags.close_sec);
    proof {
        lemma_extends_trans(*old(builder), before, *builder);
    }
    let ghost before = *builder;
    write_int(builder, options.priority);
    proof {
        lemma_extends_trans(*old(builder), before, *builder);
    }
    let ghost before = *builder;
    write_flag(builder, options.flags.freeze);
    proof {
        lemma_extends_trans(*old(builder), before, *builder);
    }
    let ghost before = *builder;
    write_flag(builder, options.flags.show_progress);
    proof {
        lemma_extends_trans(*old(builder), before, *builder);
    }
}

/// Writes the loading and error flags in the old options layout.
fn write_options_old_loading(builder: &mut DataBuilder, options: &GMOptions)
    ensures
        final(builder).extends(old(builder)),
        final(builder).bytes@ == old(builder).bytes@ + bool32_bytes(options.flags.load_transparent)
            + u32_le_bytes(options.load_alpha) + bool32_bytes(options.flags.scale_progress)
            + bool32_bytes(options.flags.display_errors) + bool32_bytes(options.flags.write_errors)
            + bool32_bytes(options.flags.abort_errors) + bool32_bytes(options.flags.variable_errors)
            + bool32_bytes(options.flags.creation_event_order),
        final(builder).gm_version == old(builder).gm_version,
        final(builder).bytecode_version == old(builder).bytecode_version,
{
    proof {
        lemma_extends_refl(*builder);
    }
    let ghost before = *builder;
    write_flag(builder, options.flags.load_transparent);
    proof {
        lemma_extends_trans(*old(builder), before, *builder);
    }
    let ghost before = *builder;
    write_word(builder, options.load_alpha);
    proof {
        lemma_extends_trans(*old(builder), before, *builder);
    }
    let ghost before = *builder;
    write_flag(builder, options.flags.scale_progress);
    proof {
        lemma_extends_trans(*old(builder), before, *builder);
    }
    let ghost before = *builder;
    write_flag(builder, options.flags.display_errors);
    proof {
        lemma_extends_trans(*old(builder), before, *builder);
    }
    let ghost before = *builder;
    write_flag(builder, options.flags.write_errors);
    proof {
        lemma_extends_trans(*old(builder), before, *builder);
    }
    let ghost before = *builder;
    write_flag(builder, options.flags.abort_errors);
    proof {
        lemma_extends_trans(*old(builder), before, *builder);
    }
    let ghost before = *builder;
    write_flag(builder, options.flags.variable_errors);
    proof {
        lemma_extends_trans(*old(builder), before, *builder);
    }
    let ghost before = *builder;
    write_flag(builder, options.flags.creation_event_order);
    proof {
        lemma_extends_trans(*old(builder), before, *builder);
    }
}

/// Writes the options in the old layout (without the constants).
#[verifier::spinoff_prover]
#[verifier::rlimit(100)]
#[verifier::rlimit(100)]
#[verifier::spinoff_prover]
pub fn build_options_old(builder: &mut DataBuilder, options: &GMOptions) -> (r: Result<(), String>)
    ensures
        final(builder).extends(old(builder)),
        r is Ok ==> options_old_written(*options, *old(builder), *final(builder)),
        old(builder).bytes@.len() + 108 <= u32::MAX ==> r is Ok,
{
    write_options_old_window(builder, options);
    let ghost w1 = *builder;
    write_options_old_display(builder, options);
    proof {
        lemma_extends_trans(*old(builder), w1, *builder);
    }
    let ghost w2 = *builder;
    write_options_old_keys(builder, options);
    proof {
        lemma_extends_trans(*old(builder), w2, *builder);
    }
    let ghost t1 = *builder;
    assert(t1.bytes@.len() == old(builder).bytes@.len() + 96);
    let res = builder.write_gm_texture_opt(&options.back_image);
    proof {
        lemma_extends_trans(*old(builder), t1, *builder);
    }
    res?;
    let ghost t2 = *builder;
    let res = builder.write_gm_texture_opt(&options.front_image);
    proof {
        lemma_extends_trans(*old(builder), t2, *builder);
    }
    res?;
    let ghost t3 = *builder;
    let res = builder.write_gm_texture_opt(&options.load_image);
    proof {
        lemma_extends_trans(*old(builder), t3, *builder);
    }
    res?;
    let ghost t4 = *builder;
    write_options_old_loading(builder, options);
    proof {
        lemma_extends_trans(*old(builder), t4, *builder);
    }
    Ok(())
}

/// Writes the options in the new layout.
pub fn build_options_new(builder: &mut DataBuilder, options: &GMOptions) -> (r: Result<(), String>)
    ensures
        final(builder).extends(old(builder)),
        r is Ok ==> options_new_written(*options, *old(builder), *final(builder)),
        old(builder).bytes@.len() + 64 + 8 * options.constants@.len() <= u32::MAX ==> r is Ok,
{
    builder.write_u32(options.unknown1);
    builder.write_u32(options.unknown2);
    builder.write_u64(options.flags.build());
    builder.write_i32(options.window_scale);
    builder.write_u32(options.window_color);
    builder.write_u32(options.color_depth);
    builder.write_u32(options.resolution);
    builder.write_u32(options.frequency);
    builder.write_i32(options.vertex_sync);
    builder.write_i32(options.priority);
    let ghost t1 = *builder;
    proof {
        lemma_prefix_extends(*old(builder), t1);
    }
    let res = builder.write_gm_texture_opt(&options.back_image);
    proof {
        lemma_extends_trans(*old(builder), t1, *builder);
    }
    res?;
    let ghost t2 = *builder;
    let res = builder.write_gm_texture_opt(&options.front_image);
    proof {
        lemma_extends_trans(*old(builder), t2, *builder);
    }
    res?;
    let ghost t3 = *builder;
    let res = builder.write_gm_texture_opt(&options.load_image);
    proof {
        lemma_extends_trans(*old(builder), t3, *builder);
    }
    res?;
    let ghost t4 = *builder;
    builder.write_u32(options.load_alpha);
    let ghost t5 = *builder;
    proof {
        lemma_prefix_extends(t4, t5);
        lemma_extends_trans(*old(builder), t4, t5);
        if old(builder).bytes@.len() + 64 + 8 * options.constants@.len() <= u32::MAX {
            let cs = options.constants@;
            assert(t5.bytes@.len() == old(builder).bytes@.len() + 60);
            assert forall|k: int, b: DataBuilder| 0 <= k < cs.len() && b.bytecode_version == t5.bytecode_version
                && b.gm_version == t5.gm_version && b.bytes@.len() + 8 <= u32::MAX
                implies #[trigger] cs[k].writable(b) by {}
            assert forall|k: int, b: DataBuilder, a: DataBuilder| 0 <= k < cs.len() && #[trigger] cs[k].written(b, a)
                implies a.bytes@.len() <= b.bytes@.len() + 8 by {}
            assert(elements_fit(cs, t5, 8));
            assert(simple_list_fits(cs, t5, 8));
        }
    }
    let res = builder.write_simple_list(&options.constants);
    proof {
        lemma_extends_trans(*old(builder), t5, *builder);
    }
    res
}

impl GMChunkElement for GMOptions {
    fn empty() -> (r: GMOptions)
        ensures
            !r.exists,
            r.constants@.len() == 0,
    {
        GMOptions {
            is_new_format: false,
            unknown1: 0,
            unknown2: 0,
            flags: GMOptionsFlags::parse(0),
            window_scale: 0,
            window_color: 0,
            color_depth: 0,
            resolution: 0,
            frequency: 0,
            vertex_sync: 0,
            priority: 0,
            back_image: None,
            front_image: None,
            load_image: None,
            load_alpha: 0,
            constants: Vec::new(),
            exists: false,
        }
    }

    fn chunk_exists(&self) -> (r: bool)
        ensures
            r == self.exists,
    {
        self.exists
    }
}

impl GMElement for GMOptions {
    open spec fn readable<'a>(before: DataReader<'a>) -> bool {
        &&& before.can_read(4)
        &&& if spec_u32_at(before.data@, before.cur_pos as int) == 0x80000000 {
            options_new_readable(before)
        } else {
            options_old_readable(before)
        }
    }

    open spec fn read_end<'a>(before: DataReader<'a>) -> int {
        if spec_u32_at(before.data@, before.cur_pos as int) == 0x80000000 {
            options_new_end(before)
        } else {
            options_old_end(before)
        }
    }

    /// The fields up to the image references fit below 2^32, and in the new layout the
    /// constants' references too.
    open spec fn writable(&self, before: DataBuilder) -> bool {
        if self.is_new_format {
            before.bytes@.len() + 64 + 8 * self.constants@.len() <= u32::MAX
        } else {
            before.bytes@.len() + 108 <= u32::MAX
        }
    }

    open spec fn written(&self, before: DataBuilder, after: DataBuilder) -> bool {
        if self.is_new_format {
            options_new_written(*self, before, after)
        } else {
            options_old_written(*self, before, after)
        }
    }

    open spec fn deserialized<'a>(before: DataReader<'a>, after: DataReader<'a>, value: GMOptions) -> bool {
        &&& before.can_read(4)
        &&& if spec_u32_at(before.data@, before.cur_pos as int) == 0x80000000 {
            options_new_read(before, after, value)
        } else {
            options_old_read(before, after, value)
        }
    }

    /// Reads the layout that the first word announces.
    fn deserialize(reader: &mut DataReader) -> (r: Result<GMOptions, String>) {
        let first = reader.read_u32()?;
        reader.cur_pos = reader.cur_pos - 4;
        if first == 0x80000000 {
            parse_options_new(reader)
        } else {
            parse_options_old(reader)
        }
    }

    fn serialize(&self, builder: &mut DataBuilder) -> (r: Result<(), String>) {
        if self.is_new_format {
            build_options_new(builder, self)
        } else {
            build_options_old(builder, self)
        }
    }
}

} // verus!
