//! Rooms (chunk `ROOM`): the flags, backgrounds and layers of a room that hold no floating
//! point values, with the run-length coding of tile layers.

use vstd::prelude::*;
use crate::builder::{lemma_appended_extends, lemma_extends_refl, lemma_extends_trans, lemma_prefix_extends, bool32_bytes, i32_bytes, ref_opt_bytes, ref_placeholder, DataBuilder};
use crate::bytes::{spec_i32_at, spec_u32_at, u32_le_bytes};
use crate::element::{moved_past, GMElement};
use crate::elements::backgrounds::{bool32_at, GMBackground};
use crate::lists::{elements_fit, simple_list_fits, simple_list_written, elements_end, list_read, simple_list_readable};
use crate::reader::DataReader;
use crate::refs::{gm_ref, GMRef};
use crate::version::{version_at_least, version_req, GMVersion};
use crate::resources::{resource_opt, string_at, string_opt_at};

verus! {

/// The flags of a room.
#[derive(Clone, Copy, Debug, PartialEq, Eq, Structural)]
pub struct GMRoomFlags {
    /// Views are enabled.
    pub enable_views: bool,
    pub show_color: bool,
    /// The display buffer is not cleared.
    pub dont_clear_display_buffer: bool,
    /// The room was made in GameMaker Studio 2.
    pub is_gms2: bool,
    /// The room was made in GameMaker Studio 2.3.
    pub is_gms2_3: bool,
}

/// The flags that the word `raw` holds.
pub open spec fn room_flags_of(raw: u32) -> GMRoomFlags {
    GMRoomFlags {
        enable_views: raw & 1 != 0,
        show_color: raw & 2 != 0,
        dont_clear_display_buffer: raw & 4 != 0,
        is_gms2: raw & 0x20000 != 0,
        is_gms2_3: raw & 0x10000 != 0,
    }
}

/// The word written for the flags. The flag for GameMaker Studio 2.3 is written as
/// 1365536, not as the bit 65536 that reading tests.
pub open spec fn room_flags_word(f: GMRoomFlags) -> u32 {
    (if f.enable_views { 1u32 } else { 0u32 })
        | (if f.show_color { 2u32 } else { 0u32 })
        | (if f.dont_clear_display_buffer { 4u32 } else { 0u32 })
        | (if f.is_gms2 { 0x20000u32 } else { 0u32 })
        | (if f.is_gms2_3 { 1365536u32 } else { 0u32 })
}

impl GMRoomFlags {
    /// The flags of the word `raw`.
    pub fn parse(raw: u32) -> (r: GMRoomFlags)
        ensures
            r == room_flags_of(raw),
    {
        GMRoomFlags {
            enable_views: raw & 1 != 0,
            show_color: raw & 2 != 0,
            dont_clear_display_buffer: raw & 4 != 0,
            is_gms2: raw & 0x20000 != 0,
            is_gms2_3: raw & 0x10000 != 0,
        }
    }

    /// The word of the flags.
    pub fn build(&self) -> (r: u32)
        ensures
            r == room_flags_word(*self),
    {
        let a: u32 = if self.enable_views { 1 } else { 0 };
        let b: u32 = if self.show_color { 2 } else { 0 };
        let c: u32 = if self.dont_clear_display_buffer { 4 } else { 0 };
        let d: u32 = if self.is_gms2 { 0x20000 } else { 0 };
        let e: u32 = if self.is_gms2_3 { 1365536 } else { 0 };
        a | b | c | d | e
    }
}

/// Reading the flags of a written word gives back every flag but the one for GameMaker
/// Studio 2.3, which comes back unset: the word written for it does not hold its bit.
pub proof fn law_room_flags_roundtrip(f: GMRoomFlags)
    ensures
        room_flags_of(room_flags_word(f)) == (GMRoomFlags { is_gms2_3: false, ..f }),
{
    let a: u32 = if f.enable_views { 1u32 } else { 0u32 };
    let b: u32 = if f.show_color { 2u32 } else { 0u32 };
    let c: u32 = if f.dont_clear_display_buffer { 4u32 } else { 0u32 };
    let d: u32 = if f.is_gms2 { 0x20000u32 } else { 0u32 };
    let e: u32 = if f.is_gms2_3 { 1365536u32 } else { 0u32 };
    let w = a | b | c | d | e;
    assert(w & 1 != 0 <==> a != 0) by (bit_vector)
        requires w == a | b | c | d | e, a == 0 || a == 1, b == 0 || b == 2, c == 0 || c == 4, d == 0 || d == 0x20000, e == 0 || e == 1365536;
    assert(w & 2 != 0 <==> b != 0) by (bit_vector)
        requires w == a | b | c | d | e, a == 0 || a == 1, b == 0 || b == 2, c == 0 || c == 4, d == 0 || d == 0x20000, e == 0 || e == 1365536;
    assert(w & 4 != 0 <==> c != 0) by (bit_vector)
        requires w == a | b | c | d | e, a == 0 || a == 1, b == 0 || b == 2, c == 0 || c == 4, d == 0 || d == 0x20000, e == 0 || e == 1365536;
    assert(w & 0x20000 != 0 <==> d != 0) by (bit_vector)
        requires w == a | b | c | d | e, a == 0 || a == 1, b == 0 || b == 2, c == 0 || c == 4, d == 0 || d == 0x20000, e == 0 || e == 1365536;
    assert(w & 0x10000 == 0) by (bit_vector)
        requires w == a | b | c | d | e, a == 0 || a == 1, b == 0 || b == 2, c == 0 || c == 4, d == 0 || d == 0x20000, e == 0 || e == 1365536;
}

impl GMElement for GMRoomFlags {
    open spec fn readable<'a>(before: DataReader<'a>) -> bool {
        before.can_read(4)
    }

    open spec fn read_end<'a>(before: DataReader<'a>) -> int {
        before.cur_pos + 4
    }

    open spec fn writable(&self, before: DataBuilder) -> bool {
        true
    }

    open spec fn written(&self, before: DataBuilder, after: DataBuilder) -> bool {
        after.appended(&before, u32_le_bytes(room_flags_word(*self)))
    }

    open spec fn deserialized<'a>(before: DataReader<'a>, after: DataReader<'a>, value: GMRoomFlags) -> bool {
        moved_past(before, after, 4) && value == room_flags_of(spec_u32_at(before.data@, before.cur_pos as int))
    }

    fn deserialize(reader: &mut DataReader) -> (r: Result<GMRoomFlags, String>) {
        let raw = reader.read_u32()?;
        Ok(GMRoomFlags::parse(raw))
    }

    fn serialize(&self, builder: &mut DataBuilder) -> (r: Result<(), String>)
        ensures
            r is Ok && final(builder).appended(old(builder), u32_le_bytes(room_flags_word(*self))),
    {
        let raw = self.build();
        builder.write_u32(raw);
        proof {
            lemma_appended_extends(*old(builder), *builder, u32_le_bytes(raw));
        }
        Ok(())
    }
}

/// A background of a room (before GameMaker 2).
pub struct GMRoomBackground {
    pub enabled: bool,
    pub foreground: bool,
    pub background_definition: Option<GMRef<GMBackground>>,
    pub x: i32,
    pub y: i32,
    pub tile_x: i32,
    pub tile_y: i32,
    pub speed_x: i32,
    pub speed_y: i32,
    pub stretch: bool,
}

/// The index written for an optional resource: -1 for none.
pub open spec fn resource_opt_word<T>(r: Option<GMRef<T>>) -> u32 {
    match r {
        Some(x) => x.index,
        None => 0xFFFF_FFFFu32,
    }
}

/// Writes an optional resource index, -1 for none.
pub fn write_resource_id_opt<T>(builder: &mut DataBuilder, r: &Option<GMRef<T>>)
    ensures
        final(builder).appended(old(builder), u32_le_bytes(resource_opt_word(*r))),
{
    match r {
        Some(x) => builder.write_u32(x.index),
        None => builder.write_u32(0xFFFF_FFFF),
    }
}

impl GMElement for GMRoomBackground {
    open spec fn readable<'a>(before: DataReader<'a>) -> bool {
        let p = before.cur_pos as int;
        let d = before.data@;
        &&& before.can_read(40)
        &&& bool32_at(d, p) is Some
        &&& bool32_at(d, p + 4) is Some
        &&& resource_opt::<GMBackground>(spec_i32_at(d, p + 8)) is Some
        &&& bool32_at(d, p + 36) is Some
    }

    open spec fn read_end<'a>(before: DataReader<'a>) -> int {
        before.cur_pos + 40
    }

    open spec fn writable(&self, before: DataBuilder) -> bool {
        true
    }

    open spec fn written(&self, before: DataBuilder, after: DataBuilder) -> bool {
        after.bytes@ == before.bytes@ + bool32_bytes(self.enabled) + bool32_bytes(self.foreground)
            + u32_le_bytes(resource_opt_word(self.background_definition)) + i32_bytes(self.x) + i32_bytes(self.y)
            + i32_bytes(self.tile_x) + i32_bytes(self.tile_y) + i32_bytes(self.speed_x) + i32_bytes(self.speed_y)
            + bool32_bytes(self.stretch)
    }

    open spec fn deserialized<'a>(before: DataReader<'a>, after: DataReader<'a>, value: GMRoomBackground) -> bool {
        let p = before.cur_pos as int;
        let d = before.data@;
        &&& moved_past(before, after, 40)
        &&& bool32_at(d, p) == Some(value.enabled)
        &&& bool32_at(d, p + 4) == Some(value.foreground)
        &&& resource_opt::<GMBackground>(spec_i32_at(d, p + 8)) == Some(value.background_definition)
        &&& value.x == spec_i32_at(d, p + 12)
        &&& value.y == spec_i32_at(d, p + 16)
        &&& value.tile_x == spec_i32_at(d, p + 20)
        &&& value.tile_y == spec_i32_at(d, p + 24)
        &&& value.speed_x == spec_i32_at(d, p + 28)
        &&& value.speed_y == spec_i32_at(d, p + 32)
        &&& bool32_at(d, p + 36) == Some(value.stretch)
    }

    fn deserialize(reader: &mut DataReader) -> (r: Result<GMRoomBackground, String>) {
        let enabled = reader.read_bool32()?;
        let foreground = reader.read_bool32()?;
        let background_definition: Option<GMRef<GMBackground>> = reader.read_resource_by_id_opt()?;
        let x = reader.read_i32()?;
        let y = reader.read_i32()?;
        let tile_x = reader.read_i32()?;
        let tile_y = reader.read_i32()?;
        let speed_x = reader.read_i32()?;
        let speed_y = reader.read_i32()?;
        let stretch = reader.read_bool32()?;
        Ok(GMRoomBackground { enabled, foreground, background_definition, x, y, tile_x, tile_y, speed_x, speed_y, stretch })
    }

    fn serialize(&self, builder: &mut DataBuilder) -> (r: Result<(), String>) {
        builder.write_bool32(self.enabled);
        builder.write_bool32(self.foreground);
        write_resource_id_opt(builder, &self.background_definition);
        builder.write_i32(self.x);
        builder.write_i32(self.y);
        builder.write_i32(self.tile_x);
        builder.write_i32(self.tile_y);
        builder.write_i32(self.speed_x);
        builder.write_i32(self.speed_y);
        builder.write_bool32(self.stretch);
        proof {
            assert(old(builder).bytes@.len() <= builder.bytes@.len());
            lemma_prefix_extends(*old(builder), *builder);
        }
        Ok(())
    }
}

/// The kind of value of a layer effect property.
#[derive(Clone, Copy, Debug, PartialEq, Eq, Structural)]
pub enum GMRoomLayerEffectPropertyType {
    Real,
    Color,
    Sampler,
}

/// The property type numbered `n`.
/// The number of a property type.
pub open spec fn effect_property_type_code(t: GMRoomLayerEffectPropertyType) -> i32 {
    match t {
        GMRoomLayerEffectPropertyType::Real => 0,
        GMRoomLayerEffectPropertyType::Color => 1,
        GMRoomLayerEffectPropertyType::Sampler => 2,
    }
}

pub open spec fn effect_property_type_of(n: i32) -> Option<GMRoomLayerEffectPropertyType> {
    if n == 0 {
        Some(GMRoomLayerEffectPropertyType::Real)
    } else if n == 1 {
        Some(GMRoomLayerEffectPropertyType::Color)
    } else if n == 2 {
        Some(GMRoomLayerEffectPropertyType::Sampler)
    } else {
        None
    }
}

impl GMRoomLayerEffectPropertyType {
    /// The property type numbered `n`; fails for other numbers.
    pub fn from_i32(n: i32) -> (r: Result<Self, String>)
        ensures
            match r {
                Ok(t) => effect_property_type_of(n) == Some(t),
                Err(_) => effect_property_type_of(n) is None,
            },
    {
        match n {
            0 => Ok(GMRoomLayerEffectPropertyType::Real),
            1 => Ok(GMRoomLayerEffectPropertyType::Color),
            2 => Ok(GMRoomLayerEffectPropertyType::Sampler),
            _ => Err("Invalid room layer effect property type".to_owned()),
        }
    }

    /// The number of the property type.
    pub fn to_i32(&self) -> (r: i32)
        ensures
            effect_property_type_of(r) == Some(*self),
            r == effect_property_type_code(*self),
    {
        match self {
            GMRoomLayerEffectPropertyType::Real => 0,
            GMRoomLayerEffectPropertyType::Color => 1,
            GMRoomLayerEffectPropertyType::Sampler => 2,
        }
    }
}

/// A property of a layer effect: its kind, name and value.
pub struct GMRoomLayerEffectProperty {
    pub kind: GMRoomLayerEffectPropertyType,
    pub name: GMRef<String>,
    pub value: GMRef<String>,
}

impl GMElement for GMRoomLayerEffectProperty {
    open spec fn readable<'a>(before: DataReader<'a>) -> bool {
        let p = before.cur_pos as int;
        &&& before.can_read(12)
        &&& effect_property_type_of(spec_i32_at(before.data@, p)) is Some
        &&& string_at(before, p + 4) is Some
        &&& string_at(before, p + 8) is Some
    }

    open spec fn read_end<'a>(before: DataReader<'a>) -> int {
        before.cur_pos + 12
    }

    open spec fn writable(&self, before: DataBuilder) -> bool {
        before.bytes@.len() + 8 <= u32::MAX
    }

    open spec fn written(&self, before: DataBuilder, after: DataBuilder) -> bool {
        after.bytes@ == before.bytes@ + i32_bytes(effect_property_type_code(self.kind)) + ref_placeholder()
            + ref_placeholder()
    }

    open spec fn deserialized<'a>(before: DataReader<'a>, after: DataReader<'a>, value: GMRoomLayerEffectProperty) -> bool {
        let p = before.cur_pos as int;
        &&& moved_past(before, after, 12)
        &&& effect_property_type_of(spec_i32_at(before.data@, p)) == Some(value.kind)
        &&& string_at(before, p + 4) == Some(value.name)
        &&& string_at(before, p + 8) == Some(value.value)
    }

    fn deserialize(reader: &mut DataReader) -> (r: Result<GMRoomLayerEffectProperty, String>) {
        let kind = GMRoomLayerEffectPropertyType::from_i32(reader.read_i32()?)?;
        let name = reader.read_gm_string()?;
        let value = reader.read_gm_string()?;
        Ok(GMRoomLayerEffectProperty { kind, name, value })
    }

    fn serialize(&self, builder: &mut DataBuilder) -> (r: Result<(), String>) {
        let kind = self.kind.to_i32();
        builder.write_i32(kind);
        let ghost b1 = *builder;
        proof {
            lemma_appended_extends(*old(builder), b1, u32_le_bytes(kind as u32));
        }
        let res = builder.write_gm_string(&self.name);
        proof {
            lemma_extends_trans(*old(builder), b1, *builder);
        }
        res?;
        let ghost b2 = *builder;
        let res = builder.write_gm_string(&self.value);
        proof {
            lemma_extends_trans(*old(builder), b2, *builder);
        }
        res
    }
}

/// The effect of a layer, from GameMaker 2022.1 on.
pub struct GMRoomLayer2022_1 {
    pub effect_enabled: bool,
    pub effect_type: Option<GMRef<String>>,
    pub effect_properties: Vec<GMRoomLayerEffectProperty>,
}

/// Writes an optional string reference, 0 for none.
pub fn write_gm_string_opt(builder: &mut DataBuilder, r: &Option<GMRef<String>>) -> (res: Result<(), String>)
    ensures
        final(builder).extends(old(builder)),
        r is None ==> res is Ok && final(builder).appended(old(builder), u32_le_bytes(0)),
        res is Ok ==> final(builder).bytes@ == old(builder).bytes@ + ref_opt_bytes(*r),
        old(builder).bytes@.len() <= u32::MAX ==> res is Ok,
{
    match r {
        Some(x) => builder.write_gm_string(x),
        None => {
            builder.write_u32(0);
            proof {
                lemma_appended_extends(*old(builder), *builder, u32_le_bytes(0));
            }
            Ok(())
        },
    }
}

impl GMElement for GMRoomLayer2022_1 {
    open spec fn readable<'a>(before: DataReader<'a>) -> bool {
        let p = before.cur_pos as int;
        &&& before.can_read(8)
        &&& bool32_at(before.data@, p) is Some
        &&& string_opt_at(before, p + 4) is Some
        &&& simple_list_readable::<GMRoomLayerEffectProperty>(before.moved(p + 8))
    }

    open spec fn read_end<'a>(before: DataReader<'a>) -> int {
        let p = before.cur_pos as int;
        elements_end::<GMRoomLayerEffectProperty>(before.moved(p + 12), spec_u32_at(before.data@, p + 8) as nat)
    }

    /// The flag, the effect type, the count and 12 bytes per property fit below 2^32.
    open spec fn writable(&self, before: DataBuilder) -> bool {
        before.bytes@.len() + 12 + 12 * self.effect_properties@.len() <= u32::MAX
    }

    open spec fn written(&self, before: DataBuilder, after: DataBuilder) -> bool {
        exists|b: DataBuilder| {
            &&& b.bytes@ == before.bytes@ + bool32_bytes(self.effect_enabled) + ref_opt_bytes(self.effect_type)
            &&& #[trigger] simple_list_written(self.effect_properties@, b, after)
        }
    }

    open spec fn deserialized<'a>(before: DataReader<'a>, after: DataReader<'a>, value: GMRoomLayer2022_1) -> bool {
        let p = before.cur_pos as int;
        &&& before.can_read(12)
        &&& bool32_at(before.data@, p) == Some(value.effect_enabled)
        &&& string_opt_at(before, p + 4) == Some(value.effect_type)
        &&& value.effect_properties@.len() == spec_u32_at(before.data@, p + 8)
        &&& list_read(before.moved(p + 12), after, value.effect_properties@)
    }

    fn deserialize(reader: &mut DataReader) -> (r: Result<GMRoomLayer2022_1, String>) {
        let effect_enabled = reader.read_bool32()?;
        let effect_type = reader.read_gm_string_opt()?;
        let effect_properties: Vec<GMRoomLayerEffectProperty> = reader.read_simple_list()?;
        Ok(GMRoomLayer2022_1 { effect_enabled, effect_type, effect_properties })
    }

    fn serialize(&self, builder: &mut DataBuilder) -> (r: Result<(), String>) {
        builder.write_bool32(self.effect_enabled);
        let ghost b1 = *builder;
        proof {
            lemma_appended_extends(*old(builder), b1, u32_le_bytes(if self.effect_enabled { 1u32 } else { 0u32 }));
        }
        let res = write_gm_string_opt(builder, &self.effect_type);
        proof {
            lemma_extends_trans(*old(builder), b1, *builder);
        }
        res?;
        let ghost b2 = *builder;
        proof {
            if self.writable(*old(builder)) {
                let ps = self.effect_properties@;
                assert forall|k: int, b: DataBuilder| 0 <= k < ps.len() && b.bytecode_version == b2.bytecode_version
                    && b.gm_version == b2.gm_version && b.bytes@.len() + 12 <= u32::MAX
                    implies #[trigger] ps[k].writable(b) by {}
                assert forall|k: int, b: DataBuilder, a: DataBuilder| 0 <= k < ps.len() && #[trigger] ps[k].written(b, a)
                    implies a.bytes@.len() <= b.bytes@.len() + 12 by {}
                assert(elements_fit(ps, b2, 12));
                assert(simple_list_fits(ps, b2, 12));
            }
        }
        let res = builder.write_simple_list(&self.effect_properties);
        proof {
            lemma_extends_trans(*old(builder), b2, *builder);
        }
        res
    }
}

/// The kind of a room layer.
#[derive(Clone, Copy, Debug, PartialEq, Eq, Structural)]
pub enum GMRoomLayerType {
    Path,
    Background,
    Instances,
    Assets,
    Tiles,
    Effect,
    /// From GameMaker 2024.13 on.
    Path2,
}

/// The layer type numbered `n` (5 is not one).
pub open spec fn room_layer_type_of(n: u32) -> Option<GMRoomLayerType> {
    if n == 0 { Some(GMRoomLayerType::Path) }
    else if n == 1 { Some(GMRoomLayerType::Background) }
    else if n == 2 { Some(GMRoomLayerType::Instances) }
    else if n == 3 { Some(GMRoomLayerType::Assets) }
    else if n == 4 { Some(GMRoomLayerType::Tiles) }
    else if n == 6 { Some(GMRoomLayerType::Effect) }
    else if n == 7 { Some(GMRoomLayerType::Path2) }
    else { None }
}

impl GMRoomLayerType {
    /// The layer type numbered `n`; fails for other numbers.
    pub fn from_u32(n: u32) -> (r: Result<Self, String>)
        ensures
            match r {
                Ok(t) => room_layer_type_of(n) == Some(t),
                Err(_) => room_layer_type_of(n) is None,
            },
    {
        match n {
            0 => Ok(GMRoomLayerType::Path),
            1 => Ok(GMRoomLayerType::Background),
            2 => Ok(GMRoomLayerType::Instances),
            3 => Ok(GMRoomLayerType::Assets),
            4 => Ok(GMRoomLayerType::Tiles),
            6 => Ok(GMRoomLayerType::Effect),
            7 => Ok(GMRoomLayerType::Path2),
            _ => Err("Invalid room layer type".to_owned()),
        }
    }

    /// The number of the layer type.
    pub fn to_u32(&self) -> (r: u32)
        ensures
            room_layer_type_of(r) == Some(*self),
    {
        match self {
            GMRoomLayerType::Path => 0,
            GMRoomLayerType::Background => 1,
            GMRoomLayerType::Instances => 2,
            GMRoomLayerType::Assets => 3,
            GMRoomLayerType::Tiles => 4,
            GMRoomLayerType::Effect => 6,
            GMRoomLayerType::Path2 => 7,
        }
    }
}

/// The instances of an instance layer, by id.
pub struct GMRoomLayerDataInstances {
    pub instances: Vec<u32>,
}

impl GMElement for GMRoomLayerDataInstances {
    open spec fn readable<'a>(before: DataReader<'a>) -> bool {
        simple_list_readable::<u32>(before)
    }

    open spec fn read_end<'a>(before: DataReader<'a>) -> int {
        elements_end::<u32>(before.moved(before.cur_pos + 4), before.word() as nat)
    }

    open spec fn writable(&self, before: DataBuilder) -> bool {
        self.instances@.len() <= u32::MAX
    }

    open spec fn written(&self, before: DataBuilder, after: DataBuilder) -> bool {
        simple_list_written(self.instances@, before, after)
    }

    open spec fn deserialized<'a>(before: DataReader<'a>, after: DataReader<'a>, value: GMRoomLayerDataInstances) -> bool {
        &&& before.can_read(4)
        &&& value.instances@.len() == before.word()
        &&& list_read(before.moved(before.cur_pos + 4), after, value.instances@)
    }

    fn deserialize(reader: &mut DataReader) -> (r: Result<GMRoomLayerDataInstances, String>) {
        let instances: Vec<u32> = reader.read_simple_list()?;
        Ok(GMRoomLayerDataInstances { instances })
    }

    fn serialize(&self, builder: &mut DataBuilder) -> (r: Result<(), String>) {
        builder.write_simple_list(&self.instances)
    }
}

/// The effect of an effect layer: its type and properties.
pub struct GMRoomLayerDataEffect {
    pub effect_type: GMRef<String>,
    pub properties: Vec<GMRoomLayerEffectProperty>,
}

impl GMElement for GMRoomLayerDataEffect {
    open spec fn readable<'a>(before: DataReader<'a>) -> bool {
        let p = before.cur_pos as int;
        &&& before.can_read(4)
        &&& string_at(before, p) is Some
        &&& simple_list_readable::<GMRoomLayerEffectProperty>(before.moved(p + 4))
    }

    open spec fn read_end<'a>(before: DataReader<'a>) -> int {
        let p = before.cur_pos as int;
        elements_end::<GMRoomLayerEffectProperty>(before.moved(p + 8), spec_u32_at(before.data@, p + 4) as nat)
    }

    /// The effect type, the count and 12 bytes per property fit below 2^32.
    open spec fn writable(&self, before: DataBuilder) -> bool {
        before.bytes@.len() + 8 + 12 * self.properties@.len() <= u32::MAX
    }

    open spec fn written(&self, before: DataBuilder, after: DataBuilder) -> bool {
        exists|b: DataBuilder| {
            &&& b.bytes@ == before.bytes@ + ref_placeholder()
            &&& #[trigger] simple_list_written(self.properties@, b, after)
        }
    }

    open spec fn deserialized<'a>(before: DataReader<'a>, after: DataReader<'a>, value: GMRoomLayerDataEffect) -> bool {
        let p = before.cur_pos as int;
        &&& before.can_read(8)
        &&& string_at(before, p) == Some(value.effect_type)
        &&& value.properties@.len() == spec_u32_at(before.data@, p + 4)
        &&& list_read(before.moved(p + 8), after, value.properties@)
    }

    fn deserialize(reader: &mut DataReader) -> (r: Result<GMRoomLayerDataEffect, String>) {
        let effect_type = reader.read_gm_string()?;
        let properties: Vec<GMRoomLayerEffectProperty> = reader.read_simple_list()?;
        Ok(GMRoomLayerDataEffect { effect_type, properties })
    }

    fn serialize(&self, builder: &mut DataBuilder) -> (r: Result<(), String>) {
        let res = builder.write_gm_string(&self.effect_type);
        res?;
        let ghost b1 = *builder;
        proof {
            if self.writable(*old(builder)) {
                let ps = self.properties@;
                assert forall|k: int, b: DataBuilder| 0 <= k < ps.len() && b.bytecode_version == b1.bytecode_version
                    && b.gm_version == b1.gm_version && b.bytes@.len() + 12 <= u32::MAX
                    implies #[trigger] ps[k].writable(b) by {}
                assert forall|k: int, b: DataBuilder, a: DataBuilder| 0 <= k < ps.len() && #[trigger] ps[k].written(b, a)
                    implies a.bytes@.len() <= b.bytes@.len() + 12 by {}
                assert(elements_fit(ps, b1, 12));
                assert(simple_list_fits(ps, b1, 12));
            }
        }
        let res = builder.write_simple_list(&self.properties);
        proof {
            lemma_extends_trans(*old(builder), b1, *builder);
        }
        res
    }
}

/// The tiles of a tile layer, with the tile set they come from.
pub struct GMRoomLayerDataTiles {
    pub background: GMRef<GMBackground>,
    /// The tiles row by row: the tile at column `x` of row `y` is at `x + width * y`.
    pub tile_data: Vec<u32>,
    pub width: usize,
    pub height: usize,
}

/// `n` copies of `tile`.
pub open spec fn repeated(tile: u32, n: int) -> Seq<u32> {
    Seq::new(n as nat, |k: int| tile)
}

/// The `n` words from `pos` on.
pub open spec fn words_at(data: Seq<u8>, pos: int, n: int) -> Seq<u32> {
    Seq::new(n as nat, |k: int| spec_u32_at(data, pos + 4 * k))
}

/// The tiles decoded from the runs at `pos`, after the tiles `acc`, until there are
/// `total`: a length byte of 128 or more is a repeat run of `(byte & 0x7F) + 1` copies of the
/// word that follows; a smaller one is a verbatim run of that many words. Decoding stops at
/// the tile that makes `total`. Gives the tiles and the position after the last word
/// read; `None` when a run leaves the chunk.
pub open spec fn tiles_from<'a>(r: DataReader<'a>, pos: int, total: int, acc: Seq<u32>) -> Option<(Seq<u32>, int)>
    decreases r.chunk.end_pos - pos,
{
    let end = r.chunk.end_pos as int;
    let left = total - acc.len();
    if !(r.chunk.start_pos <= pos && pos + 1 <= end) {
        None
    } else {
        let len = r.data@[pos];
        if len >= 128 {
            let run = len - 128 + 1;
            let tile = spec_u32_at(r.data@, pos + 1);
            if pos + 5 > end {
                None
            } else if run >= left {
                Some((acc + repeated(tile, left), pos + 5))
            } else {
                tiles_from(r, pos + 5, total, acc + repeated(tile, run))
            }
        } else if len >= left {
            if pos + 1 + 4 * left > end {
                None
            } else {
                Some((acc + words_at(r.data@, pos + 1, left), pos + 1 + 4 * left))
            }
        } else if pos + 1 + 4 * len > end {
            None
        } else {
            tiles_from(r, pos + 1 + 4 * len, total, acc + words_at(r.data@, pos + 1, len as int))
        }
    }
}

/// Whether decoded tiles are followed by the two blank tiles that GameMaker writes when the
/// last two tiles differ (always after a single tile).
pub open spec fn has_tile_padding(t: Seq<u32>) -> bool {
    t.len() == 1 || (t.len() >= 2 && t[t.len() - 1] != t[t.len() - 2])
}

/// The `k` bytes from `pos` on are zero.
pub open spec fn zero_bytes(data: Seq<u8>, pos: int, k: int) -> bool {
    forall|i: int| 0 <= i < k ==> #[trigger] data[pos + i] == 0
}

/// The compressed tiles of `total` tiles at the reader's position, with the position
/// after them: the runs, the padding run of two blank tiles where there is one, and (from
/// GameMaker 2024.4 on) zero bytes up to a multiple of 4. No bytes at all for no tiles.
pub open spec fn compressed_tiles<'a>(r: DataReader<'a>, total: int) -> Option<(Seq<u32>, int)> {
    if total == 0 {
        Some((Seq::empty(), r.cur_pos as int))
    } else {
        match tiles_from(r, r.cur_pos as int, total, Seq::empty()) {
            None => None,
            Some((t, p)) => {
                let q = if has_tile_padding(t) { p + 5 } else { p };
                let k = crate::reader::align_pad(q, 4);
                let a = if version_at_least(r.gm_version, version_req(2024, 4)) { k } else { 0 };
                if has_tile_padding(t) && !(r.moved(p).can_read(5) && r.data@[p] == 0x81
                    && spec_u32_at(r.data@, p + 1) == 0xFFFF_FFFF) {
                    None
                } else if !(r.moved(q).can_read(a) && zero_bytes(r.data@, q, a)) {
                    None
                } else {
                    Some((t, q + a))
                }
            },
        }
    }
}

impl GMRoomLayerDataTiles {
    /// Reads `total` run-length coded tiles, then the padding run and the alignment.
    pub fn read_compressed_tile_data(reader: &mut DataReader, total: usize) -> (r: Result<Vec<u32>, String>)
        requires
            old(reader).wf(),
        ensures
            final(reader).wf(),
            old(reader).only_moved(*final(reader)),
            r is Ok <==> compressed_tiles(*old(reader), total as int) is Some,
            r matches Ok(t) ==> {
                let (tiles, end) = compressed_tiles(*old(reader), total as int)->Some_0;
                &&& t@ == tiles
                &&& *final(reader) == old(reader).moved(end)
                &&& final(reader).cur_pos == end
            },
    {
        let mut tile_data: Vec<u32> = Vec::new();
        if total == 0 {
            return Ok(tile_data);
        }
        let ghost start = *old(reader);
        let ghost full = tiles_from(start, start.cur_pos as int, total as int, Seq::empty());
        loop
            invariant_except_break
                reader.wf(),
                start == *old(reader),
                total > 0,
                *reader == start.moved(reader.cur_pos as int),
                tile_data@.len() < total,
                full == tiles_from(start, start.cur_pos as int, total as int, Seq::empty()),
                full == tiles_from(start, reader.cur_pos as int, total as int, tile_data@),
            ensures
                reader.wf(),
                start == *old(reader),
                *reader == start.moved(reader.cur_pos as int),
                full == tiles_from(start, start.cur_pos as int, total as int, Seq::empty()),
                full == Some((tile_data@, reader.cur_pos as int)),
                start.chunk.start_pos <= reader.cur_pos <= start.chunk.end_pos,
                total > 0,
            decreases reader.chunk.end_pos - reader.cur_pos,
        {
            let ghost pos = reader.cur_pos as int;
            let ghost acc = tile_data@;
            let length = reader.read_u8()?;
            if length >= 128 {
                let run: usize = (length - 128) as usize + 1;
                let tile = reader.read_u32()?;
                let left = total - tile_data.len();
                if run >= left {
                    let mut k: usize = 0;
                    while k < left
                        invariant
                            k <= left,
                            left == total - acc.len(),
                            tile_data@ == acc + repeated(tile, k as int),
                        decreases left - k,
                    {
                        tile_data.push(tile);
                        k = k + 1;
                        assert(tile_data@ =~= acc + repeated(tile, k as int));
                    }
                    break;
                }
                let mut k: usize = 0;
                while k < run
                    invariant
                        k <= run,
                        tile_data@ == acc + repeated(tile, k as int),
                    decreases run - k,
                {
                    tile_data.push(tile);
                    k = k + 1;
                    assert(tile_data@ =~= acc + repeated(tile, k as int));
                }
            } else {
                let left = total - tile_data.len();
                let n: usize = if (length as usize) < left { length as usize } else { left };
                let mut k: usize = 0;
                while k < n
                    invariant
                        k <= n,
                        n <= left,
                        left == total - acc.len(),
                        n == (if (length as int) < left { length as int } else { left as int }),
                        length == start.data@[pos],
                        length < 128,
                        start.chunk.start_pos <= pos && pos + 1 <= start.chunk.end_pos,
                        reader.wf(),
                        start == *old(reader),
                        *reader == start.moved(reader.cur_pos as int),
                        reader.cur_pos == pos + 1 + 4 * k,
                        reader.cur_pos <= start.chunk.end_pos,
                        full == tiles_from(start, start.cur_pos as int, total as int, Seq::empty()),
                        full == tiles_from(start, pos, total as int, acc),
                        tile_data@ == acc + words_at(start.data@, pos + 1, k as int),
                    decreases n - k,
                {
                    let tile = reader.read_u32()?;
                    tile_data.push(tile);
                    k = k + 1;
                    assert(tile_data@ =~= acc + words_at(start.data@, pos + 1, k as int));
                }
                if tile_data.len() >= total {
                    break;
                }
            }
        }
        let ghost t = tile_data@;
        let ghost p = reader.cur_pos as int;
        let n = tile_data.len();
        let has_padding = n == 1 || (n >= 2 && tile_data[n - 1] != tile_data[n - 2]);
        assert(has_padding == has_tile_padding(t));
        if has_padding {
            let length = reader.read_u8()?;
            let tile = reader.read_u32()?;
            if length != 0x81 {
                return Err("Expected 0x81 for the run length of the compressed tile data padding".to_owned());
            }
            if tile != 0xFFFF_FFFF {
                return Err("Expected -1 for the tile of the compressed tile data padding".to_owned());
            }
        }
        let ghost q = reader.cur_pos as int;
        assert(q == if has_tile_padding(t) { p + 5 } else { p });
        assert(has_tile_padding(t) ==> start.moved(p).can_read(5) && start.data@[p] == 0x81
            && spec_u32_at(start.data@, p + 1) == 0xFFFF_FFFF);
        assert(*reader == start.moved(q));
        if reader.gm_version.is_version_at_least(&GMVersion::new(2024, 4, 0, 0)) {
            let ghost before_align = *reader;
            let res = reader.align(4);
            if res.is_err() {
                proof {
                    let k = crate::reader::align_pad(q, 4);
                    assert(before_align == start.moved(q));
                    assert(!(start.moved(q).can_read(k) && zero_bytes(start.data@, q, k)));
                }
                return Err("Nonzero or missing alignment after the compressed tile data".to_owned());
            }
        } else {
            assert(start.moved(q).can_read(0));
        }
        assert(compressed_tiles(start, total as int) == Some((t, reader.cur_pos as int)));
        Ok(tile_data)
    }
}

/// The bytes of the `w` words of the tiles from index `s` on.
pub open spec fn tile_words(t: Seq<u32>, s: int, w: int) -> Seq<u8>
    decreases w,
{
    if w <= 0 {
        Seq::empty()
    } else {
        tile_words(t, s, w - 1) + u32_le_bytes(t[s + w - 1])
    }
}

/// The verbatim runs of the `nv` tiles from index `vs` on: runs of at most 127 tiles, each
/// its length byte and its words.
pub open spec fn verbatim_bytes(t: Seq<u32>, vs: int, nv: int) -> Seq<u8>
    decreases nv,
{
    if nv <= 0 {
        Seq::empty()
    } else {
        let w = if nv < 127 { nv } else { 127 };
        seq![w as u8] + tile_words(t, vs, w) + verbatim_bytes(t, vs + w, nv - w)
    }
}

/// The repeat runs of `nr` copies of `tile`: runs of at most 128, each its length minus 1
/// with the high bit set, and the tile.
pub open spec fn repeat_bytes(tile: u32, nr: int) -> Seq<u8>
    decreases nr,
{
    if nr <= 0 {
        Seq::empty()
    } else {
        let w = if nr < 128 { nr } else { 128 };
        seq![((w - 1) as u8) | 0x80u8] + u32_le_bytes(tile) + repeat_bytes(tile, nr - w)
    }
}

/// The run-length coding of the tiles `t` as GameMaker writes it, from the scan at index
/// `i`. The scan compares each tile with the one before (past the end it sees -1 twice);
/// tiles that differ from the one before join the pending verbatim run of `nv` tiles from
/// index `vs`; a tile equal to the one before starts a repeat run, extended (`extending`,
/// `nr` copies so far) while the next tiles are equal. A repeat run writes the pending
/// verbatim run, then itself; the scan goes on after the tile that ended it, which starts
/// the next verbatim run (past the end that tile counts as 0).
pub open spec fn tile_runs(t: Seq<u32>, i: int, last: u32, nr: int, nv: int, vs: int, extending: bool) -> Seq<u8>
    decreases t.len() + 3 - i,
{
    let n = t.len() as int;
    if i > n + 2 || i < 0 {
        Seq::empty()
    } else if extending {
        if i < n && t[i] == last {
            tile_runs(t, i + 1, last, nr + 1, nv, vs, true)
        } else {
            verbatim_bytes(t, vs, nv) + repeat_bytes(last, nr)
                + tile_runs(t, i + 1, if i >= n { 0 } else { t[i] }, 0, 0, i, false)
        }
    } else if i > n + 1 {
        Seq::empty()
    } else {
        let curr = if i >= n { 0xFFFF_FFFFu32 } else { t[i] };
        if curr != last {
            tile_runs(t, i + 1, curr, 0, nv + 1, vs, false)
        } else {
            tile_runs(t, i + 1, curr, 2, nv, vs, true)
        }
    }
}

/// The run-length coding of the tiles `t`: nothing for no tiles.
pub open spec fn tile_coding(t: Seq<u32>) -> Seq<u8> {
    if t.len() == 0 { Seq::empty() } else { tile_runs(t, 1, t[0], 0, 0, 0, false) }
}

impl GMRoomLayerDataTiles {
    /// Writes the tiles run-length coded as GameMaker does, then (from GameMaker 2024.4 on)
    /// zero bytes up to a multiple of 4. Long repeat runs are split into runs of at most 128
    /// tiles. Nothing for no tiles.
    pub fn build_compressed_tile_data(&self, builder: &mut DataBuilder) -> (r: Result<(), String>)
        ensures
            final(builder).same_meta(old(builder)),
            self.tile_data@.len() + 3 >= usize::MAX ==> r is Err && *final(builder) == *old(builder),
            r is Ok ==> final(builder).bytes@ == old(builder).bytes@ + tile_coding(self.tile_data@) + (
                if self.tile_data@.len() > 0 && version_at_least(old(builder).gm_version, version_req(2024, 4)) {
                    Seq::new(crate::reader::align_pad((old(builder).bytes@.len() + tile_coding(self.tile_data@).len()) as int, 4) as nat, |k: int| 0u8)
                } else {
                    Seq::empty()
                }),
            self.tile_data@.len() + 3 < usize::MAX ==> r is Ok,
    {
        let n = self.tile_data.len();
        if n >= usize::MAX - 3 {
            return Err("Too many tiles".to_owned());
        }
        if n == 0 {
            return Ok(());
        }
        let ghost t = self.tile_data@;
        let ghost b0 = builder.bytes@;
        let ghost total = tile_coding(t);
        let mut last: u32 = self.tile_data[0];
        let mut nv: usize = 0;
        let mut vs: usize = 0;
        let mut i: usize = 1;
        while i <= n + 1
            invariant
                n == t.len(),
                t == self.tile_data@,
                n >= 1,
                n + 3 < usize::MAX,
                1 <= i <= n + 3,
                vs + nv + 1 == i,
                total == tile_coding(t),
                builder.same_meta(old(builder)),
                b0 == old(builder).bytes@,
                b0 + total == builder.bytes@ + tile_runs(t, i as int, last, 0, nv as int, vs as int, false),
            decreases n + 3 - i,
        {
            let curr = if i >= n { 0xFFFF_FFFFu32 } else { self.tile_data[i] };
            let ghost at = i as int;
            i = i + 1;
            if curr != last {
                nv = nv + 1;
                last = curr;
                continue;
            }
            let ghost vs0 = vs as int;
            let ghost nv0 = nv as int;
            let mut nr: usize = 2;
            while i < n && self.tile_data[i] == curr
                invariant
                    n == t.len(),
                    t == self.tile_data@,
                    at >= 1,
                    at + 1 <= i <= n + 2,
                    n + 3 < usize::MAX,
                    nr == 2 + (i - at - 1),
                    b0 + total == builder.bytes@ + tile_runs(t, i as int, curr, nr as int, nv as int, vs as int, true),
                decreases n - i,
            {
                nr = nr + 1;
                i = i + 1;
            }
            let ghost rest = tile_runs(t, i + 1, if i >= n { 0 } else { t[i as int] }, 0, 0, i as int, false);
            assert(tile_runs(t, i as int, curr, nr as int, nv as int, vs as int, true)
                == verbatim_bytes(t, vs as int, nv as int) + repeat_bytes(curr, nr as int) + rest);
            while nv > 0
                invariant
                    n == t.len(),
                    t == self.tile_data@,
                    vs + nv <= n,
                    builder.same_meta(old(builder)),
                    b0 + total == builder.bytes@ + (verbatim_bytes(t, vs as int, nv as int) + repeat_bytes(curr, nr as int) + rest),
                decreases nv,
            {
                let w: usize = if nv < 127 { nv } else { 127 };
                let ghost before = builder.bytes@;
                builder.write_u8(w as u8);
                let mut j: usize = 0;
                while j < w
                    invariant
                        j <= w,
                        vs + w <= n,
                        n == t.len(),
                        t == self.tile_data@,
                        builder.same_meta(old(builder)),
                        builder.bytes@ == before + seq![w as u8] + tile_words(t, vs as int, j as int),
                    decreases w - j,
                {
                    builder.write_u32(self.tile_data[vs + j]);
                    j = j + 1;
                    assert(builder.bytes@ =~= before + seq![w as u8] + tile_words(t, vs as int, j as int));
                }
                proof {
                    assert(verbatim_bytes(t, vs as int, nv as int)
                        == seq![w as u8] + tile_words(t, vs as int, w as int) + verbatim_bytes(t, vs + w, nv - w));
                    assert(before + (seq![w as u8] + tile_words(t, vs as int, w as int) + verbatim_bytes(t, vs + w, nv - w)
                        + repeat_bytes(curr, nr as int) + rest)
                        =~= builder.bytes@ + (verbatim_bytes(t, vs + w, nv - w) + repeat_bytes(curr, nr as int) + rest));
                }
                nv = nv - w;
                vs = vs + w;
            }
            while nr > 0
                invariant
                    builder.same_meta(old(builder)),
                    b0 + total == builder.bytes@ + (verbatim_bytes(t, vs as int, nv as int) + repeat_bytes(curr, nr as int) + rest),
                    nv == 0,
                decreases nr,
            {
                let w: usize = if nr < 128 { nr } else { 128 };
                let ghost before = builder.bytes@;
                let byte: u8 = ((w - 1) as u8) | 0x80;
                builder.write_u8(byte);
                builder.write_u32(curr);
                proof {
                    assert(repeat_bytes(curr, nr as int)
                        == seq![((w - 1) as u8) | 0x80u8] + u32_le_bytes(curr) + repeat_bytes(curr, nr - w));
                    assert(before + (verbatim_bytes(t, vs as int, nv as int) + (seq![((w - 1) as u8) | 0x80u8] + u32_le_bytes(curr) + repeat_bytes(curr, nr - w)) + rest)
                        =~= builder.bytes@ + (verbatim_bytes(t, vs as int, nv as int) + repeat_bytes(curr, nr - w) + rest));
                }
                nr = nr - w;
            }
            let next = if i >= n { 0 } else { self.tile_data[i] };
            proof {
                assert(b0 + total =~= builder.bytes@ + rest);
            }
            vs = i;
            nv = 0;
            i = i + 1;
            last = next;
        }
        proof {
            assert(tile_runs(t, i as int, last, 0, nv as int, vs as int, false) =~= Seq::<u8>::empty());
            assert(b0 + total =~= builder.bytes@);
        }
        if builder.is_gm_version_at_least(&GMVersion::new(2024, 4, 0, 0)) {
            builder.align(4);
        }
        Ok(())
    }
}

/// The tiles as 32-bit words.
pub open spec fn tile_word_bytes(ts: Seq<u32>) -> Seq<u8>
    decreases ts.len(),
{
    if ts.len() == 0 { Seq::empty() } else { tile_word_bytes(ts.drop_last()) + u32_le_bytes(ts.last()) }
}

/// The bytes of the tiles written at position `pos` for version `v`: from GameMaker 2024.2 on
/// their run-length coding, padded to a multiple of 4 from 2024.4 on when there are tiles;
/// before, one word per tile.
pub open spec fn tiles_body(ts: Seq<u32>, v: GMVersion, pos: int) -> Seq<u8> {
    if version_at_least(v, version_req(2024, 2)) {
        tile_coding(ts) + (if ts.len() > 0 && version_at_least(v, version_req(2024, 4)) {
            Seq::new(crate::reader::align_pad(pos + tile_coding(ts).len(), 4) as nat, |k: int| 0u8)
        } else {
            Seq::empty()
        })
    } else {
        tile_word_bytes(ts)
    }
}

impl GMElement for GMRoomLayerDataTiles {
    open spec fn readable<'a>(before: DataReader<'a>) -> bool {
        let p = before.cur_pos as int;
        let d = before.data@;
        let total = spec_u32_at(d, p + 4) * spec_u32_at(d, p + 8);
        let body = before.moved(p + 12);
        &&& before.can_read(12)
        &&& spec_u32_at(d, p) < crate::reader::RESOURCE_FAILSAFE_COUNT
        &&& total <= usize::MAX
        &&& if version_at_least(before.gm_version, version_req(2024, 2)) {
            compressed_tiles(body, total) is Some
        } else {
            body.can_read(4 * total)
        }
    }

    open spec fn read_end<'a>(before: DataReader<'a>) -> int {
        let p = before.cur_pos as int;
        let d = before.data@;
        let total = spec_u32_at(d, p + 4) * spec_u32_at(d, p + 8);
        if version_at_least(before.gm_version, version_req(2024, 2)) {
            compressed_tiles(before.moved(p + 12), total)->Some_0.1
        } else {
            p + 12 + 4 * total
        }
    }

    /// The width and height fit in 32 bits, and the run-length coding can count the tiles.
    open spec fn writable(&self, before: DataBuilder) -> bool {
        &&& self.width <= u32::MAX && self.height <= u32::MAX
        &&& version_at_least(before.gm_version, version_req(2024, 2)) ==> self.tile_data@.len() + 3 < usize::MAX
    }

    /// The tile set, the width and height, then the tiles.
    open spec fn written(&self, before: DataBuilder, after: DataBuilder) -> bool {
        after.bytes@ == before.bytes@ + u32_le_bytes(self.background.index) + u32_le_bytes(self.width as u32)
            + u32_le_bytes(self.height as u32)
            + tiles_body(self.tile_data@, before.gm_version, before.bytes@.len() + 12int)
    }

    open spec fn deserialized<'a>(before: DataReader<'a>, after: DataReader<'a>, value: GMRoomLayerDataTiles) -> bool {
        let p = before.cur_pos as int;
        let d = before.data@;
        let total = value.width * value.height;
        let body = before.moved(p + 12);
        &&& before.can_read(12)
        &&& spec_u32_at(d, p) < crate::reader::RESOURCE_FAILSAFE_COUNT
        &&& value.background == gm_ref::<GMBackground>(spec_u32_at(d, p))
        &&& value.width == spec_u32_at(d, p + 4)
        &&& value.height == spec_u32_at(d, p + 8)
        &&& after == before.moved(after.cur_pos as int)
        &&& if version_at_least(before.gm_version, version_req(2024, 2)) {
            compressed_tiles(body, total) == Some((value.tile_data@, after.cur_pos as int))
        } else {
            &&& body.can_read(4 * total)
            &&& value.tile_data@ == words_at(d, p + 12, total)
            &&& after.cur_pos == p + 12 + 4 * total
        }
    }

    /// Reads the tile set, the width and height, then the tiles: run-length coded from
    /// GameMaker 2024.2 on, else one word each.
    fn deserialize(reader: &mut DataReader) -> (r: Result<GMRoomLayerDataTiles, String>) {
        let background: GMRef<GMBackground> = reader.read_resource_by_id()?;
        let width = reader.read_usize()?;
        let height = reader.read_usize()?;
        let total = match width.checked_mul(height) {
            Some(t) => t,
            None => {
                return Err("Tile layer is too large".to_owned());
            },
        };
        let ghost body = *reader;
        assert(body == old(reader).moved(old(reader).cur_pos + 12));
        if reader.gm_version.is_version_at_least(&GMVersion::new(2024, 2, 0, 0)) {
            let tile_data = Self::read_compressed_tile_data(reader, total)?;
            assert(*reader == old(reader).moved(reader.cur_pos as int));
            return Ok(GMRoomLayerDataTiles { background, tile_data, width, height });
        }
        let mut tile_data: Vec<u32> = Vec::new();
        let mut k: usize = 0;
        while k < total
            invariant
                k <= total,
                reader.wf(),
                body == old(reader).moved(old(reader).cur_pos + 12),
                *reader == body.moved(body.cur_pos + 4 * k),
                total == width * height,
                width == spec_u32_at(old(reader).data@, old(reader).cur_pos + 4),
                height == spec_u32_at(old(reader).data@, old(reader).cur_pos + 8),
                !version_at_least(old(reader).gm_version, version_req(2024, 2)),
                GMRoomLayerDataTiles::readable(*old(reader)) ==> body.can_read(4 * total),
                body.can_read(4 * k),
                tile_data@ == words_at(body.data@, body.cur_pos as int, k as int),
            decreases total - k,
        {
            let tile = reader.read_u32()?;
            tile_data.push(tile);
            k = k + 1;
            assert(tile_data@ =~= words_at(body.data@, body.cur_pos as int, k as int));
        }
        Ok(GMRoomLayerDataTiles { background, tile_data, width, height })
    }

    fn serialize(&self, builder: &mut DataBuilder) -> (r: Result<(), String>) {
        builder.write_u32(self.background.index);
        let ghost b1 = *builder;
        proof {
            lemma_appended_extends(*old(builder), b1, u32_le_bytes(self.background.index));
        }
        let res = builder.write_usize(self.width);
        if res.is_err() {
            return res;
        }
        let ghost b2 = *builder;
        proof {
            lemma_appended_extends(b1, b2, u32_le_bytes(self.width as u32));
            lemma_extends_trans(*old(builder), b1, b2);
        }
        let res = builder.write_usize(self.height);
        if res.is_err() {
            return res;
        }
        let ghost b3 = *builder;
        proof {
            lemma_appended_extends(b2, b3, u32_le_bytes(self.height as u32));
            lemma_extends_trans(*old(builder), b2, b3);
        }
        let ghost hdr = old(builder).bytes@ + u32_le_bytes(self.background.index) + u32_le_bytes(self.width as u32)
            + u32_le_bytes(self.height as u32);
        assert(b3.bytes@ =~= hdr);
        if builder.is_gm_version_at_least(&GMVersion::new(2024, 2, 0, 0)) {
            let res = self.build_compressed_tile_data(builder);
            proof {
                lemma_prefix_extends(b3, *builder);
                lemma_extends_trans(*old(builder), b3, *builder);
                if res is Ok {
                    assert(builder.bytes@ =~= hdr + tiles_body(self.tile_data@, old(builder).gm_version,
                        old(builder).bytes@.len() + 12int));
                }
            }
            return res;
        }
        let mut k: usize = 0;
        while k < self.tile_data.len()
            invariant
                builder.extends(old(builder)),
                k <= self.tile_data@.len(),
                builder.bytes@ == b3.bytes@ + tile_word_bytes(self.tile_data@.take(k as int)),
            decreases self.tile_data@.len() - k,
        {
            let ghost before = *builder;
            builder.write_u32(self.tile_data[k]);
            proof {
                lemma_appended_extends(before, *builder, u32_le_bytes(self.tile_data@[k as int]));
                lemma_extends_trans(*old(builder), before, *builder);
                let next = self.tile_data@.take(k + 1);
                assert(next.drop_last() =~= self.tile_data@.take(k as int));
                assert(builder.bytes@ =~= b3.bytes@ + tile_word_bytes(next));
            }
            k = k + 1;
        }
        assert(self.tile_data@.take(self.tile_data@.len() as int) =~= self.tile_data@);
        assert(builder.bytes@ =~= hdr + tiles_body(self.tile_data@, old(builder).gm_version, old(builder).bytes@.len() + 12int));
        Ok(())
    }
}

} // verus!
