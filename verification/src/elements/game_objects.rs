//! Game objects (chunk `OBJT`).

use vstd::prelude::*;
use crate::elements::strings::{first_named, lemma_first_named_prefix, GMStrings};
use crate::disassembler::string_of;
use crate::refs::{gm_ref, GMRef};
use crate::builder::{bool32_bytes, i32_bytes, lemma_appended_extends, ref_placeholder, lemma_extends_refl, lemma_extends_trans, lemma_extends_via, lemma_prefix_extends, ref_opt_bytes, DataBuilder};
use crate::bytes::{spec_i32_at, spec_u32_at, u32_le_bytes};
use crate::element::{GMChunkElement, GMElement};
use crate::elements::backgrounds::bool32_at;
use crate::elements::codes::GMCode;
use crate::lists::{elements_fit, lemma_pointer_list_len, pointer_list_fits, pointer_list_written, pointer_at, pointer_list_end, pointer_list_read, pointer_list_readable, u32_list_readable};
use crate::reader::DataReader;
use crate::resources::{resource_opt, string_at, string_opt_at};
use crate::version::{version_at_least, version_req, GMVersion};


verus! {


/// A game object.
pub struct GMGameObject {
    pub name: GMRef<String>,
    pub sprite: Option<GMRef<GMSprite>>,
    pub visible: bool,
    /// Present in GameMaker 2022.5 and later.
    pub managed: Option<bool>,
    pub solid: bool,
    pub depth: i32,
    pub persistent: bool,
    pub parent: Option<GMRef<GMGameObject>>,
    pub texture_mask: Option<GMRef<GMSprite>>,
    pub uses_physics: bool,
    pub is_sensor: bool,
    pub collision_shape: GMGameObjectCollisionShape,
    /// The bits of a 32-bit float, as are `restitution`, the dampings, `friction` and the
    /// vertex coordinates.
    pub density: u32,
    pub restitution: u32,
    pub group: u32,
    pub linear_damping: u32,
    pub angular_damping: u32,
    pub friction: u32,
    pub awake: bool,
    pub kinematic: bool,
    pub physics_shape_vertices: Vec<(u32, u32)>,
    pub uses_physics_shape_vertex: bool,
    pub events: Vec<GMGameObjectEvents>,
}

/// A sprite (its data lives in chunk `SPRT`, which is read elsewhere).
pub struct GMSprite {
    pub index: u32,
}

/// The word written for an optional code entry: its index, or -1 for none.
pub open spec fn code_opt_bytes(c: Option<GMRef<GMCode>>) -> Seq<u8> {
    match c {
        Some(r) => u32_le_bytes(r.index),
        None => i32_bytes(-1i32),
    }
}

/// An action of an event.
pub struct GMGameObjectEventAction {
    pub lib_id: u32,
    pub id: u32,
    pub kind: u32,
    pub use_relative: bool,
    pub is_question: bool,
    pub use_apply_to: bool,
    pub exe_type: u32,
    pub action_name: Option<GMRef<String>>,
    pub code: Option<GMRef<GMCode>>,
    pub argument_count: u32,
    pub who: i32,
    pub relative: bool,
    pub is_not: bool,
    pub unknown_always_zero: u32,
}

impl GMElement for GMGameObjectEventAction {
    open spec fn readable<'a>(before: DataReader<'a>) -> bool {
        let p = before.cur_pos as int;
        let d = before.data@;
        &&& before.can_read(56)
        &&& bool32_at(d, p + 12) is Some
        &&& bool32_at(d, p + 16) is Some
        &&& bool32_at(d, p + 20) is Some
        &&& string_opt_at(before, p + 28) is Some
        &&& resource_opt::<GMCode>(spec_i32_at(d, p + 32)) is Some
        &&& bool32_at(d, p + 44) is Some
        &&& bool32_at(d, p + 48) is Some
    }

    open spec fn read_end<'a>(before: DataReader<'a>) -> int {
        before.cur_pos + 56
    }

    open spec fn writable(&self, before: DataBuilder) -> bool {
        before.bytes@.len() + 28 <= u32::MAX
    }

    open spec fn written(&self, before: DataBuilder, after: DataBuilder) -> bool {
        after.bytes@ == before.bytes@ + u32_le_bytes(self.lib_id) + u32_le_bytes(self.id) + u32_le_bytes(self.kind)
            + bool32_bytes(self.use_relative) + bool32_bytes(self.is_question) + bool32_bytes(self.use_apply_to)
            + u32_le_bytes(self.exe_type) + ref_opt_bytes(self.action_name) + code_opt_bytes(self.code)
            + u32_le_bytes(self.argument_count) + i32_bytes(self.who) + bool32_bytes(self.relative)
            + bool32_bytes(self.is_not) + u32_le_bytes(self.unknown_always_zero)
    }

    open spec fn deserialized<'a>(before: DataReader<'a>, after: DataReader<'a>, value: GMGameObjectEventAction) -> bool {
        let p = before.cur_pos as int;
        let d = before.data@;
        &&& before.can_read(56)
        &&& after == before.moved(p + 56)
        &&& value.lib_id == spec_u32_at(d, p)
        &&& value.id == spec_u32_at(d, p + 4)
        &&& value.kind == spec_u32_at(d, p + 8)
        &&& bool32_at(d, p + 12) == Some(value.use_relative)
        &&& bool32_at(d, p + 16) == Some(value.is_question)
        &&& bool32_at(d, p + 20) == Some(value.use_apply_to)
        &&& value.exe_type == spec_u32_at(d, p + 24)
        &&& string_opt_at(before, p + 28) == Some(value.action_name)
        &&& resource_opt::<GMCode>(spec_i32_at(d, p + 32)) == Some(value.code)
        &&& value.argument_count == spec_u32_at(d, p + 36)
        &&& value.who == spec_i32_at(d, p + 40)
        &&& bool32_at(d, p + 44) == Some(value.relative)
        &&& bool32_at(d, p + 48) == Some(value.is_not)
        &&& value.unknown_always_zero == spec_u32_at(d, p + 52)
    }

    #[verifier::rlimit(40)]
    fn deserialize(reader: &mut DataReader) -> (r: Result<GMGameObjectEventAction, String>) {
        let lib_id = reader.read_u32()?;
        let id = reader.read_u32()?;
        let kind = reader.read_u32()?;
        let use_relative = reader.read_bool32()?;
        let is_question = reader.read_bool32()?;
        let use_apply_to = reader.read_bool32()?;
        let exe_type = reader.read_u32()?;
        let action_name = reader.read_gm_string_opt()?;
        let code = reader.read_resource_by_id_opt()?;
        let argument_count = reader.read_u32()?;
        let who = reader.read_i32()?;
        let relative = reader.read_bool32()?;
        let is_not = reader.read_bool32()?;
        let unknown_always_zero = reader.read_u32()?;
        Ok(GMGameObjectEventAction {
            lib_id,
            id,
            kind,
            use_relative,
            is_question,
            use_apply_to,
            exe_type,
            action_name,
            code,
            argument_count,
            who,
            relative,
            is_not,
            unknown_always_zero,
        })
    }

    fn serialize(&self, builder: &mut DataBuilder) -> (r: Result<(), String>) {
        builder.write_u32(self.lib_id);
        builder.write_u32(self.id);
        builder.write_u32(self.kind);
        builder.write_bool32(self.use_relative);
        builder.write_bool32(self.is_question);
        builder.write_bool32(self.use_apply_to);
        builder.write_u32(self.exe_type);
        let ghost b1 = *builder;
        proof {
            lemma_prefix_extends(*old(builder), b1);
        }
        let res = match &self.action_name {
            Some(s) => builder.write_gm_string(s),
            None => {
                builder.write_u32(0);
                proof {
                    lemma_prefix_extends(b1, *builder);
                }
                Ok(())
            },
        };
        proof {
            lemma_extends_trans(*old(builder), b1, *builder);
        }
        res?;
        let ghost b2 = *builder;
        match &self.code {
            Some(c) => builder.write_u32(c.index),
            None => builder.write_i32(-1),
        }
        builder.write_u32(self.argument_count);
        builder.write_i32(self.who);
        builder.write_bool32(self.relative);
        builder.write_bool32(self.is_not);
        builder.write_u32(self.unknown_always_zero);
        proof {
            lemma_prefix_extends(b2, *builder);
            lemma_extends_trans(*old(builder), b2, *builder);
        }
        Ok(())
    }
}

/// An event of a game object: its subtype and actions.
pub struct GMGameObjectEvent {
    pub subtype: u32,
    pub actions: Vec<GMGameObjectEventAction>,
}

impl GMElement for GMGameObjectEvent {
    open spec fn readable<'a>(before: DataReader<'a>) -> bool {
        &&& before.can_read(4)
        &&& pointer_list_readable::<GMGameObjectEventAction>(before.moved(before.cur_pos + 4))
    }

    open spec fn read_end<'a>(before: DataReader<'a>) -> int {
        pointer_list_end::<GMGameObjectEventAction>(before.moved(before.cur_pos + 4))
    }

    /// The subtype, the count, and a pointer and 56 bytes per action fit below 2^32.
    open spec fn writable(&self, before: DataBuilder) -> bool {
        before.bytes@.len() + event_size(*self) <= u32::MAX
    }

    open spec fn written(&self, before: DataBuilder, after: DataBuilder) -> bool {
        exists|b: DataBuilder| {
            &&& b.bytes@ == before.bytes@ + u32_le_bytes(self.subtype)
            &&& #[trigger] pointer_list_written(self.actions@, b, after)
        }
    }

    open spec fn deserialized<'a>(before: DataReader<'a>, after: DataReader<'a>, value: GMGameObjectEvent) -> bool {
        &&& before.can_read(4)
        &&& value.subtype == spec_u32_at(before.data@, before.cur_pos as int)
        &&& pointer_list_read(before.moved(before.cur_pos + 4), value.actions@)
    }

    fn deserialize(reader: &mut DataReader) -> (r: Result<GMGameObjectEvent, String>) {
        let subtype = reader.read_u32()?;
        let actions: Vec<GMGameObjectEventAction> = reader.read_pointer_list()?;
        Ok(GMGameObjectEvent { subtype, actions })
    }

    fn serialize(&self, builder: &mut DataBuilder) -> (r: Result<(), String>) {
        builder.write_u32(self.subtype);
        let ghost b1 = *builder;
        proof {
            lemma_prefix_extends(*old(builder), b1);
            lemma_actions_fit(self.actions@, b1);
        }
        let res = builder.write_pointer_list(&self.actions);
        proof {
            lemma_extends_trans(*old(builder), b1, *builder);
        }
        res
    }
}

/// The most bytes an event takes: its subtype, the action count, and a pointer and 56
/// bytes per action.
pub open spec fn event_size(e: GMGameObjectEvent) -> nat {
    8 + 60 * e.actions@.len()
}

/// The largest size of the events of `events`.
pub open spec fn max_event_size(events: Seq<GMGameObjectEvent>) -> nat
    decreases events.len(),
{
    if events.len() == 0 {
        0
    } else {
        let rest = max_event_size(events.drop_last());
        let last = event_size(events.last());
        if rest < last { last } else { rest }
    }
}

proof fn lemma_max_event_size(events: Seq<GMGameObjectEvent>, k: int)
    requires
        0 <= k < events.len(),
    ensures
        event_size(events[k]) <= max_event_size(events),
    decreases events.len(),
{
    if k < events.len() - 1 {
        lemma_max_event_size(events.drop_last(), k);
        assert(events.drop_last()[k] == events[k]);
    }
}

/// Actions fit in a pointer list at `b1` with 56 bytes each, when the event they belong to
/// fits.
proof fn lemma_actions_fit(actions: Seq<GMGameObjectEventAction>, b1: DataBuilder)
    ensures
        elements_fit(actions, b1, 56),
        b1.bytes@.len() + 4 + 60 * actions.len() <= u32::MAX ==> pointer_list_fits(actions, b1, 56),
{
    assert forall|k: int, b: DataBuilder| 0 <= k < actions.len() && b.bytecode_version == b1.bytecode_version
        && b.gm_version == b1.gm_version && b.bytes@.len() + 56 <= u32::MAX
        implies #[trigger] actions[k].writable(b) by {}
    assert forall|k: int, b: DataBuilder, a: DataBuilder| 0 <= k < actions.len() && #[trigger] actions[k].written(b, a)
        implies a.bytes@.len() <= b.bytes@.len() + 56 by {}
}

/// The events of a game object of one event type.
pub struct GMGameObjectEvents {
    pub events: Vec<GMGameObjectEvent>,
}

impl GMElement for GMGameObjectEvents {
    open spec fn readable<'a>(before: DataReader<'a>) -> bool {
        pointer_list_readable::<GMGameObjectEvent>(before)
    }

    open spec fn read_end<'a>(before: DataReader<'a>) -> int {
        pointer_list_end::<GMGameObjectEvent>(before)
    }

    /// The count, and a pointer and the largest event's size per event fit below 2^32.
    open spec fn writable(&self, before: DataBuilder) -> bool {
        before.bytes@.len() + 4 + 4 * self.events@.len() + self.events@.len() * max_event_size(self.events@) <= u32::MAX
    }

    open spec fn written(&self, before: DataBuilder, after: DataBuilder) -> bool {
        pointer_list_written(self.events@, before, after)
    }

    open spec fn deserialized<'a>(before: DataReader<'a>, after: DataReader<'a>, value: GMGameObjectEvents) -> bool {
        pointer_list_read(before, value.events@)
    }

    fn deserialize(reader: &mut DataReader) -> (r: Result<GMGameObjectEvents, String>) {
        let events: Vec<GMGameObjectEvent> = reader.read_pointer_list()?;
        Ok(GMGameObjectEvents { events })
    }

    fn serialize(&self, builder: &mut DataBuilder) -> (r: Result<(), String>) {
        proof {
            let es = self.events@;
            let m = max_event_size(es);
            assert forall|k: int, b: DataBuilder| 0 <= k < es.len() && b.bytecode_version == builder.bytecode_version
                && b.gm_version == builder.gm_version && b.bytes@.len() + m <= u32::MAX
                implies #[trigger] es[k].writable(b) by {
                lemma_max_event_size(es, k);
            }
            assert forall|k: int, b: DataBuilder, a: DataBuilder| 0 <= k < es.len() && #[trigger] es[k].written(b, a)
                implies a.bytes@.len() <= b.bytes@.len() + m by {
                lemma_max_event_size(es, k);
                let b1 = choose|b1: DataBuilder| {
                    &&& b1.bytes@ == b.bytes@ + u32_le_bytes(es[k].subtype)
                    &&& #[trigger] pointer_list_written(es[k].actions@, b1, a)
                };
                lemma_actions_fit(es[k].actions@, b1);
                lemma_pointer_list_len(es[k].actions@, b1, a, 56);
            }
            assert(elements_fit(es, *builder, m));
            if self.writable(*builder) {
                assert(pointer_list_fits(es, *builder, m));
            }
        }
        builder.write_pointer_list(&self.events)
    }
}

/// The sprite that a signed index names: none for -1; undefined (an error) for another
/// negative index.
pub open spec fn sprite_of(n: i32) -> Option<Option<GMRef<GMSprite>>> {
    if n == -1 {
        Some(None)
    } else if n < 0 {
        None
    } else {
        Some(Some(gm_ref::<GMSprite>(n as u32)))
    }
}

/// The parent that a parent id names, for the object at `index`: none for -100, the object
/// itself for -1; undefined (an error) for another negative id.
pub open spec fn parent_of(n: i32, index: u32) -> Option<Option<GMRef<GMGameObject>>> {
    if n == -100 {
        Some(None)
    } else if n == -1 {
        Some(Some(gm_ref::<GMGameObject>(index)))
    } else if n < 0 {
        None
    } else {
        Some(Some(gm_ref::<GMGameObject>(n as u32)))
    }
}

fn read_sprite_index(reader: &mut DataReader) -> (r: Result<Option<GMRef<GMSprite>>, String>)
    requires
        old(reader).wf(),
    ensures
        final(reader).wf(),
        old(reader).only_moved(*final(reader)),
        r matches Ok(s) ==> old(reader).can_read(4) && *final(reader) == old(reader).moved(old(reader).cur_pos + 4)
            && sprite_of(spec_i32_at(old(reader).data@, old(reader).cur_pos as int)) == Some(s),
        r is Ok <==> old(reader).can_read(4) && sprite_of(spec_i32_at(old(reader).data@, old(reader).cur_pos as int)) is Some,
{
    let sprite_index = reader.read_i32()?;
    if sprite_index == -1 {
        Ok(None)
    } else if sprite_index < 0 {
        Err("Negative sprite index for a game object".to_owned())
    } else {
        Ok(Some(GMRef::new(sprite_index as u32)))
    }
}

/// The shape used for a game object's collisions.
#[derive(Clone, Copy, Debug, PartialEq, Eq, Structural)]
pub enum GMGameObjectCollisionShape {
    Circle,
    Box,
    Custom,
}

/// The collision shape numbered `n` (0 to 2).
pub open spec fn collision_shape_of(n: u32) -> Option<GMGameObjectCollisionShape> {
    if n == 0 { Some(GMGameObjectCollisionShape::Circle) }
    else if n == 1 { Some(GMGameObjectCollisionShape::Box) }
    else if n == 2 { Some(GMGameObjectCollisionShape::Custom) }
    else { None }
}

impl GMGameObjectCollisionShape {
    /// The collision shape numbered `n`; fails for a number that names none.
    pub fn from_u32(n: u32) -> (r: Result<Self, String>)
        ensures
            match r {
                Ok(s) => collision_shape_of(n) == Some(s),
                Err(_) => collision_shape_of(n) is None,
            },
    {
        match n {
            0 => Ok(GMGameObjectCollisionShape::Circle),
            1 => Ok(GMGameObjectCollisionShape::Box),
            2 => Ok(GMGameObjectCollisionShape::Custom),
            _ => Err("Invalid collision shape".to_owned()),
        }
    }

    /// The collision shape's number.
    pub fn to_u32(&self) -> (r: u32)
        ensures
            collision_shape_of(r) == Some(*self),
            r == collision_shape_code(*self),
    {
        match self {
            GMGameObjectCollisionShape::Circle => 0,
            GMGameObjectCollisionShape::Box => 1,
            GMGameObjectCollisionShape::Custom => 2,
        }
    }
}

/// The fixed fields of the game object at index `index` were read from reader `before`: one
/// word each, with `managed` only in GameMaker 2022.5 and later; `count` is the number of
/// physics shape vertices that follow.
pub open spec fn game_object_head_read<'a>(before: DataReader<'a>, index: u32, value: GMGameObject, count: u32) -> bool {
    let p = before.cur_pos as int;
    let d = before.data@;
    let m: int = if version_at_least(before.gm_version, version_req(2022, 5)) { 4 } else { 0 };
    let raw_count = spec_i32_at(d, p + 64 + m);
    &&& before.can_read(80 + m)
    &&& string_at(before, p) == Some(value.name)
    &&& sprite_of(spec_i32_at(d, p + 4)) == Some(value.sprite)
    &&& bool32_at(d, p + 8) == Some(value.visible)
    &&& (if m == 4 { value.managed matches Some(b) && bool32_at(d, p + 12) == Some(b) } else { value.managed is None })
    &&& bool32_at(d, p + 12 + m) == Some(value.solid)
    &&& value.depth == spec_i32_at(d, p + 16 + m)
    &&& bool32_at(d, p + 20 + m) == Some(value.persistent)
    &&& parent_of(spec_i32_at(d, p + 24 + m), index) == Some(value.parent)
    &&& sprite_of(spec_i32_at(d, p + 28 + m)) == Some(value.texture_mask)
    &&& bool32_at(d, p + 32 + m) == Some(value.uses_physics)
    &&& bool32_at(d, p + 36 + m) == Some(value.is_sensor)
    &&& collision_shape_of(spec_u32_at(d, p + 40 + m)) == Some(value.collision_shape)
    &&& value.density == spec_u32_at(d, p + 44 + m)
    &&& value.restitution == spec_u32_at(d, p + 48 + m)
    &&& value.group == spec_u32_at(d, p + 52 + m)
    &&& value.linear_damping == spec_u32_at(d, p + 56 + m)
    &&& value.angular_damping == spec_u32_at(d, p + 60 + m)
    &&& value.uses_physics_shape_vertex == (raw_count != -1)
    &&& count == (if raw_count < 0 { 0 } else { raw_count as int })
    &&& value.friction == spec_u32_at(d, p + 68 + m)
    &&& bool32_at(d, p + 72 + m) == Some(value.awake)
    &&& bool32_at(d, p + 76 + m) == Some(value.kinematic)
}

/// The size of a game object's fixed fields.
pub open spec fn game_object_head_size<'a>(r: DataReader<'a>) -> int {
    if version_at_least(r.gm_version, version_req(2022, 5)) { 84 } else { 80 }
}

/// The game object at index `index` was read from reader `before`: its fixed fields, then
/// the physics shape's vertices, then the pointer list of its events.
pub open spec fn game_object_read<'a>(before: DataReader<'a>, index: u32, value: GMGameObject) -> bool {
    let v = before.cur_pos + game_object_head_size(before);
    let n = value.physics_shape_vertices@.len() as int;
    &&& game_object_head_read(before, index, value, n as u32)
    &&& n <= u32::MAX
    &&& (n == 0 || before.moved(v).can_read(8 * n))
    &&& forall|k: int| 0 <= k < n ==> #[trigger] value.physics_shape_vertices@[k]
        == (spec_u32_at(before.data@, v + 8 * k), spec_u32_at(before.data@, v + 4 + 8 * k))
    &&& pointer_list_read(before.moved(v + 8 * n), value.events@)
}

/// The fields of a game object up to its parent, read from `before`.
pub open spec fn game_object_front_read<'a>(before: DataReader<'a>, index: u32,
    front: (GMRef<String>, Option<GMRef<GMSprite>>, bool, Option<bool>, bool, i32, bool, Option<GMRef<GMGameObject>>)) -> bool {
    let p = before.cur_pos as int;
    let d = before.data@;
    let m: int = if version_at_least(before.gm_version, version_req(2022, 5)) { 4 } else { 0 };
    &&& before.can_read(28 + m)
    &&& string_at(before, p) == Some(front.0)
    &&& sprite_of(spec_i32_at(d, p + 4)) == Some(front.1)
    &&& bool32_at(d, p + 8) == Some(front.2)
    &&& (if m == 4 { front.3 matches Some(b) && bool32_at(d, p + 12) == Some(b) } else { front.3 is None })
    &&& bool32_at(d, p + 12 + m) == Some(front.4)
    &&& front.5 == spec_i32_at(d, p + 16 + m)
    &&& bool32_at(d, p + 20 + m) == Some(front.6)
    &&& parent_of(spec_i32_at(d, p + 24 + m), index) == Some(front.7)
}

/// The fields of a game object up to its parent can be read from `before`: the words are
/// there, the name is a string, the flags are 0 or 1, and the sprite and parent ids name one.
pub open spec fn game_object_front_readable<'a>(before: DataReader<'a>, index: u32) -> bool {
    let p = before.cur_pos as int;
    let d = before.data@;
    let m: int = if version_at_least(before.gm_version, version_req(2022, 5)) { 4 } else { 0 };
    &&& before.can_read(28 + m)
    &&& string_at(before, p) is Some
    &&& sprite_of(spec_i32_at(d, p + 4)) is Some
    &&& bool32_at(d, p + 8) is Some
    &&& (m == 4 ==> bool32_at(d, p + 12) is Some)
    &&& bool32_at(d, p + 12 + m) is Some
    &&& bool32_at(d, p + 20 + m) is Some
    &&& parent_of(spec_i32_at(d, p + 24 + m), index) is Some
}

/// The fixed fields of a game object can be read from `before`.
pub open spec fn game_object_head_readable<'a>(before: DataReader<'a>, index: u32) -> bool {
    let p = before.cur_pos as int;
    let d = before.data@;
    let m: int = if version_at_least(before.gm_version, version_req(2022, 5)) { 4 } else { 0 };
    &&& game_object_front_readable(before, index)
    &&& before.can_read(80 + m)
    &&& sprite_of(spec_i32_at(d, p + 28 + m)) is Some
    &&& bool32_at(d, p + 32 + m) is Some
    &&& bool32_at(d, p + 36 + m) is Some
    &&& collision_shape_of(spec_u32_at(d, p + 40 + m)) is Some
    &&& bool32_at(d, p + 72 + m) is Some
    &&& bool32_at(d, p + 76 + m) is Some
}

/// The number of physics shape vertices of the game object at `before`: its signed count,
/// or none when that is negative.
pub open spec fn game_object_vertex_count<'a>(before: DataReader<'a>) -> int {
    let raw = spec_i32_at(before.data@, before.cur_pos + game_object_head_size(before) - 16);
    if raw < 0 { 0 } else { raw as int }
}

/// Where the vertices of the game object at `before` end and its events begin.
pub open spec fn game_object_events_start<'a>(before: DataReader<'a>) -> int {
    before.cur_pos + game_object_head_size(before) + 8 * game_object_vertex_count(before)
}

/// The game object at `before` can be read: its fixed fields, its vertices and its events.
pub open spec fn game_object_readable<'a>(before: DataReader<'a>, index: u32) -> bool {
    let n = game_object_vertex_count(before);
    &&& game_object_head_readable(before, index)
    &&& (n == 0 || before.moved(before.cur_pos + game_object_head_size(before)).can_read(8 * n))
    &&& pointer_list_readable::<GMGameObjectEvents>(before.moved(game_object_events_start(before)))
}

/// Where the reader stands after reading the game object at `before`.
pub open spec fn game_object_end<'a>(before: DataReader<'a>) -> int {
    pointer_list_end::<GMGameObjectEvents>(before.moved(game_object_events_start(before)))
}

/// Reads the fields of a game object up to its parent.
#[verifier::rlimit(60)]
#[verifier::spinoff_prover]
fn read_game_object_front(reader: &mut DataReader, index: u32)
    -> (r: Result<(GMRef<String>, Option<GMRef<GMSprite>>, bool, Option<bool>, bool, i32, bool, Option<GMRef<GMGameObject>>), String>)
    requires
        old(reader).wf(),
    ensures
        final(reader).wf(),
        old(reader).only_moved(*final(reader)),
        r matches Ok(front) ==> {
            &&& game_object_front_read(*old(reader), index, front)
            &&& *final(reader) == old(reader).moved(old(reader).cur_pos + 28
                + if version_at_least(old(reader).gm_version, version_req(2022, 5)) { 4int } else { 0int })
        },
        game_object_front_readable(*old(reader), index) ==> r is Ok,
{
    let name = reader.read_gm_string()?;
    let sprite = read_sprite_index(reader)?;
    let visible = reader.read_bool32()?;
    let mut managed: Option<bool> = None;
    if reader.gm_version.is_version_at_least(&GMVersion::new(2022, 5, 0, 0)) {
        managed = Some(reader.read_bool32()?);
    }
    let solid = reader.read_bool32()?;
    let depth = reader.read_i32()?;
    let persistent = reader.read_bool32()?;
    let parent_id = reader.read_i32()?;
    let parent: Option<GMRef<GMGameObject>> = if parent_id == -100 {
        None
    } else if parent_id == -1 {
        Some(GMRef::new(index))
    } else if parent_id < 0 {
        return Err("Invalid game object parent id".to_owned());
    } else {
        Some(GMRef::new(parent_id as u32))
    };
    Ok((name, sprite, visible, managed, solid, depth, persistent, parent))
}

/// Reads the fixed fields of the game object at the reader's position, which has index
/// `index`; gives it without vertices or events, with the number of vertices.
#[verifier::rlimit(100)]
#[verifier::spinoff_prover]
fn read_game_object_head(reader: &mut DataReader, index: u32) -> (r: Result<(GMGameObject, u32), String>)
    requires
        old(reader).wf(),
    ensures
        final(reader).wf(),
        old(reader).only_moved(*final(reader)),
        r matches Ok((v, count)) ==> {
            &&& game_object_head_read(*old(reader), index, v, count)
            &&& v.physics_shape_vertices@.len() == 0
            &&& v.events@.len() == 0
            &&& *final(reader) == old(reader).moved(old(reader).cur_pos + game_object_head_size(*old(reader)))
        },
        game_object_head_readable(*old(reader), index) ==> r is Ok,
{
    let (name, sprite, visible, managed, solid, depth, persistent, parent) = read_game_object_front(reader, index)?;
    let texture_mask = read_sprite_index(reader)?;
    let uses_physics = reader.read_bool32()?;
    let is_sensor = reader.read_bool32()?;
    let collision_shape = GMGameObjectCollisionShape::from_u32(reader.read_u32()?)?;
    let density = reader.read_u32()?;
    let restitution = reader.read_u32()?;
    let group = reader.read_u32()?;
    let linear_damping = reader.read_u32()?;
    let angular_damping = reader.read_u32()?;
    let physics_shape_vertex_count = reader.read_i32()?;
    let uses_physics_shape_vertex: bool = physics_shape_vertex_count != -1;
    let count: u32 = if physics_shape_vertex_count < 0 { 0 } else { physics_shape_vertex_count as u32 };
    let friction = reader.read_u32()?;
    let awake = reader.read_bool32()?;
    let kinematic = reader.read_bool32()?;
    Ok((GMGameObject {
        name,
        sprite,
        visible,
        managed,
        solid,
        depth,
        persistent,
        parent,
        texture_mask,
        uses_physics,
        is_sensor,
        collision_shape,
        density,
        restitution,
        group,
        linear_damping,
        angular_damping,
        friction,
        awake,
        kinematic,
        physics_shape_vertices: Vec::new(),
        uses_physics_shape_vertex,
        events: Vec::new(),
    }, count))
}

/// Reads `count` pairs of 32-bit words.
fn read_vertices(reader: &mut DataReader, count: u32) -> (r: Result<Vec<(u32, u32)>, String>)
    requires
        old(reader).wf(),
    ensures
        final(reader).wf(),
        old(reader).only_moved(*final(reader)),
        r matches Ok(v) ==> {
            &&& v@.len() == count
            &&& (count == 0 || old(reader).can_read(8 * count as int))
            &&& *final(reader) == old(reader).moved(old(reader).cur_pos + 8 * count)
            &&& forall|k: int| 0 <= k < count ==> #[trigger] v@[k]
                == (spec_u32_at(old(reader).data@, old(reader).cur_pos + 8 * k), spec_u32_at(old(reader).data@, old(reader).cur_pos + 4 + 8 * k))
        },
        count == 0 || old(reader).can_read(8 * count as int) ==> r is Ok,
{
    let mut vertices: Vec<(u32, u32)> = Vec::new();
    let mut k: u32 = 0;
    let ghost fits = count == 0 || old(reader).can_read(8 * count as int);
    while k < count
        invariant
            k <= count,
            fits == (count == 0 || old(reader).can_read(8 * count as int)),
            reader.wf(),
            k == 0 || old(reader).can_read(8 * k as int),
            *reader == old(reader).moved(old(reader).cur_pos + 8 * k),
            vertices@.len() == k,
            forall|j: int| 0 <= j < k ==> #[trigger] vertices@[j]
                == (spec_u32_at(old(reader).data@, old(reader).cur_pos + 8 * j), spec_u32_at(old(reader).data@, old(reader).cur_pos + 4 + 8 * j)),
        decreases count - k,
    {
        let x = reader.read_u32()?;
        let y = reader.read_u32()?;
        vertices.push((x, y));
        k = k + 1;
    }
    Ok(vertices)
}

/// Reads the game object at the reader's position, which has index `index`.
fn read_game_object(reader: &mut DataReader, index: u32) -> (r: Result<GMGameObject, String>)
    requires
        old(reader).wf(),
    ensures
        final(reader).wf(),
        old(reader).only_moved(*final(reader)),
        r matches Ok(v) ==> game_object_read(*old(reader), index, v),
        game_object_readable(*old(reader), index) ==> r is Ok && final(reader).cur_pos == game_object_end(*old(reader)),
{
    let (head, count) = read_game_object_head(reader, index)?;
    let ghost at = *reader;
    let physics_shape_vertices = read_vertices(reader, count)?;
    let events: Vec<GMGameObjectEvents> = reader.read_pointer_list()?;
    Ok(GMGameObject { physics_shape_vertices, events, ..head })
}

/// All game objects.
pub struct GMGameObjects {
    pub game_objects: Vec<GMGameObject>,
    pub exists: bool,
}

/// `value` is what the game object chunk at reader `before` holds: a pointer list whose
/// entry `k` points at game object `k`.
pub open spec fn game_objects_read<'a>(before: DataReader<'a>, value: GMGameObjects) -> bool {
    &&& value.exists
    &&& u32_list_readable(before)
    &&& value.game_objects@.len() == before.word()
    &&& forall|k: int| 0 <= k < value.game_objects@.len() ==> game_object_read(
        before.moved(pointer_at(before, before.cur_pos as int, k) as int),
        k as u32,
        #[trigger] value.game_objects@[k],
    )
}

/// The number a collision shape is stored as.
pub open spec fn collision_shape_code(s: GMGameObjectCollisionShape) -> u32 {
    match s {
        GMGameObjectCollisionShape::Circle => 0,
        GMGameObjectCollisionShape::Box => 1,
        GMGameObjectCollisionShape::Custom => 2,
    }
}

/// The word an optional sprite is stored as: its index, or -1 for none.
pub open spec fn sprite_bytes(s: Option<GMRef<GMSprite>>) -> Seq<u8> {
    match s {
        Some(r) => u32_le_bytes(r.index),
        None => i32_bytes(-1i32),
    }
}

/// The word the parent of the object at `index` is stored as: -100 for none, -1 for the
/// object itself, else its index.
pub open spec fn parent_bytes(p: Option<GMRef<GMGameObject>>, index: int) -> Seq<u8> {
    match p {
        None => i32_bytes(-100i32),
        Some(r) => if r.index == index { i32_bytes(-1i32) } else { u32_le_bytes(r.index) },
    }
}

/// The words of the physics shape's vertices.
pub open spec fn vertices_bytes(vs: Seq<(u32, u32)>) -> Seq<u8>
    decreases vs.len(),
{
    if vs.len() == 0 {
        Seq::empty()
    } else {
        vertices_bytes(vs.drop_last()) + u32_le_bytes(vs.last().0) + u32_le_bytes(vs.last().1)
    }
}

/// The name placeholder and the fields up to the parent of the game object at `index`.
pub open spec fn object_front_bytes(obj: GMGameObject, index: int, v: GMVersion) -> Seq<u8> {
    ref_placeholder() + sprite_bytes(obj.sprite) + bool32_bytes(obj.visible)
        + (if version_at_least(v, version_req(2022, 5)) { bool32_bytes(obj.managed->Some_0) } else { Seq::empty() })
        + bool32_bytes(obj.solid) + i32_bytes(obj.depth) + bool32_bytes(obj.persistent) + parent_bytes(obj.parent, index)
}

/// The texture mask and the physics fields of a game object.
pub open spec fn object_physics_bytes(obj: GMGameObject) -> Seq<u8> {
    sprite_bytes(obj.texture_mask) + bool32_bytes(obj.uses_physics) + bool32_bytes(obj.is_sensor)
        + u32_le_bytes(collision_shape_code(obj.collision_shape)) + u32_le_bytes(obj.density)
        + u32_le_bytes(obj.restitution) + u32_le_bytes(obj.group) + u32_le_bytes(obj.linear_damping)
        + u32_le_bytes(obj.angular_damping)
}

/// The vertex count, friction and the two last flags of a game object.
pub open spec fn object_tail_bytes(obj: GMGameObject) -> Seq<u8> {
    u32_le_bytes(obj.physics_shape_vertices@.len() as u32) + u32_le_bytes(obj.friction) + bool32_bytes(obj.awake)
        + bool32_bytes(obj.kinematic)
}

/// The fields of the game object at `index` before its events, for GameMaker version `v`,
/// with a placeholder for the name.
pub open spec fn game_object_head_bytes(obj: GMGameObject, index: int, v: GMVersion) -> Seq<u8> {
    object_front_bytes(obj, index, v) + object_physics_bytes(obj) + object_tail_bytes(obj)
        + vertices_bytes(obj.physics_shape_vertices@)
}

/// `after` is `before` with the game object at `index` written: its fields, then the pointer
/// list of its events.
pub open spec fn game_object_written(obj: GMGameObject, index: int, before: DataBuilder, after: DataBuilder) -> bool {
    exists|b: DataBuilder| {
        &&& b.bytes@ == before.bytes@ + game_object_head_bytes(obj, index, before.gm_version)
        &&& b.gm_version == before.gm_version && b.bytecode_version == before.bytecode_version
        &&& #[trigger] pointer_list_written(obj.events@, b, after)
    }
}

/// The most bytes a list of events of one type takes: the count, and a pointer and the
/// largest event's size per event.
pub open spec fn events_size(e: GMGameObjectEvents) -> nat {
    4 + 4 * e.events@.len() + e.events@.len() * max_event_size(e.events@)
}

/// The largest size of the event lists of `lists`.
pub open spec fn max_events_size(lists: Seq<GMGameObjectEvents>) -> nat
    decreases lists.len(),
{
    if lists.len() == 0 {
        0
    } else {
        let rest = max_events_size(lists.drop_last());
        let last = events_size(lists.last());
        if rest < last { last } else { rest }
    }
}

proof fn lemma_max_events_size(lists: Seq<GMGameObjectEvents>, k: int)
    requires
        0 <= k < lists.len(),
    ensures
        events_size(lists[k]) <= max_events_size(lists),
    decreases lists.len(),
{
    if k < lists.len() - 1 {
        lemma_max_events_size(lists.drop_last(), k);
        assert(lists.drop_last()[k] == lists[k]);
    }
}

/// The most bytes the game object takes: 80 bytes of fields (84 from GameMaker 2022.5 on),
/// eight per vertex, and its events' pointer list.
pub open spec fn game_object_size(obj: GMGameObject, v: GMVersion) -> nat {
    (if version_at_least(v, version_req(2022, 5)) { 84nat } else { 80nat }) + 8 * obj.physics_shape_vertices@.len()
        + 4 + 4 * obj.events@.len() + obj.events@.len() * max_events_size(obj.events@)
}

/// The events' lists fit with `max_events_size` bytes each, and each adds at most its size.
proof fn lemma_events_fit(lists: Seq<GMGameObjectEvents>, b0: DataBuilder)
    ensures
        elements_fit(lists, b0, max_events_size(lists)),
{
    let m = max_events_size(lists);
    assert forall|k: int, b: DataBuilder| 0 <= k < lists.len() && b.bytecode_version == b0.bytecode_version
        && b.gm_version == b0.gm_version && b.bytes@.len() + m <= u32::MAX
        implies #[trigger] lists[k].writable(b) by {
        lemma_max_events_size(lists, k);
    }
    assert forall|k: int, b: DataBuilder, a: DataBuilder| 0 <= k < lists.len() && #[trigger] lists[k].written(b, a)
        implies a.bytes@.len() <= b.bytes@.len() + m by {
        lemma_max_events_size(lists, k);
        let es = lists[k].events@;
        let me = max_event_size(es);
        assert forall|j: int, b2: DataBuilder, a2: DataBuilder| 0 <= j < es.len() && #[trigger] es[j].written(b2, a2)
            implies a2.bytes@.len() <= b2.bytes@.len() + me by {
            lemma_max_event_size(es, j);
            let b1 = choose|b1: DataBuilder| {
                &&& b1.bytes@ == b2.bytes@ + u32_le_bytes(es[j].subtype)
                &&& #[trigger] pointer_list_written(es[j].actions@, b1, a2)
            };
            lemma_actions_fit(es[j].actions@, b1);
            lemma_pointer_list_len(es[j].actions@, b1, a2, 56);
        }
        lemma_pointer_list_len(es, b, a, me);
    }
}

/// Writes an optional sprite: its index, or -1 for none.
fn put_sprite(builder: &mut DataBuilder, sprite: &Option<GMRef<GMSprite>>)
    ensures
        final(builder).appended(old(builder), sprite_bytes(*sprite)),
{
    match sprite {
        Some(sp) => builder.write_u32(sp.index),
        None => builder.write_i32(-1),
    }
}

/// Writes the parent of the object at `index`: -100 for none, -1 for the object itself,
/// else its index.
fn put_parent(builder: &mut DataBuilder, parent: Option<GMRef<GMGameObject>>, index: usize)
    ensures
        final(builder).appended(old(builder), parent_bytes(parent, index as int)),
{
    match parent {
        None => builder.write_i32(-100),
        Some(p) => if p.index as usize == index {
            builder.write_i32(-1)
        } else {
            builder.write_u32(p.index)
        },
    }
}

/// Writes the name and the fields up to the parent of the game object at `index`.
#[verifier::rlimit(80)]
#[verifier::spinoff_prover]
fn write_object_front(builder: &mut DataBuilder, obj: &GMGameObject, index: usize) -> (r: Result<(), String>)
    ensures
        final(builder).extends(old(builder)),
        version_at_least(old(builder).gm_version, version_req(2022, 5)) && obj.managed is None ==> r is Err,
        r is Ok ==> final(builder).bytes@ == old(builder).bytes@ + object_front_bytes(*obj, index as int, old(builder).gm_version),
        old(builder).bytes@.len() <= u32::MAX && (version_at_least(old(builder).gm_version, version_req(2022, 5))
            ==> obj.managed is Some) ==> r is Ok,
{
    builder.write_gm_string(&obj.name)?;
    let ghost b0 = *builder;
    proof {
        lemma_prefix_extends(*old(builder), b0);
    }
    put_sprite(builder, &obj.sprite);
    builder.write_bool32(obj.visible);
    let ghost b1 = *builder;
    proof {
        assert(b1.bytes@ =~= b0.bytes@ + sprite_bytes(obj.sprite) + bool32_bytes(obj.visible));
    }
    if builder.is_gm_version_at_least(&GMVersion::new(2022, 5, 0, 0)) {
        match obj.managed {
            Some(mg) => builder.write_bool32(mg),
            None => {
                proof {
                    lemma_prefix_extends(b0, *builder);
                    lemma_extends_trans(*old(builder), b0, *builder);
                }
                return Err("Managed not set for a game object in 2022.5+".to_owned());
            },
        }
    }
    let ghost b2 = *builder;
    proof {
        assert(b2.bytes@ =~= b1.bytes@ + (if version_at_least(old(builder).gm_version, version_req(2022, 5)) {
            bool32_bytes(obj.managed->Some_0)
        } else {
            Seq::empty()
        }));
    }
    builder.write_bool32(obj.solid);
    builder.write_i32(obj.depth);
    builder.write_bool32(obj.persistent);
    put_parent(builder, obj.parent, index);
    proof {
        lemma_prefix_extends(b0, *builder);
        lemma_extends_trans(*old(builder), b0, *builder);
        assert(builder.bytes@ =~= old(builder).bytes@ + object_front_bytes(*obj, index as int, old(builder).gm_version));
    }
    Ok(())
}

/// Writes the game object `obj`, which has index `index`; fails when the version needs the
/// `managed` flag and the object has none.
#[verifier::rlimit(60)]
fn write_game_object(builder: &mut DataBuilder, obj: &GMGameObject, index: usize) -> (r: Result<(), String>)
    ensures
        final(builder).extends(old(builder)),
        version_at_least(old(builder).gm_version, version_req(2022, 5)) && obj.managed is None ==> r is Err,
        r is Ok ==> game_object_written(*obj, index as int, *old(builder), *final(builder)),
        old(builder).bytes@.len() + game_object_size(*obj, old(builder).gm_version) <= u32::MAX
            && (version_at_least(old(builder).gm_version, version_req(2022, 5)) ==> obj.managed is Some) ==> r is Ok,
{
    let ghost v = old(builder).gm_version;
    write_object_front(builder, obj, index)?;
    let ghost b2 = *builder;
    put_sprite(builder, &obj.texture_mask);
    builder.write_bool32(obj.uses_physics);
    builder.write_bool32(obj.is_sensor);
    builder.write_u32(obj.collision_shape.to_u32());
    builder.write_u32(obj.density);
    builder.write_u32(obj.restitution);
    builder.write_u32(obj.group);
    builder.write_u32(obj.linear_damping);
    builder.write_u32(obj.angular_damping);
    proof {
        assert(builder.bytes@ =~= b2.bytes@ + object_physics_bytes(*obj));
    }
    let ghost b3 = *builder;
    if let Err(e) = builder.write_usize(obj.physics_shape_vertices.len()) {
        proof {
            lemma_prefix_extends(b2, b3);
            lemma_extends_trans(*old(builder), b2, b3);
        }
        return Err(e);
    }
    builder.write_u32(obj.friction);
    builder.write_bool32(obj.awake);
    builder.write_bool32(obj.kinematic);
    let ghost b4 = *builder;
    proof {
        assert(b4.bytes@ =~= b3.bytes@ + object_tail_bytes(*obj));
    }
    let mut k: usize = 0;
    while k < obj.physics_shape_vertices.len()
        invariant
            k <= obj.physics_shape_vertices@.len(),
            builder.bytes@ == b4.bytes@ + vertices_bytes(obj.physics_shape_vertices@.take(k as int)),
            builder.same_meta(&b4),
        decreases obj.physics_shape_vertices@.len() - k,
    {
        let (x, y) = obj.physics_shape_vertices[k];
        builder.write_u32(x);
        builder.write_u32(y);
        proof {
            let next = obj.physics_shape_vertices@.take(k + 1);
            assert(next.drop_last() =~= obj.physics_shape_vertices@.take(k as int));
            assert(builder.bytes@ =~= b4.bytes@ + vertices_bytes(next));
        }
        k = k + 1;
    }
    let ghost b6 = *builder;
    proof {
        assert(obj.physics_shape_vertices@.take(obj.physics_shape_vertices@.len() as int) =~= obj.physics_shape_vertices@);
        assert(b6.bytes@ =~= old(builder).bytes@ + game_object_head_bytes(*obj, index as int, v));
        lemma_prefix_extends(*old(builder), b6);
        lemma_vertices_len(obj.physics_shape_vertices@);
        lemma_head_len(*obj, index as int, v);
        lemma_events_fit(obj.events@, b6);
        if old(builder).bytes@.len() + game_object_size(*obj, v) <= u32::MAX {
            assert(pointer_list_fits(obj.events@, b6, max_events_size(obj.events@)));
        }
    }
    let res = builder.write_pointer_list(&obj.events);
    proof {
        lemma_extends_trans(*old(builder), b6, *builder);
    }
    res
}

/// The written game object list `elems` from `before` to `after`, with `bs[k]` the builder
/// right before element `k` was written and `es[k]` right after: the count, one pointer per
/// element (where it starts), then the elements one after another, each as it was written with its index.
pub open spec fn objects_chain(elems: Seq<GMGameObject>, before: DataBuilder, after: DataBuilder,
    bs: Seq<DataBuilder>, es: Seq<DataBuilder>) -> bool {
    let n = elems.len() as int;
    let start = before.bytes@.len() as int;
    let slots = start + 4;
    &&& bs.len() == n && es.len() == n
    &&& after.bytes@.len() >= slots + 4 * n
    &&& after.bytes@.subrange(0, start) == before.bytes@
    &&& after.bytes@.subrange(start, slots) == u32_le_bytes(n as u32)
    &&& n == 0 ==> after.bytes@.len() == slots
    &&& n > 0 ==> bs[0].bytes@.len() == slots + 4 * n && after.bytes@.len() == es[n - 1].bytes@.len()
    &&& forall|k: int| 0 <= k < n ==> {
        &&& #[trigger] game_object_written(elems[k], k, bs[k], es[k])
        &&& bs[k].bytes@.len() <= es[k].bytes@.len()
        &&& after.bytes@.subrange(slots + 4 * k, slots + 4 * k + 4) == u32_le_bytes(bs[k].bytes@.len() as u32)
        &&& after.bytes@.subrange(bs[k].bytes@.len() as int, es[k].bytes@.len() as int)
            == es[k].bytes@.subrange(bs[k].bytes@.len() as int, es[k].bytes@.len() as int)
        &&& (k + 1 < n ==> bs[k + 1].bytes@.len() == es[k].bytes@.len())
    }
}

/// The first `k` elements of a pointer list whose pointers start at `slots` were written as
/// `bs`/`es` record, and `bytes` still holds their pointers and their bytes.
#[verifier::opaque]
pub open spec fn objects_chain_so_far(elems: Seq<GMGameObject>, slots: int, count: int, bytes: Seq<u8>,
    bs: Seq<DataBuilder>, es: Seq<DataBuilder>, k: int) -> bool {
    forall|j: int| 0 <= j < k ==> {
        &&& #[trigger] game_object_written(elems[j], j, bs[j], es[j])
        &&& slots + 4 * count <= bs[j].bytes@.len() <= es[j].bytes@.len() <= bytes.len()
        &&& bytes.subrange(slots + 4 * j, slots + 4 * j + 4) == u32_le_bytes(bs[j].bytes@.len() as u32)
        &&& bytes.subrange(bs[j].bytes@.len() as int, es[j].bytes@.len() as int)
            == es[j].bytes@.subrange(bs[j].bytes@.len() as int, es[j].bytes@.len() as int)
        &&& (j + 1 < k ==> bs[j + 1].bytes@.len() == es[j].bytes@.len())
    }
}


/// Writes the game objects as a pointer list: the count, one pointer per object, then each
/// object with its index, patching its pointer with the position at which it starts.
#[verifier::rlimit(100)]
#[verifier::spinoff_prover]
fn write_object_list(builder: &mut DataBuilder, elements: &Vec<GMGameObject>) -> (r: Result<(), String>)
    ensures
        final(builder).extends(old(builder)),
        r is Ok ==> objects_written(elements@, *old(builder), *final(builder)),
        r is Ok ==> {
            &&& old(builder).bytes@.len() + 4 + 4 * elements@.len() <= final(builder).bytes@.len()
            &&& final(builder).bytes@.subrange(old(builder).bytes@.len() as int, old(builder).bytes@.len() + 4int)
                == u32_le_bytes(elements@.len() as u32)
        },
        elements@.len() > u32::MAX ==> r is Err,
        forall|m: nat| #[trigger] objects_fit(elements@, *old(builder), m) ==> r is Ok,
{
    proof {
        lemma_extends_refl(*builder);
    }
    let ghost m: nat = choose|m: nat| objects_fit(elements@, *old(builder), m);
    let ghost fits = objects_fit(elements@, *old(builder), m);
    let count = elements.len();
    if let Err(e) = builder.write_usize(count) {
        return Err(e);
    }
    proof {
        lemma_appended_extends(*old(builder), *builder, u32_le_bytes(count as u32));
    }
    let ghost start = old(builder).bytes@.len() as int;
    let slots = builder.len();
    let mut i: usize = 0;
    while i < count
        invariant
            i <= count,
            count == elements@.len(),
            count <= u32::MAX,
            slots == start + 4,
            start == old(builder).bytes@.len(),
            builder.extends(old(builder)),
            builder.bytes@.len() == slots + 4 * i,
            builder.bytes@.subrange(start, slots as int) == u32_le_bytes(count as u32),
        decreases count - i,
    {
        let ghost before = *builder;
        builder.write_u32(0);
        proof {
            lemma_appended_extends(before, *builder, u32_le_bytes(0));
            lemma_extends_trans(*old(builder), before, *builder);
            assert(builder.bytes@.subrange(start, slots as int) =~= before.bytes@.subrange(start, slots as int));
        }
        i = i + 1;
    }
    let ghost reserved = *builder;
    let ghost mut bs: Seq<DataBuilder> = Seq::empty();
    let ghost mut es: Seq<DataBuilder> = Seq::empty();
    let mut k: usize = 0;
    proof {
        reveal(objects_chain_so_far);
    }
    while k < count
        invariant
            k <= count,
            bs.len() == k && es.len() == k,
            k == 0 ==> builder.bytes@ == reserved.bytes@,
            k > 0 ==> builder.bytes@.len() == es[k - 1].bytes@.len(),
            k > 0 ==> bs[0].bytes@.len() == slots + 4 * count,
            builder.bytes@.subrange(start, slots as int) == u32_le_bytes(count as u32),
            builder.bytes@.subrange(0, start) == old(builder).bytes@,
            objects_chain_so_far(elements@, slots as int, count as int, builder.bytes@, bs, es, k as int),
            count == elements@.len(),
            slots == start + 4,
            start == old(builder).bytes@.len(),
            reserved.extends(old(builder)),
            reserved.bytes@.len() == slots + 4 * count,
            reserved.bytes@.subrange(start, slots as int) == u32_le_bytes(count as u32),
            builder.bytes@.len() >= reserved.bytes@.len(),
            builder.bytes@.subrange(0, slots as int) == reserved.bytes@.subrange(0, slots as int),
            builder.bytecode_version == old(builder).bytecode_version,
            builder.gm_version == old(builder).gm_version,
            fits == objects_fit(elements@, *old(builder), m),
            m == choose|m: nat| objects_fit(elements@, *old(builder), m),
            fits ==> builder.bytes@.len() <= reserved.bytes@.len() + k * m,
        decreases count - k,
    {
        proof {
            lemma_extends_via(*old(builder), reserved, *builder, slots as int);
            if fits {
                assert(k * m + m <= count * m) by (nonlinear_arith)
                    requires
                        k < count,
                ;
            }
        }
        let position = builder.len();
        let ghost before_patch = *builder;
        proof {
            reveal(objects_chain_so_far);
        }
        if let Err(e) = builder.overwrite_usize(position, slots + 4 * k) {
            proof {
                assert(!fits);
                assert forall|m2: nat| !#[trigger] objects_fit(elements@, *old(builder), m2) by {
                    if objects_fit(elements@, *old(builder), m2) {
                        assert(fits);
                    }
                }
            }
            return Err(e);
        }
        proof {
            assert(builder.bytes@.subrange(0, slots as int) =~= before_patch.bytes@.subrange(0, slots as int));
        }
        let ghost before = *builder;
        proof {
            if fits {
                lemma_object_fits(elements@, *old(builder), m, k as int);
            }
        }
        let res = write_game_object(builder, &elements[k], k);
        proof {
            assert(builder.bytes@.subrange(0, slots as int) =~= before.bytes@.subrange(0, slots as int));
            lemma_extends_via(*old(builder), reserved, *builder, slots as int);
        }
        if let Err(e) = res {
            proof {
                assert(!fits);
                assert forall|m2: nat| !#[trigger] objects_fit(elements@, *old(builder), m2) by {
                    if objects_fit(elements@, *old(builder), m2) {
                        assert(fits);
                    }
                }
            }
            return Err(e);
        }
        proof {
            let pre = before.bytes@.len() as int;
            assert(builder.bytes@.subrange(0, pre) == before.bytes@);
            assert forall|j: int| 0 <= j < k implies {
                &&& builder.bytes@.subrange(slots + 4 * j, slots + 4 * j + 4) == u32_le_bytes(bs[j].bytes@.len() as u32)
                &&& builder.bytes@.subrange(bs[j].bytes@.len() as int, es[j].bytes@.len() as int)
                    == es[j].bytes@.subrange(bs[j].bytes@.len() as int, es[j].bytes@.len() as int)
            } by {
                assert(game_object_written(elements@[j], j, bs[j], es[j]));
                let a = slots + 4 * j;
                let lo = bs[j].bytes@.len() as int;
                let hi = es[j].bytes@.len() as int;
                assert(before.bytes@.subrange(a, a + 4) =~= before_patch.bytes@.subrange(a, a + 4));
                assert(builder.bytes@.subrange(a, a + 4) =~= before.bytes@.subrange(a, a + 4)) by {
                    assert forall|i: int| a <= i < a + 4 implies #[trigger] builder.bytes@[i] == before.bytes@[i] by {
                        assert(builder.bytes@.subrange(0, pre)[i] == before.bytes@[i]);
                    }
                }
                assert(before.bytes@.subrange(lo, hi) =~= before_patch.bytes@.subrange(lo, hi));
                assert(builder.bytes@.subrange(lo, hi) =~= before.bytes@.subrange(lo, hi)) by {
                    assert forall|i: int| lo <= i < hi implies #[trigger] builder.bytes@[i] == before.bytes@[i] by {
                        assert(builder.bytes@.subrange(0, pre)[i] == before.bytes@[i]);
                    }
                }
            }
            assert(builder.bytes@.subrange(slots + 4 * k, slots + 4 * k + 4)
                =~= before.bytes@.subrange(slots + 4 * k, slots + 4 * k + 4));
            assert(builder.bytes@.subrange(start, slots as int) =~= before.bytes@.subrange(start, slots as int));
            assert(builder.bytes@.subrange(0, start) =~= before.bytes@.subrange(0, start));
            assert(builder.bytes@.subrange(pre, builder.bytes@.len() as int)
                =~= builder.bytes@.subrange(pre, builder.bytes@.len() as int));
            let a = slots + 4 * k;
            assert(before.bytes@.subrange(a, a + 4) =~= u32_le_bytes(position as u32));
            assert(builder.bytes@.subrange(a, a + 4) =~= before.bytes@.subrange(a, a + 4)) by {
                assert forall|i: int| a <= i < a + 4 implies #[trigger] builder.bytes@[i] == before.bytes@[i] by {
                    assert(builder.bytes@.subrange(0, pre)[i] == before.bytes@[i]);
                }
            }
            assert(builder.bytes@.subrange(pre, builder.bytes@.len() as int) =~= builder.bytes@.subrange(pre, builder.bytes@.len() as int));
            let old_bs = bs;
            let old_es = es;
            bs = bs.push(before);
            es = es.push(*builder);
            assert(objects_chain_so_far(elements@, slots as int, count as int, builder.bytes@, bs, es, k + 1)) by {
                reveal(objects_chain_so_far);
                assert forall|j: int| 0 <= j < k + 1 implies {
                    &&& #[trigger] game_object_written(elements@[j], j, bs[j], es[j])
                    &&& slots + 4 * count <= bs[j].bytes@.len() <= es[j].bytes@.len() <= builder.bytes@.len()
                    &&& builder.bytes@.subrange(slots + 4 * j, slots + 4 * j + 4) == u32_le_bytes(bs[j].bytes@.len() as u32)
                    &&& builder.bytes@.subrange(bs[j].bytes@.len() as int, es[j].bytes@.len() as int)
                        == es[j].bytes@.subrange(bs[j].bytes@.len() as int, es[j].bytes@.len() as int)
                    &&& (j + 1 < k + 1 ==> bs[j + 1].bytes@.len() == es[j].bytes@.len())
                } by {
                    if j < k {
                        assert(bs[j] == old_bs[j] && es[j] == old_es[j]);
                        assert(game_object_written(elements@[j], j, old_bs[j], old_es[j]));
                    } else {
                        assert(bs[j] == before && es[j] == *builder);
                    }
                }
            }
        }
        proof {
            if fits {
                lemma_object_len(elements@[k as int], k as int, before, *builder);
                    lemma_object_fits(elements@, *old(builder), m, k as int);
                assert((k + 1) * m == k * m + m) by (nonlinear_arith);
            }
        }
        k = k + 1;
    }
    proof {
        lemma_extends_via(*old(builder), reserved, *builder, slots as int);
        assert(builder.bytes@.subrange(start, slots as int) =~= builder.bytes@.subrange(0, slots as int).subrange(start, slots as int));
        assert(reserved.bytes@.subrange(start, slots as int) =~= reserved.bytes@.subrange(0, slots as int).subrange(start, slots as int));
        reveal(objects_chain_so_far);
        assert(objects_chain(elements@, *old(builder), *builder, bs, es));
    }
    Ok(())
}


/// `after` is `before` with the game objects `elems` written as a pointer list, each with
/// its index.
pub open spec fn objects_written(elems: Seq<GMGameObject>, before: DataBuilder, after: DataBuilder) -> bool {
    exists|bs: Seq<DataBuilder>, es: Seq<DataBuilder>| #[trigger] objects_chain(elems, before, after, bs, es)
}

/// The game objects `elems`, none larger than `m` bytes and each with the `managed` flag
/// where the version needs it, fit below 2^32 in a pointer list written at `before`.
pub open spec fn objects_fit(elems: Seq<GMGameObject>, before: DataBuilder, m: nat) -> bool {
    &&& before.bytes@.len() + 4 + 4 * elems.len() + elems.len() * m <= u32::MAX
    &&& forall|k: int| 0 <= k < elems.len() ==> game_object_size(#[trigger] elems[k], before.gm_version) <= m
        && (version_at_least(before.gm_version, version_req(2022, 5)) ==> elems[k].managed is Some)
}

proof fn lemma_object_fits(elems: Seq<GMGameObject>, b0: DataBuilder, m: nat, k: int)
    ensures
        objects_fit(elems, b0, m) && 0 <= k < elems.len() ==> game_object_size(elems[k], b0.gm_version) <= m
            && (version_at_least(b0.gm_version, version_req(2022, 5)) ==> elems[k].managed is Some),
{
}

/// The vertices take eight bytes each.
proof fn lemma_vertices_len(vs: Seq<(u32, u32)>)
    ensures
        vertices_bytes(vs).len() == 8 * vs.len(),
    decreases vs.len(),
{
    if vs.len() > 0 {
        lemma_vertices_len(vs.drop_last());
    }
}

/// The fields of a game object take 80 bytes (84 from GameMaker 2022.5 on) and eight per
/// vertex.
#[verifier::rlimit(40)]
proof fn lemma_head_len(obj: GMGameObject, index: int, v: GMVersion)
    ensures
        game_object_head_bytes(obj, index, v).len() == (if version_at_least(v, version_req(2022, 5)) { 84int } else { 80int })
            + 8 * obj.physics_shape_vertices@.len(),
{
    lemma_vertices_len(obj.physics_shape_vertices@);
    assert(sprite_bytes(obj.sprite).len() == 4);
    assert(sprite_bytes(obj.texture_mask).len() == 4);
    assert(parent_bytes(obj.parent, index).len() == 4);
}

/// A written game object takes at most its size.
proof fn lemma_object_len(obj: GMGameObject, index: int, b: DataBuilder, a: DataBuilder)
    requires
        game_object_written(obj, index, b, a),
    ensures
        a.bytes@.len() <= b.bytes@.len() + game_object_size(obj, b.gm_version),
{
    let b1 = choose|b1: DataBuilder| {
        &&& b1.bytes@ == b.bytes@ + game_object_head_bytes(obj, index, b.gm_version)
        &&& b1.gm_version == b.gm_version && b1.bytecode_version == b.bytecode_version
        &&& #[trigger] pointer_list_written(obj.events@, b1, a)
    };
    lemma_head_len(obj, index, b.gm_version);
    lemma_events_fit(obj.events@, b1);
    lemma_pointer_list_len(obj.events@, b1, a, max_events_size(obj.events@));
}

/// The largest size of the game objects of `objs` for version `v`.
pub open spec fn max_object_size(objs: Seq<GMGameObject>, v: GMVersion) -> nat
    decreases objs.len(),
{
    if objs.len() == 0 {
        0
    } else {
        let rest = max_object_size(objs.drop_last(), v);
        let last = game_object_size(objs.last(), v);
        if rest < last { last } else { rest }
    }
}

proof fn lemma_max_object_size(objs: Seq<GMGameObject>, v: GMVersion, k: int)
    requires
        0 <= k < objs.len(),
    ensures
        game_object_size(objs[k], v) <= max_object_size(objs, v),
    decreases objs.len(),
{
    if k < objs.len() - 1 {
        lemma_max_object_size(objs.drop_last(), v, k);
        assert(objs.drop_last()[k] == objs[k]);
    }
}

impl GMChunkElement for GMGameObjects {
    fn empty() -> (r: GMGameObjects)
        ensures
            !r.exists,
            r.game_objects@.len() == 0,
    {
        GMGameObjects { game_objects: Vec::new(), exists: false }
    }

    fn chunk_exists(&self) -> (r: bool)
        ensures
            r == self.exists,
    {
        self.exists
    }
}

impl GMElement for GMGameObjects {
    open spec fn readable<'a>(before: DataReader<'a>) -> bool {
        &&& u32_list_readable(before)
        &&& forall|k: int| 0 <= k < before.word() ==> game_object_readable(
            before.moved(#[trigger] pointer_at(before, before.cur_pos as int, k) as int), k as u32)
    }

    open spec fn read_end<'a>(before: DataReader<'a>) -> int {
        if before.word() == 0 {
            before.cur_pos + 4
        } else {
            game_object_end(before.moved(pointer_at(before, before.cur_pos as int, before.word() - 1) as int))
        }
    }

    /// The count, and a pointer and the largest object's size per object, fit below 2^32,
    /// and from GameMaker 2022.5 on every object has the `managed` flag.
    open spec fn writable(&self, before: DataBuilder) -> bool {
        let n = self.game_objects@.len();
        &&& before.bytes@.len() + 4 + 4 * n + n * max_object_size(self.game_objects@, before.gm_version) <= u32::MAX
        &&& version_at_least(before.gm_version, version_req(2022, 5))
            ==> forall|k: int| 0 <= k < n ==> (#[trigger] self.game_objects@[k]).managed is Some
    }

    /// The count, a pointer per object to where it starts, then each object with its index.
    open spec fn written(&self, before: DataBuilder, after: DataBuilder) -> bool {
        objects_written(self.game_objects@, before, after)
    }

    open spec fn deserialized<'a>(before: DataReader<'a>, after: DataReader<'a>, value: GMGameObjects) -> bool {
        game_objects_read(before, value)
    }

    fn deserialize(reader: &mut DataReader) -> (r: Result<GMGameObjects, String>) {
        let pointers = reader.read_u32_list()?;
        let ghost base = *old(reader);
        let ghost ok = Self::readable(base);
        let mut game_objects: Vec<GMGameObject> = Vec::new();
        let mut k: usize = 0;
        while k < pointers.len()
            invariant
                base == *old(reader),
                ok == Self::readable(base),
                pointers@.len() == base.word(),
                ok ==> reader.cur_pos == (if k == 0 { base.cur_pos + 4 + 4 * pointers@.len() } else {
                    game_object_end(base.moved(pointers@[k - 1] as int)) }),
                k <= pointers@.len(),
                pointers@.len() <= u32::MAX,
                forall|j: int| 0 <= j < pointers@.len() ==> #[trigger] pointers@[j] == pointer_at(base, base.cur_pos as int, j),
                reader.wf(),
                *reader == base.moved(reader.cur_pos as int),
                game_objects@.len() == k,
                forall|j: int| 0 <= j < k ==> game_object_read(base.moved(pointers@[j] as int), j as u32, #[trigger] game_objects@[j]),
            decreases pointers@.len() - k,
        {
            reader.cur_pos = pointers[k];
            let ghost at = *reader;
            proof {
                if ok {
                    assert(pointers@[k as int] == pointer_at(base, base.cur_pos as int, k as int));
                    assert(game_object_readable(at, k as u32));
                }
            }
            let object = read_game_object(reader, k as u32)?;
            proof {
                assert(at == base.moved(pointers@[k as int] as int));
            }
            game_objects.push(object);
            k = k + 1;
        }
        Ok(GMGameObjects { game_objects, exists: true })
    }

    fn serialize(&self, builder: &mut DataBuilder) -> (r: Result<(), String>) {
        proof {
            let objs = self.game_objects@;
            let m = max_object_size(objs, builder.gm_version);
            if self.writable(*builder) {
                assert forall|k: int| 0 <= k < objs.len() implies game_object_size(#[trigger] objs[k], builder.gm_version) <= m
                    && (version_at_least(builder.gm_version, version_req(2022, 5)) ==> objs[k].managed is Some) by {
                    lemma_max_object_size(objs, builder.gm_version, k);
                }
                assert(objects_fit(objs, *builder, m));
            }
        }
        write_object_list(builder, &self.game_objects)
    }
}

/// The names of the game objects, as far as they resolve.
pub open spec fn object_names(strings: GMStrings, objects: Seq<GMGameObject>) -> Seq<Option<Seq<char>>> {
    objects.map_values(|o: GMGameObject| string_of(strings, o.name))
}

impl GMGameObjects {
    /// The first game object named `name`; fails when there is none or an earlier object's
    /// name does not resolve.
    pub fn get_object_ref_by_name(&self, name: &str, gm_strings: &GMStrings) -> (r: Result<GMRef<GMGameObject>, String>)
        requires
            self.game_objects@.len() <= u32::MAX,
        ensures
            match first_named(object_names(*gm_strings, self.game_objects@), name@) {
                Ok(Some(i)) => r == Ok::<GMRef<GMGameObject>, String>(gm_ref(i as u32)),
                _ => r is Err,
            },
    {
        let target = name.to_owned();
        let ghost names = object_names(*gm_strings, self.game_objects@);
        let mut i: usize = 0;
        while i < self.game_objects.len()
            invariant
                0 <= i <= self.game_objects@.len() <= u32::MAX,
                names == object_names(*gm_strings, self.game_objects@),
                target@ == name@,
                first_named(names.take(i as int), name@) == Ok::<Option<int>, int>(None),
            decreases self.game_objects@.len() - i,
        {
            proof {
                assert(names.take(i + 1).drop_last() =~= names.take(i as int));
            }
            let object_name = match self.game_objects[i].name.resolve(&gm_strings.strings) {
                Ok(n) => n,
                Err(e) => {
                    proof {
                        lemma_first_named_prefix(names, name@, i + 1);
                    }
                    return Err(e);
                },
            };
            if object_name.eq(&target) {
                proof {
                    lemma_first_named_prefix(names, name@, i + 1);
                }
                return Ok(GMRef::new(i as u32));
            }
            i = i + 1;
        }
        assert(names.take(i as int) =~= names);
        Err("Could not resolve game object with this name".to_owned())
    }
}

} // verus!
