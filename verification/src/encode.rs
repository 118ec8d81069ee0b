//! Writing bytecode instructions, and the references they make through occurrence chains.

use vstd::prelude::*;
use crate::builder::DataBuilder;
use crate::instructions::OP_EXTENDED;
use crate::bytes::{u16_le_bytes, u32_le_bytes, u64_le_bytes};
use crate::code::{
    build_instance_type, comparison_type_code, data_type_code, instance_type_code,
    spec_value_data_type, variable_type_code, CodeVariable, GMCodeValue, GMDataType,
    GMVariableType,
};
use crate::instructions::{
    opcode_from_instruction, opcode_new_to_old, spec_opcode_new_to_old, spec_opcode_of,
    GMAssetReference, GMDoubleTypeInstruction, GMInstruction,
};

verus! {

/// The opcode byte written for an instruction under a bytecode version.
pub open spec fn word_opcode(i: GMInstruction, bv: u8) -> u8 {
    if bv < 15 {
        spec_opcode_new_to_old(spec_opcode_of(i))
    } else {
        spec_opcode_of(i)
    }
}

pub open spec fn lo_byte(v: u16) -> u8 {
    (v & 0xff) as u8
}

pub open spec fn hi_byte(v: u16) -> u8 {
    ((v >> 8u16) & 0xff) as u8
}

/// Two data types packed in one byte, the first in the low nibble.
pub open spec fn type_pair(lo: GMDataType, hi: GMDataType) -> u8 {
    (data_type_code(lo) | (data_type_code(hi) << 4u8)) as u8
}

/// The low 24 bits of a jump offset; from bytecode 15 on, a negative offset has bit 22 set
/// in place of bit 23.
pub open spec fn goto_bits(jump_offset: i32, bv: u8) -> u32 {
    let v = (jump_offset as u32) & 0x00FF_FFFFu32;
    if bv > 14 && (v & 0x80_0000u32) != 0 {
        (v & !0x80_0000u32) | 0x40_0000u32
    } else {
        v
    }
}

/// The 16-bit kind of an extended instruction without operand words.
pub open spec fn extended_kind(i: GMInstruction) -> i16 {
    match i {
        GMInstruction::CheckArrayIndex => -1i16,
        GMInstruction::PushArrayFinal => -2i16,
        GMInstruction::PopArrayFinal => -3i16,
        GMInstruction::PushArrayContainer => -4i16,
        GMInstruction::SetArrayOwner => -5i16,
        GMInstruction::HasStaticInitialized => -6i16,
        GMInstruction::SetStaticInitialized => -7i16,
        GMInstruction::SaveArrayReference => -8i16,
        GMInstruction::RestoreArrayReference => -9i16,
        GMInstruction::IsNullishValue => -10i16,
        _ => 0i16,
    }
}

/// The 16-bit field of a push instruction word: the value itself for an Int16, the instance
/// type for a variable, else zero.
pub open spec fn push_field(v: GMCodeValue) -> i16 {
    match v {
        GMCodeValue::Int16(x) => x,
        GMCodeValue::Variable(cv) => instance_type_code(cv.instance_type),
        _ => 0i16,
    }
}

/// A word whose low two bytes hold `v`.
pub open spec fn word16(v: u16, b2: u8, op: u8) -> (u8, u8, u8, u8) {
    (lo_byte(v), hi_byte(v), b2, op)
}

/// The instruction word (bytes 0, 1, 2 and the opcode byte) of an instruction.
pub open spec fn spec_encode_word(i: GMInstruction, bv: u8) -> (u8, u8, u8, u8) {
    let op = word_opcode(i, bv);
    match i {
        GMInstruction::Convert(d) => (0u8, 0u8, type_pair(d.right, d.left), op),
        GMInstruction::Multiply(d) => (0u8, 0u8, type_pair(d.right, d.left), op),
        GMInstruction::Divide(d) => (0u8, 0u8, type_pair(d.right, d.left), op),
        GMInstruction::Remainder(d) => (0u8, 0u8, type_pair(d.right, d.left), op),
        GMInstruction::Modulus(d) => (0u8, 0u8, type_pair(d.right, d.left), op),
        GMInstruction::Add(d) => (0u8, 0u8, type_pair(d.right, d.left), op),
        GMInstruction::Subtract(d) => (0u8, 0u8, type_pair(d.right, d.left), op),
        GMInstruction::And(d) => (0u8, 0u8, type_pair(d.right, d.left), op),
        GMInstruction::Or(d) => (0u8, 0u8, type_pair(d.right, d.left), op),
        GMInstruction::Xor(d) => (0u8, 0u8, type_pair(d.right, d.left), op),
        GMInstruction::ShiftLeft(d) => (0u8, 0u8, type_pair(d.right, d.left), op),
        GMInstruction::ShiftRight(d) => (0u8, 0u8, type_pair(d.right, d.left), op),
        GMInstruction::Negate(s) => (0u8, 0u8, data_type_code(s.data_type), op),
        GMInstruction::Not(s) => (0u8, 0u8, data_type_code(s.data_type), op),
        GMInstruction::Return(s) => (0u8, 0u8, data_type_code(s.data_type), op),
        GMInstruction::PopDiscard(s) => (0u8, 0u8, data_type_code(s.data_type), op),
        GMInstruction::Compare(c) => (
            0u8,
            comparison_type_code(c.comparison_type),
            type_pair(c.type1, c.type2),
            if bv < 15 { (0x10 + comparison_type_code(c.comparison_type)) as u8 } else { op },
        ),
        GMInstruction::Pop(p) => word16(
            instance_type_code(p.destination.instance_type) as u16,
            type_pair(p.type1, p.type2),
            op,
        ),
        GMInstruction::PopSwap(s) => (s.size, 0u8, 0x5Fu8, op),
        GMInstruction::Duplicate(d) => (d.size, 0u8, data_type_code(d.data_type), op),
        GMInstruction::DuplicateSwap(d) => (d.size1, d.size2, data_type_code(d.data_type), op),
        GMInstruction::Exit(_) => (0u8, 0u8, 0u8, op),
        GMInstruction::Branch(g) => goto_word(goto_bits(g.jump_offset, bv), op),
        GMInstruction::BranchIf(g) => goto_word(goto_bits(g.jump_offset, bv), op),
        GMInstruction::BranchUnless(g) => goto_word(goto_bits(g.jump_offset, bv), op),
        GMInstruction::PushWithContext(g) => goto_word(goto_bits(g.jump_offset, bv), op),
        GMInstruction::PopWithContext(g) => goto_word(goto_bits(g.jump_offset, bv), op),
        GMInstruction::PopWithContextExit(_) => (0u8, 0u8, 0xF0u8, op),
        GMInstruction::Push(p) => word16(push_field(p.value) as u16, data_type_code(spec_value_data_type(p.value)), op),
        GMInstruction::PushLocal(p) => word16(push_field(p.value) as u16, data_type_code(spec_value_data_type(p.value)), op),
        GMInstruction::PushGlobal(p) => word16(push_field(p.value) as u16, data_type_code(spec_value_data_type(p.value)), op),
        GMInstruction::PushBuiltin(p) => word16(push_field(p.value) as u16, data_type_code(spec_value_data_type(p.value)), op),
        GMInstruction::PushImmediate(v) => word16(v as u16, 0x0Fu8, op),
        GMInstruction::Call(c) => word16(c.argument_count, 2u8, op),
        GMInstruction::CallVariable(c) => word16(c.argument_count, data_type_code(c.data_type), op),
        GMInstruction::PushReference(_) => word16((-11i16) as u16, 2u8, 0xFFu8),
        _ => word16(extended_kind(i) as u16, 0x0Fu8, 0xFFu8),
    }
}

/// A word holding the low 24 bits of `v` and the opcode.
pub open spec fn goto_word(v: u32, op: u8) -> (u8, u8, u8, u8) {
    ((v & 0xff) as u8, ((v >> 8u32) & 0xff) as u8, ((v >> 16u32) & 0xff) as u8, op)
}

pub open spec fn word_bytes(w: (u8, u8, u8, u8)) -> Seq<u8> {
    seq![w.0, w.1, w.2, w.3]
}

/// A link of a variable's occurrence chain: 27 bits of offset (or of the name string id, in
/// the last link), then the variable type's top bits.
pub open spec fn link_word(value: u32, variable_type: GMVariableType) -> u32 {
    (value & 0x07FF_FFFFu32) | (((variable_type_code(variable_type) & 0xF8u8) as u32) << 24u32)
}

/// The word that a pushed asset reference is written as: the kind in the top byte, the index
/// in the low 24 bits.
pub open spec fn asset_word(a: GMAssetReference) -> u32 {
    match a {
        GMAssetReference::Object(r) => r.index & 0xFF_FFFFu32,
        GMAssetReference::Sprite(x) => (1u32 << 24u32) | (x & 0xFF_FFFFu32),
        GMAssetReference::Sound(x) => (2u32 << 24u32) | (x & 0xFF_FFFFu32),
        GMAssetReference::Room(x) => (3u32 << 24u32) | (x & 0xFF_FFFFu32),
        GMAssetReference::Background(x) => (4u32 << 24u32) | (x & 0xFF_FFFFu32),
        GMAssetReference::Path(x) => (5u32 << 24u32) | (x & 0xFF_FFFFu32),
        GMAssetReference::Script(x) => (6u32 << 24u32) | (x & 0xFF_FFFFu32),
        GMAssetReference::Font(x) => (7u32 << 24u32) | (x & 0xFF_FFFFu32),
        GMAssetReference::Timeline(x) => (8u32 << 24u32) | (x & 0xFF_FFFFu32),
        GMAssetReference::Shader(x) => (9u32 << 24u32) | (x & 0xFF_FFFFu32),
        GMAssetReference::Sequence(x) => (10u32 << 24u32) | (x & 0xFF_FFFFu32),
        GMAssetReference::AnimCurve(x) => (11u32 << 24u32) | (x & 0xFF_FFFFu32),
        GMAssetReference::ParticleSystem(x) => (12u32 << 24u32) | (x & 0xFF_FFFFu32),
        GMAssetReference::RoomInstance(id) => (13u32 << 24u32) | ((id as u32) & 0xFF_FFFFu32),
        GMAssetReference::Function(_) => 0u32,
    }
}

/// The words that follow the instruction word. `link` is the content of an occurrence link
/// (the name string id when it is the last occurrence, else the offset to the next one).
pub open spec fn spec_encode_operand(i: GMInstruction, link: u32) -> Seq<u8> {
    match i {
        GMInstruction::Pop(p) => u32_le_bytes(link_word(link, p.destination.variable_type)),
        GMInstruction::Push(p) => value_operand(p.value, link),
        GMInstruction::PushLocal(p) => value_operand(p.value, link),
        GMInstruction::PushGlobal(p) => value_operand(p.value, link),
        GMInstruction::PushBuiltin(p) => value_operand(p.value, link),
        GMInstruction::Call(_) => u32_le_bytes(link & 0x07FF_FFFFu32),
        GMInstruction::PushReference(a) => match a {
            GMAssetReference::Function(_) => u32_le_bytes(link & 0x07FF_FFFFu32),
            _ => u32_le_bytes(asset_word(a)),
        },
        _ => Seq::<u8>::empty(),
    }
}

/// The words that follow a push instruction word.
pub open spec fn value_operand(v: GMCodeValue, link: u32) -> Seq<u8> {
    match v {
        GMCodeValue::Int16(_) => Seq::<u8>::empty(),
        GMCodeValue::Int32(x) => u32_le_bytes(x as u32),
        GMCodeValue::Int64(x) => u64_le_bytes(x as u64),
        GMCodeValue::Double(bits) => u64_le_bytes(bits),
        GMCodeValue::Boolean(b) => u32_le_bytes(if b { 1u32 } else { 0u32 }),
        GMCodeValue::String(r) => u32_le_bytes(r.index),
        GMCodeValue::Variable(cv) => u32_le_bytes(link_word(link, cv.variable_type)),
        GMCodeValue::Function(_) => u32_le_bytes(link & 0x07FF_FFFFu32),
    }
}

/// The variable an instruction references, with the variable type used.
pub open spec fn spec_variable_ref(i: GMInstruction) -> Option<(u32, GMVariableType)> {
    match i {
        GMInstruction::Pop(p) => Some((p.destination.variable.index, p.destination.variable_type)),
        GMInstruction::Push(p) => value_variable_ref(p.value),
        GMInstruction::PushLocal(p) => value_variable_ref(p.value),
        GMInstruction::PushGlobal(p) => value_variable_ref(p.value),
        GMInstruction::PushBuiltin(p) => value_variable_ref(p.value),
        _ => None,
    }
}

pub open spec fn value_variable_ref(v: GMCodeValue) -> Option<(u32, GMVariableType)> {
    match v {
        GMCodeValue::Variable(cv) => Some((cv.variable.index, cv.variable_type)),
        _ => None,
    }
}

/// The function an instruction references.
pub open spec fn spec_function_ref(i: GMInstruction) -> Option<u32> {
    match i {
        GMInstruction::Push(p) => value_function_ref(p.value),
        GMInstruction::PushLocal(p) => value_function_ref(p.value),
        GMInstruction::PushGlobal(p) => value_function_ref(p.value),
        GMInstruction::PushBuiltin(p) => value_function_ref(p.value),
        GMInstruction::Call(c) => Some(c.function.index),
        GMInstruction::PushReference(GMAssetReference::Function(f)) => Some(f.index),
        _ => None,
    }
}

pub open spec fn value_function_ref(v: GMCodeValue) -> Option<u32> {
    match v {
        GMCodeValue::Function(f) => Some(f.index),
        _ => None,
    }
}

/// `bytes` with the 4 bytes at `at` replaced by `v`.
pub open spec fn patch32(bytes: Seq<u8>, at: int, v: u32) -> Seq<u8> {
    bytes.subrange(0, at) + u32_le_bytes(v) + bytes.subrange(at + 4, bytes.len() as int)
}

/// The offset from one occurrence to the next, in the 27 bits a link holds.
pub open spec fn link_offset(from: usize, to: usize) -> u32 {
    vstd::wrapping::u32_specs::wrapping_sub(to as u32, from as u32) & 0x07FF_FFFFu32
}

/// A chain's last link can be rewritten: there is none, or its word lies within `len` bytes.
pub open spec fn can_link<T>(chain: Seq<(usize, T)>, len: int) -> bool {
    chain.len() == 0 || chain.last().0 + 8 <= len
}

/// The bytes after the last link of a variable's chain is made to point at `pos`.
pub open spec fn link_variable_chain(bytes: Seq<u8>, chain: Seq<(usize, GMVariableType)>, pos: usize) -> Seq<u8> {
    if chain.len() == 0 {
        bytes
    } else {
        let (q, vt) = chain.last();
        patch32(bytes, q + 4, link_word(link_offset(q, pos), vt))
    }
}

/// The bytes after the last link of a function's chain is made to point at `pos`.
pub open spec fn link_function_chain(bytes: Seq<u8>, chain: Seq<usize>, pos: usize) -> Seq<u8> {
    if chain.len() == 0 {
        bytes
    } else {
        let q = chain.last();
        patch32(bytes, q + 4, link_offset(q, pos))
    }
}

/// Everything but the bytes and the variable chains is the same.
pub open spec fn same_but_variables(a: DataBuilder, b: DataBuilder) -> bool {
    &&& a.bytecode_version == b.bytecode_version
    &&& a.gm_version == b.gm_version
    &&& a.string_refs@ == b.string_refs@
    &&& a.function_occurrences@ == b.function_occurrences@
    &&& a.variable_name_ids@ == b.variable_name_ids@
    &&& a.function_name_ids@ == b.function_name_ids@
}

/// Everything but the bytes and the function chains is the same.
pub open spec fn same_but_functions(a: DataBuilder, b: DataBuilder) -> bool {
    &&& a.bytecode_version == b.bytecode_version
    &&& a.gm_version == b.gm_version
    &&& a.string_refs@ == b.string_refs@
    &&& a.variable_occurrences@ == b.variable_occurrences@
    &&& a.variable_name_ids@ == b.variable_name_ids@
    &&& a.function_name_ids@ == b.function_name_ids@
}

/// A variable occurrence can be written: the variable's chain exists and can be linked.
pub open spec fn variable_occurrence_ok(b: DataBuilder, index: u32) -> bool {
    &&& index < b.variable_occurrences@.len()
    &&& can_link(b.variable_occurrences@[index as int]@, b.bytes@.len() as int)
}

/// `after` is `before` with an occurrence of variable `index` written at `pos`: the
/// previous last link points here, and a new last link holding the name id is appended.
pub open spec fn variable_occurrence_written(
    before: DataBuilder,
    after: DataBuilder,
    index: u32,
    pos: usize,
    name_id: u32,
    variable_type: GMVariableType,
) -> bool {
    let chain = before.variable_occurrences@[index as int]@;
    &&& after.bytes@ == link_variable_chain(before.bytes@, chain, pos) + u32_le_bytes(link_word(name_id, variable_type))
    &&& after.variable_occurrences@ == before.variable_occurrences@.update(index as int, after.variable_occurrences@[index as int])
    &&& after.variable_occurrences@[index as int]@ == chain.push((pos, variable_type))
    &&& same_but_variables(after, before)
}

/// A function occurrence can be written: the function's chain exists and can be linked.
pub open spec fn function_occurrence_ok(b: DataBuilder, index: u32) -> bool {
    &&& index < b.function_occurrences@.len()
    &&& {
        let chain = b.function_occurrences@[index as int]@;
        chain.len() == 0 || chain.last() + 8 <= b.bytes@.len()
    }
}

/// `after` is `before` with an occurrence of function `index` written at `pos`.
pub open spec fn function_occurrence_written(
    before: DataBuilder,
    after: DataBuilder,
    index: u32,
    pos: usize,
    name_id: u32,
) -> bool {
    let chain = before.function_occurrences@[index as int]@;
    &&& after.bytes@ == link_function_chain(before.bytes@, chain, pos) + u32_le_bytes(name_id & 0x07FF_FFFFu32)
    &&& after.function_occurrences@ == before.function_occurrences@.update(index as int, after.function_occurrences@[index as int])
    &&& after.function_occurrences@[index as int]@ == chain.push(pos)
    &&& same_but_functions(after, before)
}

/// Records an occurrence of variable `gm_index` at `occurrence_position` (the position of the
/// instruction): links the previous occurrence to it and writes the new last link.
pub fn write_variable_occurrence(
    builder: &mut DataBuilder,
    gm_index: u32,
    occurrence_position: usize,
    name_string_id: u32,
    variable_type: GMVariableType,
) -> (r: Result<(), String>)
    ensures
        r is Ok <==> variable_occurrence_ok(*old(builder), gm_index),
        r is Ok ==> variable_occurrence_written(
            *old(builder),
            *final(builder),
            gm_index,
            occurrence_position,
            name_string_id,
            variable_type,
        ),
        r is Err ==> *final(builder) == *old(builder),
{
    let idx = gm_index as usize;
    if idx >= builder.variable_occurrences.len() {
        return Err("Variable occurrence list out of bounds".to_owned());
    }
    let ghost chain = old(builder).variable_occurrences@[idx as int]@;
    let n = builder.variable_occurrences[idx].len();
    if n > 0 {
        let (last_pos, old_type) = builder.variable_occurrences[idx][n - 1];
        if last_pos > builder.bytes.len() || builder.bytes.len() - last_pos < 8 {
            return Err("Trying to overwrite data out of bounds".to_owned());
        }
        let offset: u32 = (occurrence_position as u32).wrapping_sub(last_pos as u32) & 0x07FF_FFFF;
        let full: u32 = offset | (((old_type.to_u8() & 0xF8) as u32) << 24u32);
        assert(full == link_word(link_offset(last_pos, occurrence_position), old_type)) by {
            assert(offset & 0x07FF_FFFFu32 == offset) by (bit_vector)
                requires offset == vstd::wrapping::u32_specs::wrapping_sub(occurrence_position as u32, last_pos as u32) & 0x07FF_FFFFu32;
        }
        let _ = builder.overwrite_u32(full, last_pos + 4);
    }
    assert(builder.bytes@ == link_variable_chain(old(builder).bytes@, chain, occurrence_position));
    let link: u32 = (name_string_id & 0x07FF_FFFF) | (((variable_type.to_u8() & 0xF8) as u32) << 24u32);
    builder.write_u32(link);
    builder.variable_occurrences[idx].push((occurrence_position, variable_type));
    assert(builder.variable_occurrences@ == old(builder).variable_occurrences@.update(
        idx as int, builder.variable_occurrences@[idx as int]));
    Ok(())
}

/// Records an occurrence of function `gm_index` at `occurrence_position`: links the previous
/// occurrence to it and writes the new last link.
pub fn write_function_occurrence(
    builder: &mut DataBuilder,
    gm_index: u32,
    occurrence_position: usize,
    name_string_id: u32,
) -> (r: Result<(), String>)
    ensures
        r is Ok <==> function_occurrence_ok(*old(builder), gm_index),
        r is Ok ==> function_occurrence_written(
            *old(builder),
            *final(builder),
            gm_index,
            occurrence_position,
            name_string_id,
        ),
        r is Err ==> *final(builder) == *old(builder),
{
    let idx = gm_index as usize;
    if idx >= builder.function_occurrences.len() {
        return Err("Function occurrence list out of bounds".to_owned());
    }
    let ghost chain = old(builder).function_occurrences@[idx as int]@;
    let n = builder.function_occurrences[idx].len();
    if n > 0 {
        let last_pos = builder.function_occurrences[idx][n - 1];
        if last_pos > builder.bytes.len() || builder.bytes.len() - last_pos < 8 {
            return Err("Trying to overwrite data out of bounds".to_owned());
        }
        let offset: u32 = (occurrence_position as u32).wrapping_sub(last_pos as u32) & 0x07FF_FFFF;
        let _ = builder.overwrite_u32(offset, last_pos + 4);
    }
    assert(builder.bytes@ == link_function_chain(old(builder).bytes@, chain, occurrence_position));
    builder.write_u32(name_string_id & 0x07FF_FFFF);
    builder.function_occurrences[idx].push(occurrence_position);
    assert(builder.function_occurrences@ == old(builder).function_occurrences@.update(
        idx as int, builder.function_occurrences@[idx as int]));
    Ok(())
}

/// A variable reference can be written: the variable has a name and a chain that can be linked.
pub open spec fn variable_ref_ok(b: DataBuilder, index: u32) -> bool {
    index < b.variable_name_ids@.len() && variable_occurrence_ok(b, index)
}

/// A function reference can be written: the function has a name and a chain that can be linked.
pub open spec fn function_ref_ok(b: DataBuilder, index: u32) -> bool {
    index < b.function_name_ids@.len() && function_occurrence_ok(b, index)
}

/// Writes the occurrence link of a variable referenced by the instruction at `pos`.
fn write_variable_ref(builder: &mut DataBuilder, variable: &CodeVariable, pos: usize) -> (r: Result<(), String>)
    ensures
        r is Ok <==> variable_ref_ok(*old(builder), variable.variable.index),
        r is Ok ==> variable_occurrence_written(
            *old(builder),
            *final(builder),
            variable.variable.index,
            pos,
            old(builder).variable_name_ids@[variable.variable.index as int],
            variable.variable_type,
        ),
        r is Err ==> *final(builder) == *old(builder),
{
    let idx = variable.variable.index as usize;
    if idx >= builder.variable_name_ids.len() {
        return Err("Variable reference out of bounds".to_owned());
    }
    let name = builder.variable_name_ids[idx];
    write_variable_occurrence(builder, variable.variable.index, pos, name, variable.variable_type)
}

/// Writes the occurrence link of function `index` referenced at `pos`.
fn write_function_ref(builder: &mut DataBuilder, index: u32, pos: usize) -> (r: Result<(), String>)
    ensures
        r is Ok <==> function_ref_ok(*old(builder), index),
        r is Ok ==> function_occurrence_written(
            *old(builder),
            *final(builder),
            index,
            pos,
            old(builder).function_name_ids@[index as int],
        ),
        r is Err ==> *final(builder) == *old(builder),
{
    let idx = index as usize;
    if idx >= builder.function_name_ids.len() {
        return Err("Function reference out of bounds".to_owned());
    }
    let name = builder.function_name_ids[idx];
    write_function_occurrence(builder, index, pos, name)
}

fn type_pair_exec(lo: GMDataType, hi: GMDataType) -> (r: u8)
    ensures
        r == type_pair(lo, hi),
{
    proof {
        crate::code::lemma_data_type_code_roundtrip(hi);
    }
    lo.to_u8() | (hi.to_u8() << 4u8)
}

fn goto_bits_exec(jump_offset: i32, bv: u8) -> (r: u32)
    ensures
        r == goto_bits(jump_offset, bv),
{
    let mut value: u32 = (jump_offset as u32) & 0x00FF_FFFF;
    if bv > 14 && (value & 0x80_0000) != 0 {
        value = (value & !0x80_0000u32) | 0x40_0000;
    }
    value
}

fn word16_exec(v: u16, b2: u8, op: u8) -> (r: (u8, u8, u8, u8))
    ensures
        r == word16(v, b2, op),
{
    ((v & 0xff) as u8, ((v >> 8u16) & 0xff) as u8, b2, op)
}

fn push_field_exec(v: &GMCodeValue) -> (r: i16)
    ensures
        r == push_field(*v),
{
    match v {
        GMCodeValue::Int16(x) => *x,
        GMCodeValue::Variable(cv) => build_instance_type(&cv.instance_type),
        _ => 0,
    }
}

fn push_word(v: &GMCodeValue, op: u8) -> (r: (u8, u8, u8, u8))
    ensures
        r == word16(push_field(*v) as u16, data_type_code(spec_value_data_type(*v)), op),
{
    let f = push_field_exec(v);
    word16_exec(f as u16, v.data_type().to_u8(), op)
}

fn goto_word_exec(v: u32, op: u8) -> (r: (u8, u8, u8, u8))
    ensures
        r == goto_word(v, op),
{
    ((v & 0xff) as u8, ((v >> 8u32) & 0xff) as u8, ((v >> 16u32) & 0xff) as u8, op)
}

/// The instruction word of an instruction under bytecode version `bv`.
pub fn encode_word(instruction: &GMInstruction, bv: u8) -> (r: (u8, u8, u8, u8))
    ensures
        r == spec_encode_word(*instruction, bv),
{
    let mut op = opcode_from_instruction(instruction);
    if bv < 15 {
        op = opcode_new_to_old(op);
    }
    match instruction {
        GMInstruction::Convert(d) | GMInstruction::Multiply(d) | GMInstruction::Divide(d)
        | GMInstruction::Remainder(d) | GMInstruction::Modulus(d) | GMInstruction::Add(d)
        | GMInstruction::Subtract(d) | GMInstruction::And(d) | GMInstruction::Or(d)
        | GMInstruction::Xor(d) | GMInstruction::ShiftLeft(d) | GMInstruction::ShiftRight(d) => {
            (0, 0, type_pair_exec(d.right, d.left), op)
        },
        GMInstruction::Negate(s) | GMInstruction::Not(s) | GMInstruction::Return(s)
        | GMInstruction::PopDiscard(s) => (0, 0, s.data_type.to_u8(), op),
        GMInstruction::Compare(c) => {
            let code = c.comparison_type.to_u8();
            proof {
                crate::code::lemma_comparison_type_code_roundtrip(c.comparison_type);
            }
            let last = if bv < 15 { 0x10 + code } else { op };
            (0, code, type_pair_exec(c.type1, c.type2), last)
        },
        GMInstruction::Pop(p) => word16_exec(
            build_instance_type(&p.destination.instance_type) as u16,
            type_pair_exec(p.type1, p.type2),
            op,
        ),
        GMInstruction::PopSwap(s) => (s.size, 0, 0x5F, op),
        GMInstruction::Duplicate(d) => (d.size, 0, d.data_type.to_u8(), op),
        GMInstruction::DuplicateSwap(d) => (d.size1, d.size2, d.data_type.to_u8(), op),
        GMInstruction::Exit(_) => (0, 0, 0, op),
        GMInstruction::Branch(g) | GMInstruction::BranchIf(g) | GMInstruction::BranchUnless(g)
        | GMInstruction::PushWithContext(g) | GMInstruction::PopWithContext(g) => {
            goto_word_exec(goto_bits_exec(g.jump_offset, bv), op)
        },
        GMInstruction::PopWithContextExit(_) => (0, 0, 0xF0, op),
        GMInstruction::Push(p) | GMInstruction::PushLocal(p) | GMInstruction::PushGlobal(p)
        | GMInstruction::PushBuiltin(p) => push_word(&p.value, op),
        GMInstruction::PushImmediate(v) => word16_exec(*v as u16, 0x0F, op),
        GMInstruction::Call(c) => word16_exec(c.argument_count, 2, op),
        GMInstruction::CallVariable(c) => word16_exec(c.argument_count, c.data_type.to_u8(), op),
        GMInstruction::CheckArrayIndex => word16_exec((-1i16) as u16, 0x0F, 0xFF),
        GMInstruction::PushArrayFinal => word16_exec((-2i16) as u16, 0x0F, 0xFF),
        GMInstruction::PopArrayFinal => word16_exec((-3i16) as u16, 0x0F, 0xFF),
        GMInstruction::PushArrayContainer => word16_exec((-4i16) as u16, 0x0F, 0xFF),
        GMInstruction::SetArrayOwner => word16_exec((-5i16) as u16, 0x0F, 0xFF),
        GMInstruction::HasStaticInitialized => word16_exec((-6i16) as u16, 0x0F, 0xFF),
        GMInstruction::SetStaticInitialized => word16_exec((-7i16) as u16, 0x0F, 0xFF),
        GMInstruction::SaveArrayReference => word16_exec((-8i16) as u16, 0x0F, 0xFF),
        GMInstruction::RestoreArrayReference => word16_exec((-9i16) as u16, 0x0F, 0xFF),
        GMInstruction::IsNullishValue => word16_exec((-10i16) as u16, 0x0F, 0xFF),
        GMInstruction::PushReference(_) => word16_exec((-11i16) as u16, 2, 0xFF),
    }
}

/// The word of an asset reference that is not a function.
pub(crate) fn asset_word_exec(a: &GMAssetReference) -> (r: u32)
    ensures
        r == asset_word(*a),
{
    match a {
        GMAssetReference::Object(r) => r.index & 0xFF_FFFF,
        GMAssetReference::Sprite(x) => (1u32 << 24u32) | (*x & 0xFF_FFFF),
        GMAssetReference::Sound(x) => (2u32 << 24u32) | (*x & 0xFF_FFFF),
        GMAssetReference::Room(x) => (3u32 << 24u32) | (*x & 0xFF_FFFF),
        GMAssetReference::Background(x) => (4u32 << 24u32) | (*x & 0xFF_FFFF),
        GMAssetReference::Path(x) => (5u32 << 24u32) | (*x & 0xFF_FFFF),
        GMAssetReference::Script(x) => (6u32 << 24u32) | (*x & 0xFF_FFFF),
        GMAssetReference::Font(x) => (7u32 << 24u32) | (*x & 0xFF_FFFF),
        GMAssetReference::Timeline(x) => (8u32 << 24u32) | (*x & 0xFF_FFFF),
        GMAssetReference::Shader(x) => (9u32 << 24u32) | (*x & 0xFF_FFFF),
        GMAssetReference::Sequence(x) => (10u32 << 24u32) | (*x & 0xFF_FFFF),
        GMAssetReference::AnimCurve(x) => (11u32 << 24u32) | (*x & 0xFF_FFFF),
        GMAssetReference::ParticleSystem(x) => (12u32 << 24u32) | (*x & 0xFF_FFFF),
        GMAssetReference::RoomInstance(id) => (13u32 << 24u32) | ((*id as u32) & 0xFF_FFFF),
        GMAssetReference::Function(_) => 0,
    }
}

/// `after` is `before` with a function reference to `index` at `pos` written after the
/// bytes `mid` (which replaced `before`'s bytes).
pub open spec fn function_linked(before: DataBuilder, mid: Seq<u8>, after: DataBuilder, index: u32, pos: usize) -> bool {
    let chain = before.function_occurrences@[index as int]@;
    &&& after.bytes@ == link_function_chain(mid, chain, pos)
        + u32_le_bytes(before.function_name_ids@[index as int] & 0x07FF_FFFFu32)
    &&& after.function_occurrences@ == before.function_occurrences@.update(index as int, after.function_occurrences@[index as int])
    &&& after.function_occurrences@[index as int]@ == chain.push(pos)
    &&& same_but_functions(after, before)
}

/// `after` is `before` with a variable reference to `index` at `pos` written after the
/// bytes `mid`.
pub open spec fn variable_linked(
    before: DataBuilder,
    mid: Seq<u8>,
    after: DataBuilder,
    index: u32,
    pos: usize,
    variable_type: GMVariableType,
) -> bool {
    let chain = before.variable_occurrences@[index as int]@;
    &&& after.bytes@ == link_variable_chain(mid, chain, pos)
        + u32_le_bytes(link_word(before.variable_name_ids@[index as int], variable_type))
    &&& after.variable_occurrences@ == before.variable_occurrences@.update(index as int, after.variable_occurrences@[index as int])
    &&& after.variable_occurrences@[index as int]@ == chain.push((pos, variable_type))
    &&& same_but_variables(after, before)
}

/// A reference to variable `index` can be linked once the bytes have length `len`.
pub open spec fn variable_linkable(b: DataBuilder, index: u32, len: int) -> bool {
    &&& index < b.variable_name_ids@.len()
    &&& index < b.variable_occurrences@.len()
    &&& can_link(b.variable_occurrences@[index as int]@, len)
}

/// A reference to function `index` can be linked once the bytes have length `len`.
pub open spec fn function_linkable(b: DataBuilder, index: u32, len: int) -> bool {
    &&& index < b.function_name_ids@.len()
    &&& index < b.function_occurrences@.len()
    &&& {
        let chain = b.function_occurrences@[index as int]@;
        chain.len() == 0 || chain.last() + 8 <= len
    }
}

/// `after` is `before` once the reference-free operand `operand` was written after `mid`, or
/// once the reference made at `pos` was linked; `ok` says whether that succeeded.
pub open spec fn operand_written(
    before: DataBuilder,
    mid: Seq<u8>,
    after: DataBuilder,
    variable_ref: Option<(u32, GMVariableType)>,
    function_ref: Option<u32>,
    pos: usize,
    operand: Seq<u8>,
    ok: bool,
) -> bool {
    match variable_ref {
        Some((index, vt)) => {
            &&& ok <==> variable_linkable(before, index, mid.len() as int)
            &&& ok ==> variable_linked(before, mid, after, index, pos, vt)
            &&& !ok ==> after.bytes@ == mid && after.same_meta(&before)
        },
        None => match function_ref {
            Some(index) => {
                &&& ok <==> function_linkable(before, index, mid.len() as int)
                &&& ok ==> function_linked(before, mid, after, index, pos)
                &&& !ok ==> after.bytes@ == mid && after.same_meta(&before)
            },
            None => ok && after.bytes@ == mid + operand && after.same_meta(&before),
        },
    }
}

impl GMAssetReference {
    /// Writes the reference word; a function reference is written as a link of the function's
    /// occurrence chain, positioned at the current end.
    pub fn serialize(&self, builder: &mut DataBuilder) -> (r: Result<(), String>)
        ensures
            operand_written(
                *old(builder),
                old(builder).bytes@,
                *final(builder),
                None,
                match *self { GMAssetReference::Function(f) => Some(f.index), _ => None },
                old(builder).bytes@.len() as usize,
                u32_le_bytes(asset_word(*self)),
                r is Ok,
            ),
    {
        match self {
            GMAssetReference::Function(f) => {
                let pos = builder.len();
                write_function_ref(builder, f.index, pos)
            },
            _ => {
                let raw = asset_word_exec(self);
                builder.write_u32(raw);
                Ok(())
            },
        }
    }
}

/// Writes the operand of a push instruction at `pos`.
fn write_value(builder: &mut DataBuilder, value: &GMCodeValue, pos: usize) -> (r: Result<(), String>)
    ensures
        operand_written(
            *old(builder),
            old(builder).bytes@,
            *final(builder),
            value_variable_ref(*value),
            value_function_ref(*value),
            pos,
            value_operand(*value, 0),
            r is Ok,
        ),
{
    match value {
        GMCodeValue::Int16(_) => {
            assert(builder.bytes@ =~= old(builder).bytes@ + value_operand(*value, 0));
            Ok(())
        },
        GMCodeValue::Int32(x) => {
            builder.write_i32(*x);
            Ok(())
        },
        GMCodeValue::Int64(x) => {
            builder.write_i64(*x);
            Ok(())
        },
        GMCodeValue::Double(bits) => {
            builder.write_u64(*bits);
            Ok(())
        },
        GMCodeValue::Boolean(b) => {
            builder.write_bool32(*b);
            Ok(())
        },
        GMCodeValue::String(s) => {
            builder.write_u32(s.index);
            Ok(())
        },
        GMCodeValue::Variable(cv) => write_variable_ref(builder, cv, pos),
        GMCodeValue::Function(f) => write_function_ref(builder, f.index, pos),
    }
}

/// Where a reference made by an instruction at `pos` is recorded: a function pushed by
/// `pushref` is recorded at its operand word.
pub open spec fn occurrence_pos(i: GMInstruction, pos: usize) -> usize {
    match i {
        GMInstruction::PushReference(_) => (pos + 4) as usize,
        _ => pos,
    }
}

/// `after` is `before` once instruction `i` was written at its end; `ok` says whether its
/// reference (if any) could be linked.
pub open spec fn instruction_written(before: DataBuilder, after: DataBuilder, i: GMInstruction, ok: bool) -> bool {
    let pos = before.bytes@.len() as usize;
    let mid = before.bytes@ + word_bytes(spec_encode_word(i, before.bytecode_version));
    operand_written(
        before,
        mid,
        after,
        spec_variable_ref(i),
        spec_function_ref(i),
        occurrence_pos(i, pos),
        spec_encode_operand(i, 0),
        ok,
    )
}

impl GMInstruction {
    /// Writes the instruction at the builder's end, linking the variable or function it
    /// references into that one's occurrence chain.
    pub fn serialize(&self, builder: &mut DataBuilder) -> (r: Result<(), String>)
        requires
            old(builder).bytes@.len() + 4 <= usize::MAX,
        ensures
            instruction_written(*old(builder), *final(builder), *self, r is Ok),
    {
        let pos = builder.len();
        let w = encode_word(self, builder.bytecode_version);
        builder.write_u8(w.0);
        builder.write_u8(w.1);
        builder.write_u8(w.2);
        builder.write_u8(w.3);
        assert(builder.bytes@ =~= old(builder).bytes@ + word_bytes(w));
        match self {
            GMInstruction::Pop(p) => write_variable_ref(builder, &p.destination, pos),
            GMInstruction::Push(p) | GMInstruction::PushLocal(p) | GMInstruction::PushGlobal(p)
            | GMInstruction::PushBuiltin(p) => write_value(builder, &p.value, pos),
            GMInstruction::Call(c) => write_function_ref(builder, c.function.index, pos),
            GMInstruction::PushReference(a) => a.serialize(builder),
            _ => {
                assert(builder.bytes@ =~= old(builder).bytes@ + word_bytes(w) + spec_encode_operand(*self, 0));
                Ok(())
            },
        }
    }
}

/// Writes an extended instruction with a 16-bit kind: the kind, the `Int16` data type and the
/// extended opcode.
pub fn build_extended16(builder: &mut DataBuilder, kind: i16)
    ensures
        final(builder).appended(old(builder), u16_le_bytes(kind as u16) + seq![data_type_code(GMDataType::Int16), OP_EXTENDED]),
{
    builder.write_i16(kind);
    builder.write_u8(GMDataType::Int16.to_u8());
    builder.write_u8(OP_EXTENDED);
    assert(builder.bytes@ =~= old(builder).bytes@ + (u16_le_bytes(kind as u16) + seq![data_type_code(GMDataType::Int16), OP_EXTENDED]));
}

} // verus!
