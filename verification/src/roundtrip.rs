//! Decoding what the encoder writes gives the instruction back.

use vstd::prelude::*;
use crate::bytes::{le32, lemma_u32_bytes, lemma_u64_bytes, spec_u32_at, spec_u64_at, u32_le_bytes, u64_le_bytes};
use crate::code::{
    data_type_code, data_type_of_code, instance_type_encodable, GMCodeValue, GMDataType,
    GMInstanceType, GMVariableType,
};
use crate::encode::{
    asset_word, link_word, spec_encode_operand, spec_encode_word, spec_function_ref,
    spec_variable_ref, value_operand, word_bytes,
};
use crate::instructions::{
    spec_decode_body, spec_decode_instruction, spec_opcode_new_to_old, spec_opcode_of,
    spec_opcode_old_to_new, spec_instruction_size, GMAssetReference, GMInstruction,
};
use crate::reader::{DataReader, RESOURCE_FAILSAFE_COUNT};

verus! {

/// A jump offset fits the bits the encoding gives it.
pub open spec fn jump_encodable(jump_offset: i32, bv: u8) -> bool {
    if bv > 14 {
        -0x40_0000 <= jump_offset < 0x40_0000
    } else {
        -0x80_0000 <= jump_offset < 0x80_0000
    }
}

/// A pushed value survives encoding: a string index is plausible, an Int32 variable has the
/// default type and instance, and another variable's instance type can be encoded.
pub open spec fn value_encodable(v: GMCodeValue) -> bool {
    match v {
        GMCodeValue::String(r) => r.index < RESOURCE_FAILSAFE_COUNT,
        GMCodeValue::Variable(cv) => if cv.is_int32 {
            cv.variable_type == GMVariableType::Normal && cv.instance_type == GMInstanceType::Undefined
        } else {
            instance_type_encodable(cv.instance_type, cv.variable_type)
        },
        _ => true,
    }
}

/// An asset index fits in 24 bits.
pub open spec fn asset_encodable(a: GMAssetReference) -> bool {
    match a {
        GMAssetReference::Object(r) => r.index < 0x100_0000,
        GMAssetReference::Sprite(x) => x < 0x100_0000,
        GMAssetReference::Sound(x) => x < 0x100_0000,
        GMAssetReference::Room(x) => x < 0x100_0000,
        GMAssetReference::Background(x) => x < 0x100_0000,
        GMAssetReference::Path(x) => x < 0x100_0000,
        GMAssetReference::Script(x) => x < 0x100_0000,
        GMAssetReference::Font(x) => x < 0x100_0000,
        GMAssetReference::Timeline(x) => x < 0x100_0000,
        GMAssetReference::Shader(x) => x < 0x100_0000,
        GMAssetReference::Sequence(x) => x < 0x100_0000,
        GMAssetReference::AnimCurve(x) => x < 0x100_0000,
        GMAssetReference::ParticleSystem(x) => x < 0x100_0000,
        GMAssetReference::RoomInstance(id) => 0 <= id < 0x100_0000,
        GMAssetReference::Function(_) => true,
    }
}

/// The instructions whose encoding under bytecode version `bv` decodes to themselves.
/// Left out: `PopSwap` (written with a type byte the decoder does not take for it), a
/// `DuplicateSwap` whose second size is 0 (read as a `Duplicate`), jumps out of range, the
/// bytecode 14 `popenv` whose offset spells the exit marker, a `pop` whose type byte is that
/// of `PopSwap`, and, before bytecode 15, the
/// instructions that version has no opcode of their own for.
pub open spec fn instruction_encodable(i: GMInstruction, bv: u8) -> bool {
    match i {
        GMInstruction::PopSwap(_) => false,
        GMInstruction::DuplicateSwap(d) => d.size2 != 0,
        GMInstruction::Branch(g) => jump_encodable(g.jump_offset, bv),
        GMInstruction::BranchIf(g) => jump_encodable(g.jump_offset, bv),
        GMInstruction::BranchUnless(g) => jump_encodable(g.jump_offset, bv),
        GMInstruction::PushWithContext(g) => jump_encodable(g.jump_offset, bv),
        GMInstruction::PopWithContext(g) => jump_encodable(g.jump_offset, bv) && !(bv <= 14
            && g.jump_offset == -0x10_0000),
        GMInstruction::Push(p) => value_encodable(p.value),
        GMInstruction::PushLocal(p) => bv >= 15 && value_encodable(p.value),
        GMInstruction::PushGlobal(p) => bv >= 15 && value_encodable(p.value),
        GMInstruction::PushBuiltin(p) => bv >= 15 && value_encodable(p.value),
        GMInstruction::PushImmediate(_) => bv >= 15,
        GMInstruction::Pop(p) => {
            &&& !p.destination.is_int32
            &&& instance_type_encodable(p.destination.instance_type, p.destination.variable_type)
            &&& !(p.type1 == GMDataType::Int16 && p.type2 == GMDataType::Double)
        },
        GMInstruction::PushReference(a) => asset_encodable(a),
        _ => true,
    }
}

proof fn lemma_split_word(a: u8, b: u8, c: u8, d: u8)
    by (bit_vector)
    ensures
        ((a + b * 0x100 + c * 0x10000 + d * 0x1000000) as u32 & 0xff) as u8 == a,
        (((a + b * 0x100 + c * 0x10000 + d * 0x1000000) as u32 >> 8u32) & 0xff) as u8 == b,
        (((a + b * 0x100 + c * 0x10000 + d * 0x1000000) as u32 >> 16u32) & 0xff) as u8 == c,
        ((a + b * 0x100 + c * 0x10000 + d * 0x1000000) as u32 >> 24u32) as u8 == d,
{
}

/// The four bytes of an instruction word are read back from it.
proof fn lemma_word_read(s: Seq<u8>, p: int, w: (u8, u8, u8, u8))
    requires
        0 <= p,
        p + 4 <= s.len(),
        s.subrange(p, p + 4) == word_bytes(w),
    ensures
        (spec_u32_at(s, p) & 0xff) as u8 == w.0,
        ((spec_u32_at(s, p) >> 8u32) & 0xff) as u8 == w.1,
        ((spec_u32_at(s, p) >> 16u32) & 0xff) as u8 == w.2,
        (spec_u32_at(s, p) >> 24u32) as u8 == w.3,
{
    assert(s[p] == s.subrange(p, p + 4)[0]);
    assert(s[p + 1] == s.subrange(p, p + 4)[1]);
    assert(s[p + 2] == s.subrange(p, p + 4)[2]);
    assert(s[p + 3] == s.subrange(p, p + 4)[3]);
    lemma_split_word(w.0, w.1, w.2, w.3);
}

/// A 32-bit value written at `q` is read back.
pub proof fn lemma_u32_at(s: Seq<u8>, q: int, v: u32)
    requires
        0 <= q,
        q + 4 <= s.len(),
        s.subrange(q, q + 4) == u32_le_bytes(v),
    ensures
        spec_u32_at(s, q) == v,
{
    lemma_u32_bytes(v);
    let b = u32_le_bytes(v);
    assert(s[q] == b[0] && s[q + 1] == b[1] && s[q + 2] == b[2] && s[q + 3] == b[3]) by {
        assert(s[q] == s.subrange(q, q + 4)[0]);
        assert(s[q + 1] == s.subrange(q, q + 4)[1]);
        assert(s[q + 2] == s.subrange(q, q + 4)[2]);
        assert(s[q + 3] == s.subrange(q, q + 4)[3]);
    }
    assert(le32(s, q) == le32(b, 0));
}

/// A 64-bit value written at `q` is read back.
pub proof fn lemma_u64_at(s: Seq<u8>, q: int, v: u64)
    requires
        0 <= q,
        q + 8 <= s.len(),
        s.subrange(q, q + 8) == u64_le_bytes(v),
    ensures
        spec_u64_at(s, q) == v,
{
    lemma_u64_bytes(v);
    let b = u64_le_bytes(v);
    assert forall|k: int| 0 <= k < 8 implies s[q + k] == b[k] by {
        assert(s[q + k] == s.subrange(q, q + 8)[k]);
    }
    assert(le32(s, q) == le32(b, 0));
    assert(le32(s, q + 4) == le32(b, 4));
}

/// Reading an instruction word that the encoder wrote recovers its opcode and operand bytes.
proof fn lemma_decode_word<'a>(r: DataReader<'a>, i: GMInstruction)
    requires
        r.wf(),
        r.can_read(4),
        r.ahead(4) == word_bytes(spec_encode_word(i, r.bytecode_version)),
        instruction_encodable(i, r.bytecode_version),
    ensures
        ({
            let w = spec_encode_word(i, r.bytecode_version);
            spec_decode_instruction(r) == spec_decode_body(
                r.moved(r.cur_pos + 4),
                spec_opcode_of(i),
                w.0,
                w.1,
                w.2,
            )
        }),
{
    let w = spec_encode_word(i, r.bytecode_version);
    lemma_word_read(r.data@, r.cur_pos as int, w);
    lemma_opcode_byte(i, r.bytecode_version);
}

/// The opcode byte of an encodable instruction maps back to its opcode, and a bytecode 14
/// comparison carries its comparison type in the opcode byte.
proof fn lemma_opcode_byte(i: GMInstruction, bv: u8)
    requires
        instruction_encodable(i, bv),
    ensures
        ({
            let w = spec_encode_word(i, bv);
            &&& (if bv < 15 { spec_opcode_old_to_new(w.3) } else { w.3 }) == spec_opcode_of(i)
            &&& (bv < 15 && 0x10 <= w.3 <= 0x16) ==> (w.3 - 0x10) as u8 == w.1
        }),
{
    match i {
        GMInstruction::Compare(c) => {
            crate::code::lemma_comparison_type_code_roundtrip(c.comparison_type);
        },
        _ => {},
    }
}

proof fn lemma_nibbles(a: u8, b: u8)
    by (bit_vector)
    requires
        a < 16,
        b < 16,
    ensures
        ((a | (b << 4u8)) as u8 & 0xf) == a,
        ((a | (b << 4u8)) as u8 >> 4u8) == b,
        a & 0xf == a,
        a >> 4u8 == 0,
        (a | (b << 4u8)) as u8 == 0x0F ==> a == 15 && b == 0,
{
}

proof fn lemma_halves(v: u16, x: i16)
    by (bit_vector)
    ensures
        ((((v & 0xff) as u8) as u16) | (((((v >> 8u16) & 0xff) as u8) as u16) << 8u16)) as u16 == v,
        ((x as u16) as i16) == x,
{
}

proof fn lemma_type_pair(lo: GMDataType, hi: GMDataType)
    ensures
        crate::instructions::spec_lo_type(crate::encode::type_pair(lo, hi)) == Some(lo),
        crate::instructions::spec_hi_type(crate::encode::type_pair(lo, hi)) == Some(hi),
{
    crate::code::lemma_data_type_code_roundtrip(lo);
    crate::code::lemma_data_type_code_roundtrip(hi);
    lemma_nibbles(data_type_code(lo), data_type_code(hi));
}

proof fn lemma_single_type(t: GMDataType)
    ensures
        crate::instructions::spec_lo_type(data_type_code(t)) == Some(t),
        data_type_code(t) >> 4u8 == 0,
        data_type_of_code(data_type_code(t)) == Some(t),
{
    crate::code::lemma_data_type_code_roundtrip(t);
    lemma_nibbles(data_type_code(t), 0);
}

proof fn lemma_goto_fits(j: i32, bv: u8)
    by (bit_vector)
    requires
        bv > 14 ==> -0x40_0000 <= j < 0x40_0000,
        bv <= 14 ==> -0x80_0000 <= j < 0x80_0000,
    ensures
        ({
            let v0 = (j as u32) & 0x00FF_FFFFu32;
            let v = if bv > 14 && (v0 & 0x80_0000u32) != 0 { (v0 & !0x80_0000u32) | 0x40_0000u32 } else { v0 };
            let b0 = (v & 0xff) as u8;
            let b1 = ((v >> 8u32) & 0xff) as u8;
            let b2 = ((v >> 16u32) & 0xff) as u8;
            let w0: u32 = (b0 as u32) | ((b1 as u32) << 8u32) | ((b2 as u32) << 16u32);
            let w: u32 = if bv > 14 && (w0 & 0x400000) != 0 { w0 | 0x800000 } else { w0 };
            (if w & 0x800000 != 0 { (w | 0xFF000000) as i32 } else { w as i32 }) == j
        }),
{
}

/// A jump offset in range survives encoding.
proof fn lemma_goto_roundtrip(j: i32, bv: u8)
    requires
        jump_encodable(j, bv),
    ensures
        ({
            let w = crate::encode::goto_word(crate::encode::goto_bits(j, bv), 0);
            crate::instructions::spec_goto(w.0, w.1, w.2, bv) == j
        }),
{
    lemma_goto_fits(j, bv);
}

/// The instructions held entirely in their instruction word.
pub open spec fn word_only(i: GMInstruction) -> bool {
    match i {
        GMInstruction::Pop(_) | GMInstruction::PopSwap(_) | GMInstruction::Push(_)
        | GMInstruction::PushLocal(_) | GMInstruction::PushGlobal(_) | GMInstruction::PushBuiltin(_)
        | GMInstruction::Call(_) | GMInstruction::PushReference(_) => false,
        GMInstruction::CheckArrayIndex | GMInstruction::PushArrayFinal | GMInstruction::PopArrayFinal
        | GMInstruction::PushArrayContainer | GMInstruction::SetArrayOwner
        | GMInstruction::HasStaticInitialized | GMInstruction::SetStaticInitialized
        | GMInstruction::SaveArrayReference | GMInstruction::RestoreArrayReference
        | GMInstruction::IsNullishValue => false,
        _ => true,
    }
}

/// Arithmetic and comparison instructions decode from their word.
#[verifier::spinoff_prover]
#[verifier::rlimit(40)]
proof fn lemma_body_arithmetic<'a>(r: DataReader<'a>, i: GMInstruction)
    requires
        instruction_encodable(i, r.bytecode_version),
        crate::instructions::spec_decode_arithmetic(spec_opcode_of(i), 0, 0, 0) is Some,
    ensures
        ({
            let w = spec_encode_word(i, r.bytecode_version);
            spec_decode_body(r, spec_opcode_of(i), w.0, w.1, w.2) == Some((i, r.cur_pos))
        }),
{
    match i {
        GMInstruction::Convert(d) | GMInstruction::Multiply(d) | GMInstruction::Divide(d)
        | GMInstruction::Remainder(d) | GMInstruction::Modulus(d) | GMInstruction::Add(d)
        | GMInstruction::Subtract(d) | GMInstruction::And(d) | GMInstruction::Or(d)
        | GMInstruction::Xor(d) | GMInstruction::ShiftLeft(d) | GMInstruction::ShiftRight(d) => {
            lemma_type_pair(d.right, d.left);
        },
        GMInstruction::Negate(t) | GMInstruction::Not(t) => {
            lemma_single_type(t.data_type);
        },
        GMInstruction::Compare(c) => {
            lemma_type_pair(c.type1, c.type2);
            crate::code::lemma_comparison_type_code_roundtrip(c.comparison_type);
        },
        _ => {},
    }
}

/// Stack and control flow instructions decode from their word.
proof fn lemma_body_control<'a>(r: DataReader<'a>, i: GMInstruction)
    requires
        instruction_encodable(i, r.bytecode_version),
        word_only(i),
        crate::instructions::spec_decode_arithmetic(spec_opcode_of(i), 0, 0, 0) is None,
    ensures
        ({
            let w = spec_encode_word(i, r.bytecode_version);
            spec_decode_body(r, spec_opcode_of(i), w.0, w.1, w.2) == Some((i, r.cur_pos))
        }),
{
    let bv = r.bytecode_version;
    match i {
        GMInstruction::Return(t) | GMInstruction::PopDiscard(t) => {
            lemma_single_type(t.data_type);
        },
        GMInstruction::Duplicate(d) => {
            lemma_single_type(d.data_type);
        },
        GMInstruction::DuplicateSwap(d) => {
            lemma_single_type(d.data_type);
        },
        GMInstruction::Branch(g) | GMInstruction::BranchIf(g) | GMInstruction::BranchUnless(g)
        | GMInstruction::PushWithContext(g) => {
            lemma_goto_roundtrip(g.jump_offset, bv);
        },
        GMInstruction::PopWithContext(g) => {
            lemma_goto_roundtrip(g.jump_offset, bv);
            lemma_goto_not_exit(g.jump_offset, bv);
        },
        GMInstruction::PushImmediate(v) => {
            lemma_halves(v as u16, v);
        },
        GMInstruction::CallVariable(c) => {
            lemma_halves(c.argument_count, 0);
            lemma_single_type(c.data_type);
        },
        _ => {},
    }
}

/// No jump offset in range other than the bytecode 14 one left out is written as the
/// `popenv` exit marker.
proof fn lemma_goto_not_exit(j: i32, bv: u8)
    by (bit_vector)
    requires
        bv > 14 ==> -0x40_0000 <= j < 0x40_0000,
        bv <= 14 ==> -0x80_0000 <= j < 0x80_0000 && j != -0x10_0000,
    ensures
        ({
            let v0 = (j as u32) & 0x00FF_FFFFu32;
            let v = if bv > 14 && (v0 & 0x80_0000u32) != 0 { (v0 & !0x80_0000u32) | 0x40_0000u32 } else { v0 };
            !(((v & 0xff) as u8) == 0 && (((v >> 8u32) & 0xff) as u8) == 0 && (((v >> 16u32) & 0xff) as u8) == 0xF0)
        }),
{
}

proof fn lemma_sign_casts(y: i32, z: i64)
    by (bit_vector)
    ensures
        ((y as u32) as i32) == y,
        ((z as u64) as i64) == z,
{
}

proof fn lemma_link_bits(link: u32, c: u8)
    by (bit_vector)
    requires
        c & 0xF8 == c,
    ensures
        ((((link & 0x07FF_FFFFu32) | (((c & 0xF8u8) as u32) << 24u32)) >> 24u32) & 0xF8) as u8 == c,
{
}

proof fn lemma_asset_bits(k: u32, x: u32)
    by (bit_vector)
    requires
        k < 256,
        x < 0x100_0000,
    ensures
        ((k << 24u32) | (x & 0xFF_FFFFu32)) & 0xFF_FFFFu32 == x,
        (((k << 24u32) | (x & 0xFF_FFFFu32)) >> 24u32) as u8 == k,
        (x & 0xFF_FFFFu32) & 0xFF_FFFFu32 == x,
        ((x & 0xFF_FFFFu32) >> 24u32) as u8 == 0,
{
}

/// The occurrence maps hold, at `key`, exactly the variable or function that `i` references.
pub open spec fn occurrences_recorded<'a>(r: DataReader<'a>, i: GMInstruction, key: u32) -> bool {
    &&& match spec_variable_ref(i) {
        Some((index, _)) => r.variable_occurrences@.contains_key(key) && r.variable_occurrences@[key] == index,
        None => !r.variable_occurrences@.contains_key(key),
    }
    &&& match spec_function_ref(i) {
        Some(index) => r.function_occurrences@.contains_key(key) && r.function_occurrences@[key] == index,
        None => !r.function_occurrences@.contains_key(key),
    }
}

/// The words after an instruction word are the operand written for `i`.
pub open spec fn operand_at<'a>(r: DataReader<'a>, i: GMInstruction, link: u32) -> bool {
    let n = spec_encode_operand(i, link).len() as int;
    &&& r.can_read(n)
    &&& r.ahead(n) == spec_encode_operand(i, link)
}

/// A variable reference written with type `vt` and instance `it` is read back.
proof fn lemma_read_variable<'a>(
    r: DataReader<'a>,
    cv: crate::code::CodeVariable,
    link: u32,
)
    requires
        r.wf(),
        r.can_read(4),
        r.ahead(4) == u32_le_bytes(link_word(link, cv.variable_type)),
        !cv.is_int32,
        instance_type_encodable(cv.instance_type, cv.variable_type),
        r.variable_occurrences@.contains_key(r.cur_pos),
        r.variable_occurrences@[r.cur_pos] == cv.variable.index,
    ensures
        crate::instructions::spec_read_variable(
            r,
            crate::code::instance_type_code(cv.instance_type),
        ) == Some((cv, (r.cur_pos + 4) as u32)),
{
    lemma_u32_at(r.data@, r.cur_pos as int, link_word(link, cv.variable_type));
    crate::code::lemma_variable_type_code_roundtrip(cv.variable_type);
    lemma_link_bits(link, crate::code::variable_type_code(cv.variable_type));
    crate::code::lemma_instance_type_roundtrip(cv.instance_type, cv.variable_type);
    crate::refs::lemma_gm_ref_eq(
        crate::refs::gm_ref::<crate::elements::variables::GMVariable>(cv.variable.index),
        cv.variable,
    );
}

/// `pop` decodes from its word and operand.
proof fn lemma_body_pop<'a>(r: DataReader<'a>, i: GMInstruction, link: u32)
    requires
        r.wf(),
        i is Pop,
        instruction_encodable(i, r.bytecode_version),
        operand_at(r, i, link),
        occurrences_recorded(r, i, r.cur_pos),
    ensures
        ({
            let w = spec_encode_word(i, r.bytecode_version);
            spec_decode_body(r, spec_opcode_of(i), w.0, w.1, w.2) == Some((i, (r.cur_pos + 4) as u32))
        }),
{
    match i {
        GMInstruction::Pop(p) => {
            lemma_type_pair(p.type1, p.type2);
            let code = crate::code::instance_type_code(p.destination.instance_type);
            lemma_halves(code as u16, code);
            lemma_read_variable(r, p.destination, link);
            crate::code::lemma_data_type_code_roundtrip(p.type1);
            crate::code::lemma_data_type_code_roundtrip(p.type2);
            assert(crate::encode::type_pair(p.type1, p.type2) != 0x0F) by {
                lemma_nibbles(data_type_code(p.type1), data_type_code(p.type2));
            }
        },
        _ => {},
    }
}

/// The value operand of a push decodes to the value.
proof fn lemma_push_value<'a>(r: DataReader<'a>, v: GMCodeValue, link: u32)
    requires
        r.wf(),
        value_encodable(v),
        r.can_read(value_operand(v, link).len() as int),
        r.ahead(value_operand(v, link).len() as int) == value_operand(v, link),
        match crate::encode::value_variable_ref(v) {
            Some((index, _)) => r.variable_occurrences@.contains_key(r.cur_pos)
                && r.variable_occurrences@[r.cur_pos] == index,
            None => !r.variable_occurrences@.contains_key(r.cur_pos),
        },
        match crate::encode::value_function_ref(v) {
            Some(index) => r.function_occurrences@.contains_key(r.cur_pos)
                && r.function_occurrences@[r.cur_pos] == index,
            None => !r.function_occurrences@.contains_key(r.cur_pos),
        },
    ensures
        ({
            let f = crate::encode::push_field(v) as u16;
            crate::instructions::spec_push(
                r,
                crate::encode::lo_byte(f),
                crate::encode::hi_byte(f),
                data_type_code(crate::code::spec_value_data_type(v)),
            ) == Some((crate::instructions::GMPushInstruction { value: v }, (r.cur_pos + value_operand(v, link).len()) as u32))
        }),
{
    let f = crate::encode::push_field(v);
    lemma_halves(f as u16, f);
    lemma_single_type(crate::code::spec_value_data_type(v));
    let p = r.cur_pos as int;
    match v {
        GMCodeValue::Int32(x) => {
            lemma_u32_at(r.data@, p, x as u32);
            lemma_sign_casts(x, 0);
        },
        GMCodeValue::Int64(x) => {
            lemma_u64_at(r.data@, p, x as u64);
            lemma_sign_casts(0, x);
        },
        GMCodeValue::Double(bits) => {
            lemma_u64_at(r.data@, p, bits);
        },
        GMCodeValue::Boolean(b) => {
            lemma_u32_at(r.data@, p, if b { 1u32 } else { 0u32 });
        },
        GMCodeValue::String(s) => {
            lemma_u32_at(r.data@, p, s.index);
            crate::refs::lemma_gm_ref_eq(crate::refs::gm_ref::<String>(s.index), s);
        },
        GMCodeValue::Variable(cv) => {
            if cv.is_int32 {
                crate::refs::lemma_gm_ref_eq(
                    crate::refs::gm_ref::<crate::elements::variables::GMVariable>(cv.variable.index),
                    cv.variable,
                );
            } else {
                lemma_read_variable(r, cv, link);
            }
        },
        GMCodeValue::Function(fr) => {
            crate::refs::lemma_gm_ref_eq(
                crate::refs::gm_ref::<crate::elements::functions::GMFunction>(fr.index),
                fr,
            );
        },
        _ => {},
    }
}

/// Push, call and extended instructions decode from their word and operand.
proof fn lemma_body_operands<'a>(r: DataReader<'a>, i: GMInstruction, link: u32)
    requires
        r.wf(),
        !word_only(i),
        !(i is Pop),
        instruction_encodable(i, r.bytecode_version),
        operand_at(r, i, link),
        occurrences_recorded(r, i, r.cur_pos),
    ensures
        ({
            let w = spec_encode_word(i, r.bytecode_version);
            spec_decode_body(r, spec_opcode_of(i), w.0, w.1, w.2)
                == Some((i, (r.cur_pos + spec_encode_operand(i, link).len()) as u32))
        }),
{
    match i {
        GMInstruction::Push(p) | GMInstruction::PushLocal(p) | GMInstruction::PushGlobal(p)
        | GMInstruction::PushBuiltin(p) => {
            lemma_push_value(r, p.value, link);
        },
        GMInstruction::Call(c) => {
            lemma_halves(c.argument_count, 0);
            crate::refs::lemma_gm_ref_eq(
                crate::refs::gm_ref::<crate::elements::functions::GMFunction>(c.function.index),
                c.function,
            );
        },
        GMInstruction::PushReference(a) => {
            lemma_halves((-11i16) as u16, -11i16);
            lemma_single_type(GMDataType::Int32);
            lemma_push_reference(r, a, link);
        },
        _ => {
            let k = crate::encode::extended_kind(i);
            lemma_halves(k as u16, k);
            lemma_single_type(GMDataType::Int16);
        },
    }
}

/// The operand of `pushref` decodes to the asset reference.
proof fn lemma_push_reference<'a>(r: DataReader<'a>, a: GMAssetReference, link: u32)
    requires
        r.wf(),
        asset_encodable(a),
        operand_at(r, GMInstruction::PushReference(a), link),
        occurrences_recorded(r, GMInstruction::PushReference(a), r.cur_pos),
    ensures
        crate::instructions::spec_read_asset_reference(r) == Some((a, (r.cur_pos + 4) as u32)),
{
    let p = r.cur_pos as int;
    match a {
        GMAssetReference::Function(f) => {
            crate::refs::lemma_gm_ref_eq(
                crate::refs::gm_ref::<crate::elements::functions::GMFunction>(f.index),
                f,
            );
        },
        GMAssetReference::Object(o) => {
            lemma_u32_at(r.data@, p, asset_word(a));
            lemma_asset_bits(0, o.index);
            crate::refs::lemma_gm_ref_eq(
                crate::refs::gm_ref::<crate::elements::game_objects::GMGameObject>(o.index),
                o,
            );
        },
        GMAssetReference::Sprite(x) => { lemma_u32_at(r.data@, p, asset_word(a)); lemma_asset_bits(1, x); },
        GMAssetReference::Sound(x) => { lemma_u32_at(r.data@, p, asset_word(a)); lemma_asset_bits(2, x); },
        GMAssetReference::Room(x) => { lemma_u32_at(r.data@, p, asset_word(a)); lemma_asset_bits(3, x); },
        GMAssetReference::Background(x) => { lemma_u32_at(r.data@, p, asset_word(a)); lemma_asset_bits(4, x); },
        GMAssetReference::Path(x) => { lemma_u32_at(r.data@, p, asset_word(a)); lemma_asset_bits(5, x); },
        GMAssetReference::Script(x) => { lemma_u32_at(r.data@, p, asset_word(a)); lemma_asset_bits(6, x); },
        GMAssetReference::Font(x) => { lemma_u32_at(r.data@, p, asset_word(a)); lemma_asset_bits(7, x); },
        GMAssetReference::Timeline(x) => { lemma_u32_at(r.data@, p, asset_word(a)); lemma_asset_bits(8, x); },
        GMAssetReference::Shader(x) => { lemma_u32_at(r.data@, p, asset_word(a)); lemma_asset_bits(9, x); },
        GMAssetReference::Sequence(x) => { lemma_u32_at(r.data@, p, asset_word(a)); lemma_asset_bits(10, x); },
        GMAssetReference::AnimCurve(x) => { lemma_u32_at(r.data@, p, asset_word(a)); lemma_asset_bits(11, x); },
        GMAssetReference::ParticleSystem(x) => { lemma_u32_at(r.data@, p, asset_word(a)); lemma_asset_bits(12, x); },
        GMAssetReference::RoomInstance(id) => {
            lemma_u32_at(r.data@, p, asset_word(a));
            lemma_asset_bits(13, id as u32);
        },
    }
}

/// The words after an instruction word make up the rest of its size.
proof fn lemma_operand_len(i: GMInstruction, link: u32)
    ensures
        spec_encode_operand(i, link).len() + 4 == 4 * spec_instruction_size(i),
{
}

/// Decoding an instruction that the encoder wrote gives the instruction back, with the
/// position just after it. `link` is what the occurrence link of a referencing instruction
/// holds by then (the name id in the last link of a chain, else the offset to the next
/// occurrence); the occurrence maps hold the reference at the word after the instruction word.
pub proof fn law_instruction_roundtrip<'a>(r: DataReader<'a>, i: GMInstruction, link: u32)
    requires
        r.wf(),
        instruction_encodable(i, r.bytecode_version),
        r.can_read(4 * spec_instruction_size(i)),
        r.ahead(4 * spec_instruction_size(i)) == word_bytes(spec_encode_word(i, r.bytecode_version))
            + spec_encode_operand(i, link),
        occurrences_recorded(r, i, (r.cur_pos + 4) as u32),
    ensures
        spec_decode_instruction(r) == Some((i, (r.cur_pos + 4 * spec_instruction_size(i)) as u32)),
{
    let bv = r.bytecode_version;
    let p = r.cur_pos as int;
    let w = word_bytes(spec_encode_word(i, bv));
    let operand = spec_encode_operand(i, link);
    let n = 4 * spec_instruction_size(i);
    lemma_operand_len(i, link);
    assert(r.ahead(4) == w) by {
        assert(r.ahead(4) =~= r.ahead(n).subrange(0, 4));
        assert((w + operand).subrange(0, 4) =~= w);
    }
    let r2 = r.moved(p + 4);
    assert(r2.ahead(operand.len() as int) == operand) by {
        assert(r2.ahead(operand.len() as int) =~= r.ahead(n).subrange(4, n));
        assert((w + operand).subrange(4, n) =~= operand);
    }
    lemma_decode_word(r, i);
    if crate::instructions::spec_decode_arithmetic(spec_opcode_of(i), 0, 0, 0) is Some {
        lemma_body_arithmetic(r2, i);
    } else if word_only(i) {
        lemma_body_control(r2, i);
    } else if i is Pop {
        lemma_body_pop(r2, i, link);
    } else {
        lemma_body_operands(r2, i, link);
    }
}

} // verus!
