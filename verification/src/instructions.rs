//! Bytecode instructions and their binary encoding.

use vstd::prelude::*;
use crate::bytes::{spec_i32_at, spec_i64_at, spec_u32_at, spec_u64_at};
use crate::code::{
    data_type_of_code, instance_type_of_code, parse_instance_type, variable_type_of_code,
    comparison_type_of_code, CodeVariable, GMCodeValue, GMComparisonType, GMDataType,
    GMInstanceType, GMVariableType,
};
use crate::elements::functions::GMFunction;
use crate::elements::game_objects::GMGameObject;
use crate::reader::{DataReader, RESOURCE_FAILSAFE_COUNT};
use crate::refs::{gm_ref, GMRef};

verus! {

broadcast use vstd::std_specs::hash::group_hash_axioms;

pub const OP_CONV: u8 = 0x07;
pub const OP_MUL: u8 = 0x08;
pub const OP_DIV: u8 = 0x09;
pub const OP_REM: u8 = 0x0A;
pub const OP_MOD: u8 = 0x0B;
pub const OP_ADD: u8 = 0x0C;
pub const OP_SUB: u8 = 0x0D;
pub const OP_AND: u8 = 0x0E;
pub const OP_OR: u8 = 0x0F;
pub const OP_XOR: u8 = 0x10;
pub const OP_NEG: u8 = 0x11;
pub const OP_NOT: u8 = 0x12;
pub const OP_SHL: u8 = 0x13;
pub const OP_SHR: u8 = 0x14;
pub const OP_CMP: u8 = 0x15;
pub const OP_POP: u8 = 0x45;
pub const OP_DUP: u8 = 0x86;
pub const OP_RET: u8 = 0x9C;
pub const OP_EXIT: u8 = 0x9D;
pub const OP_POPZ: u8 = 0x9E;
pub const OP_JMP: u8 = 0xB6;
pub const OP_JT: u8 = 0xB7;
pub const OP_JF: u8 = 0xB8;
pub const OP_PUSHENV: u8 = 0xBA;
pub const OP_POPENV: u8 = 0xBB;
pub const OP_PUSH: u8 = 0xC0;
pub const OP_PUSHLOC: u8 = 0xC1;
pub const OP_PUSHGLB: u8 = 0xC2;
pub const OP_PUSHBLTN: u8 = 0xC3;
pub const OP_PUSHIM: u8 = 0x84;
pub const OP_CALL: u8 = 0xD9;
pub const OP_CALLVAR: u8 = 0x99;
pub const OP_EXTENDED: u8 = 0xFF;

/// An instruction without operands.
#[derive(Clone, Copy, Debug, PartialEq, Eq, Structural)]
pub struct GMEmptyInstruction {}

#[derive(Clone, Copy, Debug, PartialEq, Eq, Structural)]
pub struct GMSingleTypeInstruction {
    pub data_type: GMDataType,
}

#[derive(Clone, Copy, Debug, PartialEq, Eq, Structural)]
pub struct GMCallVariableInstruction {
    pub data_type: GMDataType,
    pub argument_count: u16,
}

#[derive(Clone, Copy, Debug, PartialEq, Eq, Structural)]
pub struct GMDuplicateInstruction {
    pub data_type: GMDataType,
    pub size: u8,
}

#[derive(Clone, Copy, Debug, PartialEq, Eq, Structural)]
pub struct GMDuplicateSwapInstruction {
    pub data_type: GMDataType,
    pub size1: u8,
    pub size2: u8,
}

#[derive(Clone, Copy, Debug, PartialEq, Eq, Structural)]
pub struct GMPopSwapInstruction {
    pub size: u8,
}

#[derive(Clone, Copy, Debug, PartialEq, Eq, Structural)]
pub struct GMGotoInstruction {
    /// The offset of the jump target, in units of 4 bytes. Can be negative.
    pub jump_offset: i32,
}

/// The `popenv` variant that exits a `with` loop.
#[derive(Clone, Copy, Debug, PartialEq, Eq, Structural)]
pub struct GMPopenvExitMagicInstruction {}

#[derive(Clone, Copy, Debug, PartialEq, Eq, Structural)]
pub struct GMDoubleTypeInstruction {
    pub right: GMDataType,
    pub left: GMDataType,
}

#[derive(Clone, Copy, Debug, PartialEq, Eq, Structural)]
pub struct GMComparisonInstruction {
    pub comparison_type: GMComparisonType,
    pub type1: GMDataType,
    pub type2: GMDataType,
}

pub struct GMPopInstruction {
    pub type1: GMDataType,
    pub type2: GMDataType,
    pub destination: CodeVariable,
}

pub struct GMPushInstruction {
    pub value: GMCodeValue,
}

pub struct GMCallInstruction {
    pub argument_count: u16,
    pub function: GMRef<GMFunction>,
}

/// An asset reference pushed by `pushref`; the index is into the list of the asset's kind.
pub enum GMAssetReference {
    Object(GMRef<GMGameObject>),
    Sprite(u32),
    Sound(u32),
    Room(u32),
    Background(u32),
    Path(u32),
    Script(u32),
    Font(u32),
    Timeline(u32),
    Shader(u32),
    Sequence(u32),
    AnimCurve(u32),
    ParticleSystem(u32),
    RoomInstance(i32),
    /// A function reference (encoded through the function occurrence chain).
    Function(GMRef<GMFunction>),
}

/// A bytecode instruction.
pub enum GMInstruction {
    Convert(GMDoubleTypeInstruction),
    Multiply(GMDoubleTypeInstruction),
    Divide(GMDoubleTypeInstruction),
    Remainder(GMDoubleTypeInstruction),
    Modulus(GMDoubleTypeInstruction),
    Add(GMDoubleTypeInstruction),
    Subtract(GMDoubleTypeInstruction),
    And(GMDoubleTypeInstruction),
    Or(GMDoubleTypeInstruction),
    Xor(GMDoubleTypeInstruction),
    Negate(GMSingleTypeInstruction),
    Not(GMSingleTypeInstruction),
    ShiftLeft(GMDoubleTypeInstruction),
    ShiftRight(GMDoubleTypeInstruction),
    Compare(GMComparisonInstruction),
    Pop(GMPopInstruction),
    PopSwap(GMPopSwapInstruction),
    Duplicate(GMDuplicateInstruction),
    DuplicateSwap(GMDuplicateSwapInstruction),
    Return(GMSingleTypeInstruction),
    Exit(GMEmptyInstruction),
    PopDiscard(GMSingleTypeInstruction),
    Branch(GMGotoInstruction),
    BranchIf(GMGotoInstruction),
    BranchUnless(GMGotoInstruction),
    PushWithContext(GMGotoInstruction),
    PopWithContext(GMGotoInstruction),
    PopWithContextExit(GMPopenvExitMagicInstruction),
    Push(GMPushInstruction),
    PushLocal(GMPushInstruction),
    PushGlobal(GMPushInstruction),
    PushBuiltin(GMPushInstruction),
    PushImmediate(i16),
    Call(GMCallInstruction),
    CallVariable(GMCallVariableInstruction),
    CheckArrayIndex,
    PushArrayFinal,
    PopArrayFinal,
    PushArrayContainer,
    SetArrayOwner,
    HasStaticInitialized,
    SetStaticInitialized,
    SaveArrayReference,
    RestoreArrayReference,
    IsNullishValue,
    PushReference(GMAssetReference),
}

/// Bytecode 14 opcodes mapped to their current values.
pub open spec fn spec_opcode_old_to_new(opcode: u8) -> u8 {
    if opcode == 0x03 { 0x07 }
    else if opcode == 0x04 { 0x08 }
    else if opcode == 0x05 { 0x09 }
    else if opcode == 0x06 { 0x0A }
    else if opcode == 0x07 { 0x0B }
    else if opcode == 0x08 { 0x0C }
    else if opcode == 0x09 { 0x0D }
    else if opcode == 0x0A { 0x0E }
    else if opcode == 0x0B { 0x0F }
    else if opcode == 0x0C { 0x10 }
    else if opcode == 0x0D { 0x11 }
    else if opcode == 0x0E { 0x12 }
    else if opcode == 0x0F { 0x13 }
    else if opcode == 0x10 { 0x14 }
    else if opcode == 0x11 || opcode == 0x12 || opcode == 0x13 || opcode == 0x14 || opcode == 0x16 { 0x15 }
    else if opcode == 0x41 { 0x45 }
    else if opcode == 0x82 { 0x86 }
    else if opcode == 0xB7 { 0xB6 }
    else if opcode == 0xB8 { 0xB7 }
    else if opcode == 0xB9 { 0xB8 }
    else if opcode == 0xBB { 0xBA }
    else if opcode == 0x9D { 0x9C }
    else if opcode == 0x9E { 0x9D }
    else if opcode == 0x9F { 0x9E }
    else if opcode == 0xBC { 0xBB }
    else if opcode == 0xDA { 0xD9 }
    else { opcode }
}

/// Maps a bytecode 14 opcode to its current value.
pub fn opcode_old_to_new(opcode: u8) -> (r: u8)
    ensures
        r == spec_opcode_old_to_new(opcode),
{
    match opcode {
        0x03 => 0x07,
        0x04 => 0x08,
        0x05 => 0x09,
        0x06 => 0x0A,
        0x07 => 0x0B,
        0x08 => 0x0C,
        0x09 => 0x0D,
        0x0A => 0x0E,
        0x0B => 0x0F,
        0x0C => 0x10,
        0x0D => 0x11,
        0x0E => 0x12,
        0x0F => 0x13,
        0x10 => 0x14,
        0x11 | 0x12 | 0x13 | 0x14 | 0x16 => 0x15,
        0x41 => 0x45,
        0x82 => 0x86,
        0xB7 => 0xB6,
        0xB8 => 0xB7,
        0xB9 => 0xB8,
        0xBB => 0xBA,
        0x9D => 0x9C,
        0x9E => 0x9D,
        0x9F => 0x9E,
        0xBC => 0xBB,
        0xDA => 0xD9,
        _ => opcode,
    }
}

/// Current opcodes mapped to their bytecode 14 values.
pub open spec fn spec_opcode_new_to_old(opcode: u8) -> u8 {
    if opcode == 0x07 { 0x03 }
    else if opcode == 0x08 { 0x04 }
    else if opcode == 0x09 { 0x05 }
    else if opcode == 0x0A { 0x06 }
    else if opcode == 0x0B { 0x07 }
    else if opcode == 0x0C { 0x08 }
    else if opcode == 0x0D { 0x09 }
    else if opcode == 0x0E { 0x0A }
    else if opcode == 0x0F { 0x0B }
    else if opcode == 0x10 { 0x0C }
    else if opcode == 0x11 { 0x0D }
    else if opcode == 0x12 { 0x0E }
    else if opcode == 0x13 { 0x0F }
    else if opcode == 0x14 { 0x10 }
    else if opcode == 0x15 { 0 }
    else if opcode == 0x45 { 0x41 }
    else if opcode == 0x84 { 0xC0 }
    else if opcode == 0x86 { 0x82 }
    else if opcode == 0x9C { 0x9D }
    else if opcode == 0x9D { 0x9E }
    else if opcode == 0x9E { 0x9F }
    else if opcode == 0xB6 { 0xB7 }
    else if opcode == 0xB7 { 0xB8 }
    else if opcode == 0xB8 { 0xB9 }
    else if opcode == 0xBA { 0xBB }
    else if opcode == 0xBB { 0xBC }
    else if opcode == 0xD9 { 0xDA }
    else if opcode == 0xC1 || opcode == 0xC2 || opcode == 0xC3 { 0xC0 }
    else { opcode }
}

/// Maps a current opcode to its bytecode 14 value (comparisons are encoded separately).
pub fn opcode_new_to_old(opcode: u8) -> (r: u8)
    ensures
        r == spec_opcode_new_to_old(opcode),
{
    match opcode {
        0x07 => 0x03,
        0x08 => 0x04,
        0x09 => 0x05,
        0x0A => 0x06,
        0x0B => 0x07,
        0x0C => 0x08,
        0x0D => 0x09,
        0x0E => 0x0A,
        0x0F => 0x0B,
        0x10 => 0x0C,
        0x11 => 0x0D,
        0x12 => 0x0E,
        0x13 => 0x0F,
        0x14 => 0x10,
        0x15 => 0,
        0x45 => 0x41,
        0x84 => 0xC0,
        0x86 => 0x82,
        0x9C => 0x9D,
        0x9D => 0x9E,
        0x9E => 0x9F,
        0xB6 => 0xB7,
        0xB7 => 0xB8,
        0xB8 => 0xB9,
        0xBA => 0xBB,
        0xBB => 0xBC,
        0xD9 => 0xDA,
        0xC1 => 0xC0,
        0xC2 => 0xC0,
        0xC3 => 0xC0,
        _ => opcode,
    }
}

/// The (current) opcode of an instruction.
pub open spec fn spec_opcode_of(instruction: GMInstruction) -> u8 {
    match instruction {
        GMInstruction::Convert(_) => OP_CONV,
        GMInstruction::Multiply(_) => OP_MUL,
        GMInstruction::Divide(_) => OP_DIV,
        GMInstruction::Remainder(_) => OP_REM,
        GMInstruction::Modulus(_) => OP_MOD,
        GMInstruction::Add(_) => OP_ADD,
        GMInstruction::Subtract(_) => OP_SUB,
        GMInstruction::And(_) => OP_AND,
        GMInstruction::Or(_) => OP_OR,
        GMInstruction::Xor(_) => OP_XOR,
        GMInstruction::Negate(_) => OP_NEG,
        GMInstruction::Not(_) => OP_NOT,
        GMInstruction::ShiftLeft(_) => OP_SHL,
        GMInstruction::ShiftRight(_) => OP_SHR,
        GMInstruction::Compare(_) => OP_CMP,
        GMInstruction::Pop(_) => OP_POP,
        GMInstruction::PopSwap(_) => OP_POP,
        GMInstruction::Duplicate(_) => OP_DUP,
        GMInstruction::DuplicateSwap(_) => OP_DUP,
        GMInstruction::Return(_) => OP_RET,
        GMInstruction::Exit(_) => OP_EXIT,
        GMInstruction::PopDiscard(_) => OP_POPZ,
        GMInstruction::Branch(_) => OP_JMP,
        GMInstruction::BranchIf(_) => OP_JT,
        GMInstruction::BranchUnless(_) => OP_JF,
        GMInstruction::PushWithContext(_) => OP_PUSHENV,
        GMInstruction::PopWithContext(_) => OP_POPENV,
        GMInstruction::PopWithContextExit(_) => OP_POPENV,
        GMInstruction::Push(_) => OP_PUSH,
        GMInstruction::PushLocal(_) => OP_PUSHLOC,
        GMInstruction::PushGlobal(_) => OP_PUSHGLB,
        GMInstruction::PushBuiltin(_) => OP_PUSHBLTN,
        GMInstruction::PushImmediate(_) => OP_PUSHIM,
        GMInstruction::Call(_) => OP_CALL,
        GMInstruction::CallVariable(_) => OP_CALLVAR,
        _ => OP_EXTENDED,
    }
}

/// The (current) opcode of an instruction.
pub fn opcode_from_instruction(instruction: &GMInstruction) -> (r: u8)
    ensures
        r == spec_opcode_of(*instruction),
{
    match instruction {
        GMInstruction::Convert(_) => OP_CONV,
        GMInstruction::Multiply(_) => OP_MUL,
        GMInstruction::Divide(_) => OP_DIV,
        GMInstruction::Remainder(_) => OP_REM,
        GMInstruction::Modulus(_) => OP_MOD,
        GMInstruction::Add(_) => OP_ADD,
        GMInstruction::Subtract(_) => OP_SUB,
        GMInstruction::And(_) => OP_AND,
        GMInstruction::Or(_) => OP_OR,
        GMInstruction::Xor(_) => OP_XOR,
        GMInstruction::Negate(_) => OP_NEG,
        GMInstruction::Not(_) => OP_NOT,
        GMInstruction::ShiftLeft(_) => OP_SHL,
        GMInstruction::ShiftRight(_) => OP_SHR,
        GMInstruction::Compare(_) => OP_CMP,
        GMInstruction::Pop(_) => OP_POP,
        GMInstruction::PopSwap(_) => OP_POP,
        GMInstruction::Duplicate(_) => OP_DUP,
        GMInstruction::DuplicateSwap(_) => OP_DUP,
        GMInstruction::Return(_) => OP_RET,
        GMInstruction::Exit(_) => OP_EXIT,
        GMInstruction::PopDiscard(_) => OP_POPZ,
        GMInstruction::Branch(_) => OP_JMP,
        GMInstruction::BranchIf(_) => OP_JT,
        GMInstruction::BranchUnless(_) => OP_JF,
        GMInstruction::PushWithContext(_) => OP_PUSHENV,
        GMInstruction::PopWithContext(_) => OP_POPENV,
        GMInstruction::PopWithContextExit(_) => OP_POPENV,
        GMInstruction::Push(_) => OP_PUSH,
        GMInstruction::PushLocal(_) => OP_PUSHLOC,
        GMInstruction::PushGlobal(_) => OP_PUSHGLB,
        GMInstruction::PushBuiltin(_) => OP_PUSHBLTN,
        GMInstruction::PushImmediate(_) => OP_PUSHIM,
        GMInstruction::Call(_) => OP_CALL,
        GMInstruction::CallVariable(_) => OP_CALLVAR,
        _ => OP_EXTENDED,
    }
}

/// The size of an instruction in units of 4 bytes.
pub open spec fn spec_instruction_size(instruction: GMInstruction) -> u32 {
    match instruction {
        GMInstruction::Pop(_) => 2,
        GMInstruction::Push(p) | GMInstruction::PushLocal(p) | GMInstruction::PushGlobal(p)
        | GMInstruction::PushBuiltin(p) => match p.value {
            GMCodeValue::Int16(_) => 1,
            GMCodeValue::Int64(_) => 3,
            GMCodeValue::Double(_) => 3,
            _ => 2,
        },
        GMInstruction::Call(_) => 2,
        GMInstruction::PushReference(_) => 2,
        _ => 1,
    }
}

/// The size of an instruction in units of 4 bytes.
pub fn get_instruction_size(instruction: &GMInstruction) -> (r: u32)
    ensures
        r == spec_instruction_size(*instruction),
        1 <= r <= 3,
{
    match instruction {
        GMInstruction::Pop(_) => 2,
        GMInstruction::Push(p) | GMInstruction::PushLocal(p) | GMInstruction::PushGlobal(p)
        | GMInstruction::PushBuiltin(p) => match p.value {
            GMCodeValue::Int16(_) => 1,
            GMCodeValue::Int64(_) => 3,
            GMCodeValue::Double(_) => 3,
            _ => 2,
        },
        GMInstruction::Call(_) => 2,
        GMInstruction::PushReference(_) => 2,
        _ => 1,
    }
}

} // verus!

verus! {

/// `r` agrees with the partial value `s`: success with the same value, or failure when
/// `s` is undefined.
pub open spec fn agrees<T>(r: Result<T, String>, s: Option<T>) -> bool {
    match r {
        Ok(x) => s == Some(x),
        Err(_) => s is None,
    }
}

/// A read that went from `before` to `after` and returned `r` agrees with the partial
/// result `s` (a value and the position after it); only the position changes.
pub open spec fn reads_as<'a, T>(
    before: DataReader<'a>,
    after: DataReader<'a>,
    r: Result<T, String>,
    s: Option<(T, u32)>,
) -> bool {
    &&& after == before.moved(after.cur_pos as int)
    &&& match r {
        Ok(x) => s == Some((x, after.cur_pos)),
        Err(_) => s is None,
    }
}

/// The 16-bit value of the low two instruction bytes.
pub open spec fn spec_b01(b0: u8, b1: u8) -> u16 {
    ((b0 as u16) | ((b1 as u16) << 8u16)) as u16
}

pub open spec fn spec_lo_type(b2: u8) -> Option<GMDataType> {
    data_type_of_code(b2 & 0xf)
}

pub open spec fn spec_hi_type(b2: u8) -> Option<GMDataType> {
    data_type_of_code(b2 >> 4u8)
}

pub open spec fn spec_single_type(b0: u8, b1: u8, b2: u8) -> Option<GMSingleTypeInstruction> {
    if b0 != 0 || b1 != 0 || (b2 >> 4u8) != 0 {
        None
    } else {
        match spec_lo_type(b2) {
            Some(t) => Some(GMSingleTypeInstruction { data_type: t }),
            None => None,
        }
    }
}

pub open spec fn spec_double_type(b0: u8, b1: u8, b2: u8) -> Option<GMDoubleTypeInstruction> {
    if b0 != 0 || b1 != 0 {
        None
    } else {
        match (spec_lo_type(b2), spec_hi_type(b2)) {
            (Some(r), Some(l)) => Some(GMDoubleTypeInstruction { right: r, left: l }),
            _ => None,
        }
    }
}

pub open spec fn spec_comparison(b0: u8, b1: u8, b2: u8) -> Option<GMComparisonInstruction> {
    if b0 != 0 {
        None
    } else {
        match (comparison_type_of_code(b1), spec_lo_type(b2), spec_hi_type(b2)) {
            (Some(c), Some(t1), Some(t2)) => Some(
                GMComparisonInstruction { comparison_type: c, type1: t1, type2: t2 },
            ),
            _ => None,
        }
    }
}

pub open spec fn spec_call_variable(b0: u8, b1: u8, b2: u8) -> Option<GMCallVariableInstruction> {
    if (b2 >> 4u8) != 0 {
        None
    } else {
        match spec_lo_type(b2) {
            Some(t) => Some(GMCallVariableInstruction { data_type: t, argument_count: spec_b01(b0, b1) }),
            None => None,
        }
    }
}

pub open spec fn spec_duplicate(b0: u8, b1: u8, b2: u8) -> Option<GMDuplicateInstruction> {
    if b1 != 0 || (b2 >> 4u8) != 0 {
        None
    } else {
        match spec_lo_type(b2) {
            Some(t) => Some(GMDuplicateInstruction { data_type: t, size: b0 }),
            None => None,
        }
    }
}

pub open spec fn spec_duplicate_swap(b0: u8, b1: u8, b2: u8) -> Option<GMDuplicateSwapInstruction> {
    if (b2 >> 4u8) != 0 {
        None
    } else {
        match spec_lo_type(b2) {
            Some(t) => Some(GMDuplicateSwapInstruction { data_type: t, size1: b0, size2: b1 }),
            None => None,
        }
    }
}

/// The jump offset encoded in the low 24 bits; from bytecode 15 on, bit 22 is also a sign bit.
pub open spec fn spec_goto(b0: u8, b1: u8, b2: u8, bytecode_version: u8) -> i32 {
    let v0: u32 = (b0 as u32) | ((b1 as u32) << 8u32) | ((b2 as u32) << 16u32);
    let v: u32 = if bytecode_version > 14 && (v0 & 0x400000) != 0 {
        v0 | 0x800000
    } else {
        v0
    };
    if v & 0x800000 != 0 {
        (v | 0xFF000000) as i32
    } else {
        v as i32
    }
}

/// The variable reference that follows an instruction word at the reader's position.
pub open spec fn spec_read_variable<'a>(r: DataReader<'a>, raw_instance_type: i16) -> Option<(CodeVariable, u32)> {
    if !r.can_read(4) {
        None
    } else {
        let raw = spec_u32_at(r.data@, r.cur_pos as int);
        let vt_code = ((raw >> 24u32) & 0xF8) as u8;
        match variable_type_of_code(vt_code) {
            None => None,
            Some(vt) => match instance_type_of_code(raw_instance_type, vt) {
                None => None,
                Some(it) => if r.variable_occurrences@.contains_key(r.cur_pos) {
                    Some(
                        (
                            CodeVariable {
                                variable: gm_ref(r.variable_occurrences@[r.cur_pos]),
                                variable_type: vt,
                                instance_type: it,
                                is_int32: false,
                            },
                            (r.cur_pos + 4) as u32,
                        ),
                    )
                } else {
                    None
                },
            },
        }
    }
}

/// The position 4 bytes on, if it fits in 32 bits.
pub open spec fn skip4(pos: u32) -> Option<u32> {
    if pos + 4 <= u32::MAX {
        Some((pos + 4) as u32)
    } else {
        None
    }
}

/// The constant of data type `t` that follows an instruction word; an Int16 is embedded in
/// the word itself (bytes `b0`, `b1`).
pub open spec fn spec_read_code_value<'a>(r: DataReader<'a>, t: GMDataType, b0: u8, b1: u8) -> Option<(GMCodeValue, u32)> {
    let p = r.cur_pos;
    match t {
        GMDataType::Double => if r.can_read(8) {
            Some((GMCodeValue::Double(spec_u64_at(r.data@, p as int)), (p + 8) as u32))
        } else {
            None
        },
        GMDataType::Int32 => if r.function_occurrences@.contains_key(p) {
            match skip4(p) {
                Some(q) => Some((GMCodeValue::Function(gm_ref(r.function_occurrences@[p])), q)),
                None => None,
            }
        } else if r.variable_occurrences@.contains_key(p) {
            match skip4(p) {
                Some(q) => Some(
                    (
                        GMCodeValue::Variable(
                            CodeVariable {
                                variable: gm_ref(r.variable_occurrences@[p]),
                                variable_type: GMVariableType::Normal,
                                instance_type: GMInstanceType::Undefined,
                                is_int32: true,
                            },
                        ),
                        q,
                    ),
                ),
                None => None,
            }
        } else if r.can_read(4) {
            Some((GMCodeValue::Int32(spec_i32_at(r.data@, p as int)), (p + 4) as u32))
        } else {
            None
        },
        GMDataType::Int64 => if r.can_read(8) {
            Some((GMCodeValue::Int64(spec_i64_at(r.data@, p as int)), (p + 8) as u32))
        } else {
            None
        },
        GMDataType::Boolean => {
            let raw = spec_u32_at(r.data@, p as int);
            if r.can_read(4) && (raw == 0 || raw == 1) {
                Some((GMCodeValue::Boolean(raw == 1), (p + 4) as u32))
            } else {
                None
            }
        },
        GMDataType::String => {
            let raw = spec_u32_at(r.data@, p as int);
            if r.can_read(4) && raw < RESOURCE_FAILSAFE_COUNT {
                Some((GMCodeValue::String(gm_ref(raw)), (p + 4) as u32))
            } else {
                None
            }
        },
        GMDataType::Int16 => Some((GMCodeValue::Int16(spec_b01(b0, b1) as i16), p)),
        GMDataType::Variable => None,
    }
}

/// The asset reference that follows a `pushref` instruction word.
pub open spec fn spec_read_asset_reference<'a>(r: DataReader<'a>) -> Option<(GMAssetReference, u32)> {
    let p = r.cur_pos;
    if r.function_occurrences@.contains_key(p) {
        match skip4(p) {
            Some(q) => Some((GMAssetReference::Function(gm_ref(r.function_occurrences@[p])), q)),
            None => None,
        }
    } else if !r.can_read(4) {
        None
    } else {
        let raw = spec_u32_at(r.data@, p as int);
        let index = raw & 0xFFFFFF;
        let kind = (raw >> 24u32) as u8;
        let q = (p + 4) as u32;
        if kind == 0 { Some((GMAssetReference::Object(gm_ref(index)), q)) }
        else if kind == 1 { Some((GMAssetReference::Sprite(index), q)) }
        else if kind == 2 { Some((GMAssetReference::Sound(index), q)) }
        else if kind == 3 { Some((GMAssetReference::Room(index), q)) }
        else if kind == 4 { Some((GMAssetReference::Background(index), q)) }
        else if kind == 5 { Some((GMAssetReference::Path(index), q)) }
        else if kind == 6 { Some((GMAssetReference::Script(index), q)) }
        else if kind == 7 { Some((GMAssetReference::Font(index), q)) }
        else if kind == 8 { Some((GMAssetReference::Timeline(index), q)) }
        else if kind == 9 { Some((GMAssetReference::Shader(index), q)) }
        else if kind == 10 { Some((GMAssetReference::Sequence(index), q)) }
        else if kind == 11 { Some((GMAssetReference::AnimCurve(index), q)) }
        else if kind == 12 { Some((GMAssetReference::ParticleSystem(index), q)) }
        else if kind == 13 { Some((GMAssetReference::RoomInstance(index as i32), q)) }
        else { None }
    }
}

/// The extended instruction with kind `kind` and 16-bit operand type.
pub open spec fn spec_extended16(kind: i16) -> Option<GMInstruction> {
    if kind == -1 { Some(GMInstruction::CheckArrayIndex) }
    else if kind == -2 { Some(GMInstruction::PushArrayFinal) }
    else if kind == -3 { Some(GMInstruction::PopArrayFinal) }
    else if kind == -4 { Some(GMInstruction::PushArrayContainer) }
    else if kind == -5 { Some(GMInstruction::SetArrayOwner) }
    else if kind == -6 { Some(GMInstruction::HasStaticInitialized) }
    else if kind == -7 { Some(GMInstruction::SetStaticInitialized) }
    else if kind == -8 { Some(GMInstruction::SaveArrayReference) }
    else if kind == -9 { Some(GMInstruction::RestoreArrayReference) }
    else if kind == -10 { Some(GMInstruction::IsNullishValue) }
    else { None }
}

pub open spec fn spec_extended<'a>(r: DataReader<'a>, b0: u8, b1: u8, b2: u8) -> Option<(GMInstruction, u32)> {
    let kind = spec_b01(b0, b1) as i16;
    match spec_lo_type(b2) {
        Some(GMDataType::Int16) => match spec_extended16(kind) {
            Some(i) => Some((i, r.cur_pos)),
            None => None,
        },
        Some(GMDataType::Int32) => if kind == -11 {
            match spec_read_asset_reference(r) {
                Some((a, q)) => Some((GMInstruction::PushReference(a), q)),
                None => None,
            }
        } else {
            None
        },
        _ => None,
    }
}

pub open spec fn spec_push<'a>(r: DataReader<'a>, b0: u8, b1: u8, b2: u8) -> Option<(GMPushInstruction, u32)> {
    match data_type_of_code(b2) {
        None => None,
        Some(GMDataType::Variable) => match spec_read_variable(r, spec_b01(b0, b1) as i16) {
            Some((v, q)) => Some((GMPushInstruction { value: GMCodeValue::Variable(v) }, q)),
            None => None,
        },
        Some(t) => match spec_read_code_value(r, t, b0, b1) {
            Some((v, q)) => Some((GMPushInstruction { value: v }, q)),
            None => None,
        },
    }
}

pub open spec fn spec_pop<'a>(r: DataReader<'a>, b0: u8, b1: u8, b2: u8) -> Option<(GMPopInstruction, u32)> {
    match (spec_lo_type(b2), spec_hi_type(b2)) {
        (Some(t1), Some(t2)) => match spec_read_variable(r, spec_b01(b0, b1) as i16) {
            Some((v, q)) => Some((GMPopInstruction { type1: t1, type2: t2, destination: v }, q)),
            None => None,
        },
        _ => None,
    }
}

pub open spec fn spec_call<'a>(r: DataReader<'a>, b0: u8, b1: u8, b2: u8) -> Option<(GMCallInstruction, u32)> {
    let p = r.cur_pos;
    if data_type_of_code(b2) != Some(GMDataType::Int32) || !r.function_occurrences@.contains_key(p) {
        None
    } else {
        match skip4(p) {
            Some(q) => Some(
                (
                    GMCallInstruction {
                        argument_count: spec_b01(b0, b1),
                        function: gm_ref(r.function_occurrences@[p]),
                    },
                    q,
                ),
            ),
            None => None,
        }
    }
}

/// Lifts a partial operand read (value and position) to a partial instruction.
pub open spec fn lift_partial<T>(o: Option<(T, u32)>, f: spec_fn(T) -> GMInstruction) -> Option<(GMInstruction, u32)> {
    match o {
        Some((x, q)) => Some((f(x), q)),
        None => None,
    }
}

/// Wraps a partial operand into a partial instruction.
pub open spec fn wrap<T>(o: Option<T>, f: spec_fn(T) -> GMInstruction) -> Option<GMInstruction> {
    match o {
        Some(x) => Some(f(x)),
        None => None,
    }
}

/// Arithmetic and comparison opcodes: `None` if `op` is not one of them, else the
/// (partial) instruction.
pub open spec fn spec_decode_arithmetic(op: u8, b0: u8, b1: u8, b2: u8) -> Option<Option<GMInstruction>> {
    if op == OP_CONV { Some(wrap(spec_double_type(b0, b1, b2), |x| GMInstruction::Convert(x))) }
    else if op == OP_MUL { Some(wrap(spec_double_type(b0, b1, b2), |x| GMInstruction::Multiply(x))) }
    else if op == OP_DIV { Some(wrap(spec_double_type(b0, b1, b2), |x| GMInstruction::Divide(x))) }
    else if op == OP_REM { Some(wrap(spec_double_type(b0, b1, b2), |x| GMInstruction::Remainder(x))) }
    else if op == OP_MOD { Some(wrap(spec_double_type(b0, b1, b2), |x| GMInstruction::Modulus(x))) }
    else if op == OP_ADD { Some(wrap(spec_double_type(b0, b1, b2), |x| GMInstruction::Add(x))) }
    else if op == OP_SUB { Some(wrap(spec_double_type(b0, b1, b2), |x| GMInstruction::Subtract(x))) }
    else if op == OP_AND { Some(wrap(spec_double_type(b0, b1, b2), |x| GMInstruction::And(x))) }
    else if op == OP_OR { Some(wrap(spec_double_type(b0, b1, b2), |x| GMInstruction::Or(x))) }
    else if op == OP_XOR { Some(wrap(spec_double_type(b0, b1, b2), |x| GMInstruction::Xor(x))) }
    else if op == OP_NEG { Some(wrap(spec_single_type(b0, b1, b2), |x| GMInstruction::Negate(x))) }
    else if op == OP_NOT { Some(wrap(spec_single_type(b0, b1, b2), |x| GMInstruction::Not(x))) }
    else if op == OP_SHL { Some(wrap(spec_double_type(b0, b1, b2), |x| GMInstruction::ShiftLeft(x))) }
    else if op == OP_SHR { Some(wrap(spec_double_type(b0, b1, b2), |x| GMInstruction::ShiftRight(x))) }
    else if op == OP_CMP { Some(wrap(spec_comparison(b0, b1, b2), |x| GMInstruction::Compare(x))) }
    else { None }
}

/// Stack and control flow opcodes that take no operand words: `None` if `op` is not one of
/// them, else the (partial) instruction.
pub open spec fn spec_decode_control(op: u8, b0: u8, b1: u8, b2: u8, bv: u8) -> Option<Option<GMInstruction>> {
    if op == OP_POP && b2 == 0x0F {
        Some(if b1 != 0 { None } else { Some(GMInstruction::PopSwap(GMPopSwapInstruction { size: b0 })) })
    }
    else if op == OP_DUP && b1 == 0 { Some(wrap(spec_duplicate(b0, b1, b2), |x| GMInstruction::Duplicate(x))) }
    else if op == OP_DUP { Some(wrap(spec_duplicate_swap(b0, b1, b2), |x| GMInstruction::DuplicateSwap(x))) }
    else if op == OP_RET { Some(wrap(spec_single_type(b0, b1, b2), |x| GMInstruction::Return(x))) }
    else if op == OP_EXIT { Some(Some(GMInstruction::Exit(GMEmptyInstruction {}))) }
    else if op == OP_POPZ { Some(wrap(spec_single_type(b0, b1, b2), |x| GMInstruction::PopDiscard(x))) }
    else if op == OP_JMP { Some(Some(GMInstruction::Branch(GMGotoInstruction { jump_offset: spec_goto(b0, b1, b2, bv) }))) }
    else if op == OP_JT { Some(Some(GMInstruction::BranchIf(GMGotoInstruction { jump_offset: spec_goto(b0, b1, b2, bv) }))) }
    else if op == OP_JF { Some(Some(GMInstruction::BranchUnless(GMGotoInstruction { jump_offset: spec_goto(b0, b1, b2, bv) }))) }
    else if op == OP_PUSHENV { Some(Some(GMInstruction::PushWithContext(GMGotoInstruction { jump_offset: spec_goto(b0, b1, b2, bv) }))) }
    else if op == OP_POPENV && b0 == 0 && b1 == 0 && b2 == 0xF0 { Some(Some(GMInstruction::PopWithContextExit(GMPopenvExitMagicInstruction {}))) }
    else if op == OP_POPENV { Some(Some(GMInstruction::PopWithContext(GMGotoInstruction { jump_offset: spec_goto(b0, b1, b2, bv) }))) }
    else if op == OP_PUSHIM { Some(Some(GMInstruction::PushImmediate(spec_b01(b0, b1) as i16))) }
    else if op == OP_CALLVAR { Some(wrap(spec_call_variable(b0, b1, b2), |x| GMInstruction::CallVariable(x))) }
    else { None }
}

/// Opcodes whose operands follow the instruction word.
pub open spec fn spec_decode_operands<'a>(r: DataReader<'a>, op: u8, b0: u8, b1: u8, b2: u8) -> Option<(GMInstruction, u32)> {
    if op == OP_POP { lift_partial(spec_pop(r, b0, b1, b2), |x| GMInstruction::Pop(x)) }
    else if op == OP_PUSH { lift_partial(spec_push(r, b0, b1, b2), |x| GMInstruction::Push(x)) }
    else if op == OP_PUSHLOC { lift_partial(spec_push(r, b0, b1, b2), |x| GMInstruction::PushLocal(x)) }
    else if op == OP_PUSHGLB { lift_partial(spec_push(r, b0, b1, b2), |x| GMInstruction::PushGlobal(x)) }
    else if op == OP_PUSHBLTN { lift_partial(spec_push(r, b0, b1, b2), |x| GMInstruction::PushBuiltin(x)) }
    else if op == OP_CALL { lift_partial(spec_call(r, b0, b1, b2), |x| GMInstruction::Call(x)) }
    else if op == OP_EXTENDED { spec_extended(r, b0, b1, b2) }
    else { None }
}

/// Lifts a partial instruction read at position `p`.
pub open spec fn at_pos(o: Option<GMInstruction>, p: u32) -> Option<(GMInstruction, u32)> {
    match o {
        Some(i) => Some((i, p)),
        None => None,
    }
}

/// The instruction with (current) opcode `op` and bytes `b0..b2`, whose word ended at the
/// reader's position.
pub open spec fn spec_decode_body<'a>(r: DataReader<'a>, op: u8, b0: u8, b1: u8, b2: u8) -> Option<(GMInstruction, u32)> {
    match spec_decode_arithmetic(op, b0, b1, b2) {
        Some(o) => at_pos(o, r.cur_pos),
        None => match spec_decode_control(op, b0, b1, b2, r.bytecode_version) {
            Some(o) => at_pos(o, r.cur_pos),
            None => spec_decode_operands(r, op, b0, b1, b2),
        },
    }
}

/// The instruction at the reader's position, and the position after it.
pub open spec fn spec_decode_instruction<'a>(r: DataReader<'a>) -> Option<(GMInstruction, u32)> {
    if !r.can_read(4) {
        None
    } else {
        let w = spec_u32_at(r.data@, r.cur_pos as int);
        let b0 = (w & 0xff) as u8;
        let b1_raw = ((w >> 8u32) & 0xff) as u8;
        let b2 = ((w >> 16u32) & 0xff) as u8;
        let op_raw = (w >> 24u32) as u8;
        let old_compare = r.bytecode_version < 15 && 0x10 <= op_raw <= 0x16;
        let b1 = if old_compare { (op_raw - 0x10) as u8 } else { b1_raw };
        let op = if r.bytecode_version < 15 { spec_opcode_old_to_new(op_raw) } else { op_raw };
        spec_decode_body(r.moved(r.cur_pos + 4), op, b0, b1, b2)
    }
}

} // verus!

verus! {

/// Looks up an occurrence position.
pub fn lookup_occurrence(m: &std::collections::HashMap<u32, u32>, position: u32) -> (r: Option<u32>)
    ensures
        r == (if m@.contains_key(position) { Some(m@[position]) } else { None::<u32> }),
{
    match m.get(&position) {
        Some(v) => Some(*v),
        None => None,
    }
}

fn b01(b0: u8, b1: u8) -> (r: u16)
    ensures
        r == spec_b01(b0, b1),
{
    (b0 as u16) | ((b1 as u16) << 8u16)
}

fn lo_type(b2: u8) -> (r: Result<GMDataType, String>)
    ensures
        agrees(r, spec_lo_type(b2)),
{
    GMDataType::from_u8(b2 & 0xf)
}

fn hi_type(b2: u8) -> (r: Result<GMDataType, String>)
    ensures
        agrees(r, spec_hi_type(b2)),
{
    GMDataType::from_u8(b2 >> 4u8)
}

fn parse_single_type(b0: u8, b1: u8, b2: u8) -> (r: Result<GMSingleTypeInstruction, String>)
    ensures
        agrees(r, spec_single_type(b0, b1, b2)),
{
    if b0 != 0 || b1 != 0 {
        return Err("Nonzero operand byte in single type instruction".to_owned());
    }
    let data_type = lo_type(b2)?;
    if (b2 >> 4u8) != 0 {
        return Err("Nonzero second data type in single type instruction".to_owned());
    }
    Ok(GMSingleTypeInstruction { data_type })
}

fn parse_double_type(b0: u8, b1: u8, b2: u8) -> (r: Result<GMDoubleTypeInstruction, String>)
    ensures
        agrees(r, spec_double_type(b0, b1, b2)),
{
    if b0 != 0 || b1 != 0 {
        return Err("Nonzero operand byte in double type instruction".to_owned());
    }
    let right = lo_type(b2)?;
    let left = hi_type(b2)?;
    Ok(GMDoubleTypeInstruction { right, left })
}

fn parse_comparison(b0: u8, b1: u8, b2: u8) -> (r: Result<GMComparisonInstruction, String>)
    ensures
        agrees(r, spec_comparison(b0, b1, b2)),
{
    if b0 != 0 {
        return Err("Nonzero operand byte in comparison instruction".to_owned());
    }
    let comparison_type = GMComparisonType::from_u8(b1)?;
    let type1 = lo_type(b2)?;
    let type2 = hi_type(b2)?;
    Ok(GMComparisonInstruction { comparison_type, type1, type2 })
}

fn parse_call_variable(b0: u8, b1: u8, b2: u8) -> (r: Result<GMCallVariableInstruction, String>)
    ensures
        agrees(r, spec_call_variable(b0, b1, b2)),
{
    let argument_count = b01(b0, b1);
    let data_type = lo_type(b2)?;
    if (b2 >> 4u8) != 0 {
        return Err("Nonzero second data type in call variable instruction".to_owned());
    }
    Ok(GMCallVariableInstruction { data_type, argument_count })
}

fn parse_duplicate(b0: u8, b1: u8, b2: u8) -> (r: Result<GMDuplicateInstruction, String>)
    ensures
        agrees(r, spec_duplicate(b0, b1, b2)),
{
    if b1 != 0 {
        return Err("Nonzero operand byte in duplicate instruction".to_owned());
    }
    let data_type = lo_type(b2)?;
    if (b2 >> 4u8) != 0 {
        return Err("Nonzero second data type in duplicate instruction".to_owned());
    }
    Ok(GMDuplicateInstruction { data_type, size: b0 })
}

fn parse_duplicate_swap(b0: u8, b1: u8, b2: u8) -> (r: Result<GMDuplicateSwapInstruction, String>)
    ensures
        agrees(r, spec_duplicate_swap(b0, b1, b2)),
{
    let data_type = lo_type(b2)?;
    if (b2 >> 4u8) != 0 {
        return Err("Nonzero second data type in duplicate swap instruction".to_owned());
    }
    Ok(GMDuplicateSwapInstruction { data_type, size1: b0, size2: b1 })
}

fn parse_goto(b0: u8, b1: u8, b2: u8, bytecode_version: u8) -> (r: GMGotoInstruction)
    ensures
        r.jump_offset == spec_goto(b0, b1, b2, bytecode_version),
{
    let mut value: u32 = (b0 as u32) | ((b1 as u32) << 8u32) | ((b2 as u32) << 16u32);
    if bytecode_version > 14 && (value & 0x400000) != 0 {
        value = value | 0x800000;
    }
    let jump_offset: i32 = if value & 0x800000 != 0 {
        (value | 0xFF000000) as i32
    } else {
        value as i32
    };
    GMGotoInstruction { jump_offset }
}

/// Reads the variable reference that follows an instruction word.
pub fn read_variable(reader: &mut DataReader, raw_instance_type: i16) -> (r: Result<CodeVariable, String>)
    requires
        old(reader).wf(),
    ensures
        final(reader).wf(),
        reads_as(*old(reader), *final(reader), r, spec_read_variable(*old(reader), raw_instance_type)),
{
    let occurrence_position = reader.cur_pos;
    let raw = reader.read_u32()?;
    let variable_type = GMVariableType::from_u8(((raw >> 24u32) & 0xF8) as u8)?;
    let instance_type = parse_instance_type(raw_instance_type, variable_type)?;
    match lookup_occurrence(&reader.variable_occurrences, occurrence_position) {
        Some(index) => Ok(CodeVariable { variable: GMRef::new(index), variable_type, instance_type, is_int32: false }),
        None => Err("Could not find a variable at this occurrence position".to_owned()),
    }
}

fn skip_occurrence(reader: &mut DataReader) -> (r: Result<(), String>)
    requires
        old(reader).wf(),
    ensures
        final(reader).wf(),
        match skip4(old(reader).cur_pos) {
            Some(q) => r is Ok && *final(reader) == old(reader).moved(q as int),
            None => r is Err && *final(reader) == *old(reader),
        },
{
    if reader.cur_pos > u32::MAX - 4 {
        return Err("Occurrence position out of range".to_owned());
    }
    reader.cur_pos = reader.cur_pos + 4;
    Ok(())
}

/// Reads the constant of data type `data_type` that follows an instruction word.
pub fn read_code_value(reader: &mut DataReader, data_type: GMDataType, b0: u8, b1: u8) -> (r: Result<GMCodeValue, String>)
    requires
        old(reader).wf(),
    ensures
        final(reader).wf(),
        reads_as(*old(reader), *final(reader), r, spec_read_code_value(*old(reader), data_type, b0, b1)),
{
    match data_type {
        GMDataType::Double => {
            let bits = reader.read_u64()?;
            Ok(GMCodeValue::Double(bits))
        },
        GMDataType::Int32 => {
            let position = reader.cur_pos;
            if let Some(index) = lookup_occurrence(&reader.function_occurrences, position) {
                skip_occurrence(reader)?;
                return Ok(GMCodeValue::Function(GMRef::new(index)));
            }
            if let Some(index) = lookup_occurrence(&reader.variable_occurrences, position) {
                skip_occurrence(reader)?;
                return Ok(
                    GMCodeValue::Variable(
                        CodeVariable {
                            variable: GMRef::new(index),
                            variable_type: GMVariableType::Normal,
                            instance_type: GMInstanceType::Undefined,
                            is_int32: true,
                        },
                    ),
                );
            }
            let v = reader.read_i32()?;
            Ok(GMCodeValue::Int32(v))
        },
        GMDataType::Int64 => {
            let v = reader.read_i64()?;
            Ok(GMCodeValue::Int64(v))
        },
        GMDataType::Boolean => {
            let v = reader.read_bool32()?;
            Ok(GMCodeValue::Boolean(v))
        },
        GMDataType::String => {
            let v = reader.read_u32()?;
            if v >= RESOURCE_FAILSAFE_COUNT {
                return Err("Resource number exceeds failsafe limit".to_owned());
            }
            Ok(GMCodeValue::String(GMRef::new(v)))
        },
        GMDataType::Int16 => Ok(GMCodeValue::Int16(b01(b0, b1) as i16)),
        GMDataType::Variable => Err("Unsupported data type for a code value".to_owned()),
    }
}

impl GMAssetReference {
    /// Reads the asset reference that follows a `pushref` instruction word.
    pub fn deserialize(reader: &mut DataReader) -> (r: Result<GMAssetReference, String>)
        requires
            old(reader).wf(),
        ensures
            final(reader).wf(),
            reads_as(*old(reader), *final(reader), r, spec_read_asset_reference(*old(reader))),
    {
        if let Some(index) = lookup_occurrence(&reader.function_occurrences, reader.cur_pos) {
            skip_occurrence(reader)?;
            return Ok(GMAssetReference::Function(GMRef::new(index)));
        }
        let raw = reader.read_u32()?;
        let index: u32 = raw & 0xFFFFFF;
        let kind: u8 = (raw >> 24u32) as u8;
        match kind {
            0 => Ok(GMAssetReference::Object(GMRef::new(index))),
            1 => Ok(GMAssetReference::Sprite(index)),
            2 => Ok(GMAssetReference::Sound(index)),
            3 => Ok(GMAssetReference::Room(index)),
            4 => Ok(GMAssetReference::Background(index)),
            5 => Ok(GMAssetReference::Path(index)),
            6 => Ok(GMAssetReference::Script(index)),
            7 => Ok(GMAssetReference::Font(index)),
            8 => Ok(GMAssetReference::Timeline(index)),
            9 => Ok(GMAssetReference::Shader(index)),
            10 => Ok(GMAssetReference::Sequence(index)),
            11 => Ok(GMAssetReference::AnimCurve(index)),
            12 => Ok(GMAssetReference::ParticleSystem(index)),
            13 => Ok(GMAssetReference::RoomInstance(index as i32)),
            _ => Err("Invalid asset type".to_owned()),
        }
    }
}

fn parse_extended(reader: &mut DataReader, b0: u8, b1: u8, b2: u8) -> (r: Result<GMInstruction, String>)
    requires
        old(reader).wf(),
    ensures
        final(reader).wf(),
        reads_as(*old(reader), *final(reader), r, spec_extended(*old(reader), b0, b1, b2)),
{
    let data_type = lo_type(b2)?;
    let kind: i16 = b01(b0, b1) as i16;
    match data_type {
        GMDataType::Int16 => match kind {
            -1 => Ok(GMInstruction::CheckArrayIndex),
            -2 => Ok(GMInstruction::PushArrayFinal),
            -3 => Ok(GMInstruction::PopArrayFinal),
            -4 => Ok(GMInstruction::PushArrayContainer),
            -5 => Ok(GMInstruction::SetArrayOwner),
            -6 => Ok(GMInstruction::HasStaticInitialized),
            -7 => Ok(GMInstruction::SetStaticInitialized),
            -8 => Ok(GMInstruction::SaveArrayReference),
            -9 => Ok(GMInstruction::RestoreArrayReference),
            -10 => Ok(GMInstruction::IsNullishValue),
            _ => Err("Invalid Int16 extended instruction kind".to_owned()),
        },
        GMDataType::Int32 => {
            if kind != -11 {
                return Err("Expected PushReference for Int32 extended instruction".to_owned());
            }
            let asset = GMAssetReference::deserialize(reader)?;
            Ok(GMInstruction::PushReference(asset))
        },
        _ => Err("Invalid data type for extended instruction".to_owned()),
    }
}

fn parse_push(reader: &mut DataReader, b0: u8, b1: u8, b2: u8) -> (r: Result<GMPushInstruction, String>)
    requires
        old(reader).wf(),
    ensures
        final(reader).wf(),
        reads_as(*old(reader), *final(reader), r, spec_push(*old(reader), b0, b1, b2)),
{
    let data_type = GMDataType::from_u8(b2)?;
    if matches!(data_type, GMDataType::Variable) {
        let v = read_variable(reader, b01(b0, b1) as i16)?;
        Ok(GMPushInstruction { value: GMCodeValue::Variable(v) })
    } else {
        let v = read_code_value(reader, data_type, b0, b1)?;
        Ok(GMPushInstruction { value: v })
    }
}

fn parse_pop(reader: &mut DataReader, b0: u8, b1: u8, b2: u8) -> (r: Result<GMPopInstruction, String>)
    requires
        old(reader).wf(),
    ensures
        final(reader).wf(),
        reads_as(*old(reader), *final(reader), r, spec_pop(*old(reader), b0, b1, b2)),
{
    let type1 = lo_type(b2)?;
    let type2 = hi_type(b2)?;
    let destination = read_variable(reader, b01(b0, b1) as i16)?;
    Ok(GMPopInstruction { type1, type2, destination })
}

fn parse_call(reader: &mut DataReader, b0: u8, b1: u8, b2: u8) -> (r: Result<GMCallInstruction, String>)
    requires
        old(reader).wf(),
    ensures
        final(reader).wf(),
        reads_as(*old(reader), *final(reader), r, spec_call(*old(reader), b0, b1, b2)),
{
    let argument_count = b01(b0, b1);
    let data_type = GMDataType::from_u8(b2)?;
    if !matches!(data_type, GMDataType::Int32) {
        return Err("Expected the data type of a call instruction to be Int32".to_owned());
    }
    let function = match lookup_occurrence(&reader.function_occurrences, reader.cur_pos) {
        Some(index) => GMRef::new(index),
        None => return Err("Could not find a function at this occurrence position".to_owned()),
    };
    skip_occurrence(reader)?;
    Ok(GMCallInstruction { argument_count, function })
}

} // verus!

verus! {

impl GMInstruction {
    /// Reads one instruction (with its operand words) at the reader's position.
    pub fn deserialize(reader: &mut DataReader) -> (r: Result<GMInstruction, String>)
        requires
            old(reader).wf(),
        ensures
            final(reader).wf(),
            reads_as(*old(reader), *final(reader), r, spec_decode_instruction(*old(reader))),
    {
        let word = reader.read_u32()?;
        let mut opcode: u8 = (word >> 24u32) as u8;
        let b2: u8 = ((word >> 16u32) & 0xff) as u8;
        let mut b1: u8 = ((word >> 8u32) & 0xff) as u8;
        let b0: u8 = (word & 0xff) as u8;
        if reader.bytecode_version < 15 {
            if 0x10 <= opcode && opcode <= 0x16 {
                b1 = opcode - 0x10;
            }
            opcode = opcode_old_to_new(opcode);
        }
        decode_body(reader, opcode, b0, b1, b2)
    }
}

fn decode_arithmetic(op: u8, b0: u8, b1: u8, b2: u8) -> (r: Option<Result<GMInstruction, String>>)
    ensures
        match r {
            None => spec_decode_arithmetic(op, b0, b1, b2) is None,
            Some(x) => spec_decode_arithmetic(op, b0, b1, b2) == Some(
                match x {
                    Ok(i) => Some(i),
                    Err(_) => None::<GMInstruction>,
                },
            ),
        },
{
    if op == OP_NEG || op == OP_NOT {
        let t = match parse_single_type(b0, b1, b2) {
            Ok(t) => t,
            Err(e) => return Some(Err(e)),
        };
        return Some(Ok(if op == OP_NEG { GMInstruction::Negate(t) } else { GMInstruction::Not(t) }));
    }
    if op == OP_CMP {
        return Some(
            match parse_comparison(b0, b1, b2) {
                Ok(c) => Ok(GMInstruction::Compare(c)),
                Err(e) => Err(e),
            },
        );
    }
    if !(op == OP_CONV || op == OP_MUL || op == OP_DIV || op == OP_REM || op == OP_MOD || op == OP_ADD
        || op == OP_SUB || op == OP_AND || op == OP_OR || op == OP_XOR || op == OP_SHL || op == OP_SHR) {
        return None;
    }
    let d = match parse_double_type(b0, b1, b2) {
        Ok(d) => d,
        Err(e) => return Some(Err(e)),
    };
    Some(Ok(
        if op == OP_CONV { GMInstruction::Convert(d) }
        else if op == OP_MUL { GMInstruction::Multiply(d) }
        else if op == OP_DIV { GMInstruction::Divide(d) }
        else if op == OP_REM { GMInstruction::Remainder(d) }
        else if op == OP_MOD { GMInstruction::Modulus(d) }
        else if op == OP_ADD { GMInstruction::Add(d) }
        else if op == OP_SUB { GMInstruction::Subtract(d) }
        else if op == OP_AND { GMInstruction::And(d) }
        else if op == OP_OR { GMInstruction::Or(d) }
        else if op == OP_XOR { GMInstruction::Xor(d) }
        else if op == OP_SHL { GMInstruction::ShiftLeft(d) }
        else { GMInstruction::ShiftRight(d) }
    ))
}

fn decode_control(op: u8, b0: u8, b1: u8, b2: u8, bv: u8) -> (r: Option<Result<GMInstruction, String>>)
    ensures
        match r {
            None => spec_decode_control(op, b0, b1, b2, bv) is None,
            Some(x) => spec_decode_control(op, b0, b1, b2, bv) == Some(
                match x {
                    Ok(i) => Some(i),
                    Err(_) => None::<GMInstruction>,
                },
            ),
        },
{
    if op == OP_POP && b2 == 0x0F {
        if b1 != 0 {
            return Some(Err("Nonzero operand byte in pop swap instruction".to_owned()));
        }
        return Some(Ok(GMInstruction::PopSwap(GMPopSwapInstruction { size: b0 })));
    }
    if op == OP_DUP && b1 == 0 {
        return Some(match parse_duplicate(b0, b1, b2) {
            Ok(d) => Ok(GMInstruction::Duplicate(d)),
            Err(e) => Err(e),
        });
    }
    if op == OP_DUP {
        return Some(match parse_duplicate_swap(b0, b1, b2) {
            Ok(d) => Ok(GMInstruction::DuplicateSwap(d)),
            Err(e) => Err(e),
        });
    }
    if op == OP_RET || op == OP_POPZ {
        return Some(match parse_single_type(b0, b1, b2) {
            Ok(t) => Ok(if op == OP_RET { GMInstruction::Return(t) } else { GMInstruction::PopDiscard(t) }),
            Err(e) => Err(e),
        });
    }
    if op == OP_EXIT {
        return Some(Ok(GMInstruction::Exit(GMEmptyInstruction {})));
    }
    if op == OP_POPENV && b0 == 0 && b1 == 0 && b2 == 0xF0 {
        return Some(Ok(GMInstruction::PopWithContextExit(GMPopenvExitMagicInstruction {})));
    }
    if op == OP_JMP || op == OP_JT || op == OP_JF || op == OP_PUSHENV || op == OP_POPENV {
        let g = parse_goto(b0, b1, b2, bv);
        return Some(Ok(
            if op == OP_JMP { GMInstruction::Branch(g) }
            else if op == OP_JT { GMInstruction::BranchIf(g) }
            else if op == OP_JF { GMInstruction::BranchUnless(g) }
            else if op == OP_PUSHENV { GMInstruction::PushWithContext(g) }
            else { GMInstruction::PopWithContext(g) }
        ));
    }
    if op == OP_PUSHIM {
        return Some(Ok(GMInstruction::PushImmediate(b01(b0, b1) as i16)));
    }
    if op == OP_CALLVAR {
        return Some(match parse_call_variable(b0, b1, b2) {
            Ok(c) => Ok(GMInstruction::CallVariable(c)),
            Err(e) => Err(e),
        });
    }
    None
}

fn decode_operands(reader: &mut DataReader, op: u8, b0: u8, b1: u8, b2: u8) -> (r: Result<GMInstruction, String>)
    requires
        old(reader).wf(),
    ensures
        final(reader).wf(),
        reads_as(*old(reader), *final(reader), r, spec_decode_operands(*old(reader), op, b0, b1, b2)),
{
    if op == OP_POP {
        match parse_pop(reader, b0, b1, b2) {
            Ok(p) => Ok(GMInstruction::Pop(p)),
            Err(e) => Err(e),
        }
    } else if op == OP_PUSH || op == OP_PUSHLOC || op == OP_PUSHGLB || op == OP_PUSHBLTN {
        match parse_push(reader, b0, b1, b2) {
            Ok(p) => Ok(
                if op == OP_PUSH { GMInstruction::Push(p) }
                else if op == OP_PUSHLOC { GMInstruction::PushLocal(p) }
                else if op == OP_PUSHGLB { GMInstruction::PushGlobal(p) }
                else { GMInstruction::PushBuiltin(p) }
            ),
            Err(e) => Err(e),
        }
    } else if op == OP_CALL {
        match parse_call(reader, b0, b1, b2) {
            Ok(c) => Ok(GMInstruction::Call(c)),
            Err(e) => Err(e),
        }
    } else if op == OP_EXTENDED {
        parse_extended(reader, b0, b1, b2)
    } else {
        Err("Invalid opcode".to_owned())
    }
}

fn decode_body(reader: &mut DataReader, opcode: u8, b0: u8, b1: u8, b2: u8) -> (r: Result<GMInstruction, String>)
    requires
        old(reader).wf(),
    ensures
        final(reader).wf(),
        reads_as(*old(reader), *final(reader), r, spec_decode_body(*old(reader), opcode, b0, b1, b2)),
{
    if let Some(x) = decode_arithmetic(opcode, b0, b1, b2) {
        return x;
    }
    if let Some(x) = decode_control(opcode, b0, b1, b2, reader.bytecode_version) {
        return x;
    }
    decode_operands(reader, opcode, b0, b1, b2)
}

/// Fails unless the first byte of an instruction is zero.
pub fn assert_zero_b0(byte: u8) -> (r: Result<(), String>)
    ensures
        r is Ok <==> byte == 0,
{
    if byte != 0 {
        return Err("Instruction byte #0 should be zero".to_owned());
    }
    Ok(())
}

/// Fails unless the second byte of an instruction is zero.
pub fn assert_zero_b1(byte: u8) -> (r: Result<(), String>)
    ensures
        r is Ok <==> byte == 0,
{
    if byte != 0 {
        return Err("Instruction byte #1 should be zero".to_owned());
    }
    Ok(())
}

/// Fails unless the second data type (the high half of the third byte) is zero.
pub fn assert_zero_type2(byte: u8) -> (r: Result<(), String>)
    ensures
        r is Ok <==> byte >> 4 == 0,
{
    if byte >> 4 != 0 {
        return Err("Instruction data type 2 (in byte #2) should be zero".to_owned());
    }
    Ok(())
}

} // verus!
