//! The bytecode model: data types, instance and variable types, code values and instructions.

use vstd::prelude::*;
use crate::elements::functions::GMFunction;
use crate::elements::game_objects::GMGameObject;
use crate::elements::variables::GMVariable;
use crate::refs::{gm_ref, GMRef};

verus! {

/// The type of a value on the VM stack, as encoded in instructions.
#[derive(Clone, Copy, Debug, PartialEq, Eq, Structural)]
pub enum GMDataType {
    /// 64-bit floating point number (8 bytes on the stack).
    Double,
    /// 32-bit signed integer.
    Int32,
    /// 64-bit signed integer.
    Int64,
    /// Boolean, represented as a 32-bit 0 or 1.
    Boolean,
    /// Dynamic GML value (`RValue`).
    Variable,
    /// String, represented as a 32-bit ID.
    String,
    /// 16-bit signed integer, embedded in the instruction.
    Int16,
}

/// The encoding of a data type.
pub open spec fn data_type_code(t: GMDataType) -> u8 {
    match t {
        GMDataType::Double => 0,
        GMDataType::Int32 => 2,
        GMDataType::Int64 => 3,
        GMDataType::Boolean => 4,
        GMDataType::Variable => 5,
        GMDataType::String => 6,
        GMDataType::Int16 => 15,
    }
}

/// The data type with encoding `v`, if any.
pub open spec fn data_type_of_code(v: u8) -> Option<GMDataType> {
    if v == 0 {
        Some(GMDataType::Double)
    } else if v == 2 {
        Some(GMDataType::Int32)
    } else if v == 3 {
        Some(GMDataType::Int64)
    } else if v == 4 {
        Some(GMDataType::Boolean)
    } else if v == 5 {
        Some(GMDataType::Variable)
    } else if v == 6 {
        Some(GMDataType::String)
    } else if v == 15 {
        Some(GMDataType::Int16)
    } else {
        None
    }
}

impl GMDataType {
    /// The encoding of this data type.
    pub fn to_u8(self) -> (r: u8)
        ensures
            r == data_type_code(self),
    {
        match self {
            GMDataType::Double => 0,
            GMDataType::Int32 => 2,
            GMDataType::Int64 => 3,
            GMDataType::Boolean => 4,
            GMDataType::Variable => 5,
            GMDataType::String => 6,
            GMDataType::Int16 => 15,
        }
    }

    /// The data type with encoding `v`; fails on an unknown encoding.
    pub fn from_u8(v: u8) -> (r: Result<GMDataType, String>)
        ensures
            match r {
                Ok(t) => data_type_of_code(v) == Some(t),
                Err(_) => data_type_of_code(v) is None,
            },
    {
        match v {
            0 => Ok(GMDataType::Double),
            2 => Ok(GMDataType::Int32),
            3 => Ok(GMDataType::Int64),
            4 => Ok(GMDataType::Boolean),
            5 => Ok(GMDataType::Variable),
            6 => Ok(GMDataType::String),
            15 => Ok(GMDataType::Int16),
            _ => Err("Invalid data type".to_owned()),
        }
    }
}

/// Decoding the encoding of a data type gives it back.
pub proof fn lemma_data_type_code_roundtrip(t: GMDataType)
    ensures
        data_type_of_code(data_type_code(t)) == Some(t),
        data_type_code(t) < 16,
{
}

/// How a variable is referenced (single, array, stack top, ...).
#[derive(Clone, Copy, Debug, PartialEq, Eq, Structural)]
pub enum GMVariableType {
    /// Normal single-dimension array variable.
    Array,
    /// Referenced on another variable, as in a chain reference.
    StackTop,
    /// A normal variable.
    Normal,
    /// Referenced on a room instance ID.
    Instance,
    /// GMS2.3+ multidimensional array with pushaf.
    ArrayPushAF,
    /// GMS2.3+ multidimensional array with pushaf or popaf.
    ArrayPopAF,
}

pub open spec fn variable_type_code(t: GMVariableType) -> u8 {
    match t {
        GMVariableType::Array => 0x00,
        GMVariableType::StackTop => 0x80,
        GMVariableType::Normal => 0xA0,
        GMVariableType::Instance => 0xE0,
        GMVariableType::ArrayPushAF => 0x10,
        GMVariableType::ArrayPopAF => 0x90,
    }
}

pub open spec fn variable_type_of_code(v: u8) -> Option<GMVariableType> {
    if v == 0x00 {
        Some(GMVariableType::Array)
    } else if v == 0x80 {
        Some(GMVariableType::StackTop)
    } else if v == 0xA0 {
        Some(GMVariableType::Normal)
    } else if v == 0xE0 {
        Some(GMVariableType::Instance)
    } else if v == 0x10 {
        Some(GMVariableType::ArrayPushAF)
    } else if v == 0x90 {
        Some(GMVariableType::ArrayPopAF)
    } else {
        None
    }
}

impl GMVariableType {
    pub fn to_u8(self) -> (r: u8)
        ensures
            r == variable_type_code(self),
    {
        match self {
            GMVariableType::Array => 0x00,
            GMVariableType::StackTop => 0x80,
            GMVariableType::Normal => 0xA0,
            GMVariableType::Instance => 0xE0,
            GMVariableType::ArrayPushAF => 0x10,
            GMVariableType::ArrayPopAF => 0x90,
        }
    }

    pub fn from_u8(v: u8) -> (r: Result<GMVariableType, String>)
        ensures
            match r {
                Ok(t) => variable_type_of_code(v) == Some(t),
                Err(_) => variable_type_of_code(v) is None,
            },
    {
        match v {
            0x00 => Ok(GMVariableType::Array),
            0x80 => Ok(GMVariableType::StackTop),
            0xA0 => Ok(GMVariableType::Normal),
            0xE0 => Ok(GMVariableType::Instance),
            0x10 => Ok(GMVariableType::ArrayPushAF),
            0x90 => Ok(GMVariableType::ArrayPopAF),
            _ => Err("Invalid variable type".to_owned()),
        }
    }
}

/// Decoding the encoding of a variable type gives it back; every encoding has its
/// low three bits clear.
pub proof fn lemma_variable_type_code_roundtrip(t: GMVariableType)
    ensures
        variable_type_of_code(variable_type_code(t)) == Some(t),
        variable_type_code(t) & 0xF8 == variable_type_code(t),
{
    let c = variable_type_code(t);
    assert(c == 0x00 || c == 0x80 || c == 0xA0 || c == 0xE0 || c == 0x10 || c == 0x90);
    assert((c == 0x00 || c == 0x80 || c == 0xA0 || c == 0xE0 || c == 0x10 || c == 0x90) ==> c
        & 0xF8 == c) by (bit_vector);
}

/// The comparison performed by a `cmp` instruction.
#[derive(Clone, Copy, Debug, PartialEq, Eq, Structural)]
pub enum GMComparisonType {
    LessThan,
    LessOrEqual,
    Equal,
    NotEqual,
    GreaterOrEqual,
    GreaterThan,
}

pub open spec fn comparison_type_code(t: GMComparisonType) -> u8 {
    match t {
        GMComparisonType::LessThan => 1,
        GMComparisonType::LessOrEqual => 2,
        GMComparisonType::Equal => 3,
        GMComparisonType::NotEqual => 4,
        GMComparisonType::GreaterOrEqual => 5,
        GMComparisonType::GreaterThan => 6,
    }
}

pub open spec fn comparison_type_of_code(v: u8) -> Option<GMComparisonType> {
    if v == 1 {
        Some(GMComparisonType::LessThan)
    } else if v == 2 {
        Some(GMComparisonType::LessOrEqual)
    } else if v == 3 {
        Some(GMComparisonType::Equal)
    } else if v == 4 {
        Some(GMComparisonType::NotEqual)
    } else if v == 5 {
        Some(GMComparisonType::GreaterOrEqual)
    } else if v == 6 {
        Some(GMComparisonType::GreaterThan)
    } else {
        None
    }
}

impl GMComparisonType {
    pub fn to_u8(self) -> (r: u8)
        ensures
            r == comparison_type_code(self),
    {
        match self {
            GMComparisonType::LessThan => 1,
            GMComparisonType::LessOrEqual => 2,
            GMComparisonType::Equal => 3,
            GMComparisonType::NotEqual => 4,
            GMComparisonType::GreaterOrEqual => 5,
            GMComparisonType::GreaterThan => 6,
        }
    }

    pub fn from_u8(v: u8) -> (r: Result<GMComparisonType, String>)
        ensures
            match r {
                Ok(t) => comparison_type_of_code(v) == Some(t),
                Err(_) => comparison_type_of_code(v) is None,
            },
    {
        match v {
            1 => Ok(GMComparisonType::LessThan),
            2 => Ok(GMComparisonType::LessOrEqual),
            3 => Ok(GMComparisonType::Equal),
            4 => Ok(GMComparisonType::NotEqual),
            5 => Ok(GMComparisonType::GreaterOrEqual),
            6 => Ok(GMComparisonType::GreaterThan),
            _ => Err("Invalid comparison type".to_owned()),
        }
    }
}

/// Whether `x` and `y` stand in the relation that `c` names: `LessThan` holds when `x < y`,
/// `LessOrEqual` when `x <= y`, and so on.
pub open spec fn comparison_holds(c: GMComparisonType, x: int, y: int) -> bool {
    match c {
        GMComparisonType::LessThan => x < y,
        GMComparisonType::LessOrEqual => x <= y,
        GMComparisonType::Equal => x == y,
        GMComparisonType::NotEqual => x != y,
        GMComparisonType::GreaterOrEqual => x >= y,
        GMComparisonType::GreaterThan => x > y,
    }
}

/// The relation that comparison byte `k` of a `cmp` instruction asks the runner for: 1 less,
/// 2 less or equal, 3 equal, 4 not equal, 5 greater or equal, 6 greater; other bytes none.
pub open spec fn comparison_code_relation(k: u8, x: int, y: int) -> bool {
    if k == 1 {
        x < y
    } else if k == 2 {
        x <= y
    } else if k == 3 {
        x == y
    } else if k == 4 {
        x != y
    } else if k == 5 {
        x >= y
    } else if k == 6 {
        x > y
    } else {
        false
    }
}

/// The byte a comparison is written as asks the runner for that very comparison, on all
/// operands.
pub proof fn law_comparison_code_meaning(c: GMComparisonType, x: int, y: int)
    ensures
        comparison_code_relation(comparison_type_code(c), x, y) == comparison_holds(c, x, y),
{
}

/// Exactly the bytes 1 to 6 read as comparisons, and the comparison a byte reads as is the
/// relation the runner takes that byte for, on all operands.
pub proof fn law_comparison_decode_meaning(k: u8, x: int, y: int)
    ensures
        (comparison_type_of_code(k) is Some) == (1 <= k <= 6),
        comparison_type_of_code(k) matches Some(c) ==> comparison_holds(c, x, y) == comparison_code_relation(k, x, y),
{
}

pub proof fn lemma_comparison_type_code_roundtrip(t: GMComparisonType)
    ensures
        comparison_type_of_code(comparison_type_code(t)) == Some(t),
        1 <= comparison_type_code(t) <= 6,
{
}

/// The instance a variable belongs to.
pub enum GMInstanceType {
    Undefined,
    /// The current instance, or the instances of a game object.
    Self_(Option<GMRef<GMGameObject>>),
    /// A room instance ID; used with variable type `Instance`.
    RoomInstance(i16),
    Other,
    All,
    Noone,
    Global,
    Builtin,
    Local,
    StackTop,
    Argument,
    Static,
}

impl Clone for GMInstanceType {
    fn clone(&self) -> (r: Self)
        ensures
            r == *self,
    {
        match self {
            GMInstanceType::Undefined => GMInstanceType::Undefined,
            GMInstanceType::Self_(o) => GMInstanceType::Self_(*o),
            GMInstanceType::RoomInstance(i) => GMInstanceType::RoomInstance(*i),
            GMInstanceType::Other => GMInstanceType::Other,
            GMInstanceType::All => GMInstanceType::All,
            GMInstanceType::Noone => GMInstanceType::Noone,
            GMInstanceType::Global => GMInstanceType::Global,
            GMInstanceType::Builtin => GMInstanceType::Builtin,
            GMInstanceType::Local => GMInstanceType::Local,
            GMInstanceType::StackTop => GMInstanceType::StackTop,
            GMInstanceType::Argument => GMInstanceType::Argument,
            GMInstanceType::Static => GMInstanceType::Static,
        }
    }
}

/// The instance type encoded by `raw`; positive values are object or room instance IDs.
pub open spec fn instance_type_of_code(raw: i16, variable_type: GMVariableType) -> Option<GMInstanceType> {
    if raw > 0 {
        if variable_type == GMVariableType::Instance {
            Some(GMInstanceType::RoomInstance(raw))
        } else {
            Some(GMInstanceType::Self_(Some(gm_ref(raw as u32))))
        }
    } else if raw == 0 {
        Some(GMInstanceType::Undefined)
    } else if raw == -1 {
        Some(GMInstanceType::Self_(None))
    } else if raw == -2 {
        Some(GMInstanceType::Other)
    } else if raw == -3 {
        Some(GMInstanceType::All)
    } else if raw == -4 {
        Some(GMInstanceType::Noone)
    } else if raw == -5 {
        Some(GMInstanceType::Global)
    } else if raw == -6 {
        Some(GMInstanceType::Builtin)
    } else if raw == -7 {
        Some(GMInstanceType::Local)
    } else if raw == -9 {
        Some(GMInstanceType::StackTop)
    } else if raw == -15 {
        Some(GMInstanceType::Argument)
    } else if raw == -16 {
        Some(GMInstanceType::Static)
    } else {
        None
    }
}

/// The encoding of an instance type.
pub open spec fn instance_type_code(t: GMInstanceType) -> i16 {
    match t {
        GMInstanceType::Undefined => 0i16,
        GMInstanceType::Self_(None) => -1i16,
        GMInstanceType::Self_(Some(r)) => r.index as i16,
        GMInstanceType::RoomInstance(id) => id,
        GMInstanceType::Other => -2i16,
        GMInstanceType::All => -3i16,
        GMInstanceType::Noone => -4i16,
        GMInstanceType::Global => -5i16,
        GMInstanceType::Builtin => -6i16,
        GMInstanceType::Local => -7i16,
        GMInstanceType::StackTop => -9i16,
        GMInstanceType::Argument => -15i16,
        GMInstanceType::Static => -16i16,
    }
}

/// Decodes an instance type; fails on an unknown nonpositive value.
pub fn parse_instance_type(raw_value: i16, variable_type: GMVariableType) -> (r: Result<GMInstanceType, String>)
    ensures
        match r {
            Ok(t) => instance_type_of_code(raw_value, variable_type) == Some(t),
            Err(_) => instance_type_of_code(raw_value, variable_type) is None,
        },
{
    if raw_value > 0 {
        return Ok(
            if matches!(variable_type, GMVariableType::Instance) {
                GMInstanceType::RoomInstance(raw_value)
            } else {
                GMInstanceType::Self_(Some(GMRef::new(raw_value as u32)))
            },
        );
    }
    match raw_value {
        0 => Ok(GMInstanceType::Undefined),
        -1 => Ok(GMInstanceType::Self_(None)),
        -2 => Ok(GMInstanceType::Other),
        -3 => Ok(GMInstanceType::All),
        -4 => Ok(GMInstanceType::Noone),
        -5 => Ok(GMInstanceType::Global),
        -6 => Ok(GMInstanceType::Builtin),
        -7 => Ok(GMInstanceType::Local),
        -9 => Ok(GMInstanceType::StackTop),
        -15 => Ok(GMInstanceType::Argument),
        -16 => Ok(GMInstanceType::Static),
        _ => Err("Invalid instance type".to_owned()),
    }
}

/// Encodes an instance type.
pub fn build_instance_type(instance_type: &GMInstanceType) -> (r: i16)
    ensures
        r == instance_type_code(*instance_type),
{
    match instance_type {
        GMInstanceType::Undefined => 0,
        GMInstanceType::Self_(None) => -1,
        GMInstanceType::Self_(Some(game_object_ref)) => game_object_ref.index as i16,
        GMInstanceType::RoomInstance(instance_id) => *instance_id,
        GMInstanceType::Other => -2,
        GMInstanceType::All => -3,
        GMInstanceType::Noone => -4,
        GMInstanceType::Global => -5,
        GMInstanceType::Builtin => -6,
        GMInstanceType::Local => -7,
        GMInstanceType::StackTop => -9,
        GMInstanceType::Argument => -15,
        GMInstanceType::Static => -16,
    }
}

/// An instance type survives encoding when an object reference fits in 15 bits and a room
/// instance ID is positive and paired with the `Instance` variable type.
pub open spec fn instance_type_encodable(t: GMInstanceType, variable_type: GMVariableType) -> bool {
    match t {
        GMInstanceType::Self_(Some(r)) => 0 < r.index <= 0x7FFF && variable_type != GMVariableType::Instance,
        GMInstanceType::RoomInstance(id) => id > 0 && variable_type == GMVariableType::Instance,
        _ => true,
    }
}

/// Decoding the encoding of an instance type gives it back.
pub proof fn lemma_instance_type_roundtrip(t: GMInstanceType, variable_type: GMVariableType)
    requires
        instance_type_encodable(t, variable_type),
    ensures
        instance_type_of_code(instance_type_code(t), variable_type) == Some(t),
{
    match t {
        GMInstanceType::Self_(Some(r)) => {
            assert((r.index as i16) as u32 == r.index);
            assert(gm_ref::<GMGameObject>(r.index) == r);
        },
        _ => {},
    }
}

/// A variable referenced by an instruction.
pub struct CodeVariable {
    pub variable: GMRef<GMVariable>,
    pub variable_type: GMVariableType,
    pub instance_type: GMInstanceType,
    pub is_int32: bool,
}

impl Clone for CodeVariable {
    fn clone(&self) -> (r: Self)
        ensures
            r == *self,
    {
        CodeVariable {
            variable: self.variable,
            variable_type: self.variable_type,
            instance_type: self.instance_type.clone(),
            is_int32: self.is_int32,
        }
    }
}

/// A constant or variable pushed by a push instruction.
/// A `Double` is held as the bits of the 64-bit floating point number.
pub enum GMCodeValue {
    Int16(i16),
    Int32(i32),
    Int64(i64),
    Double(u64),
    Boolean(bool),
    String(GMRef<String>),
    Variable(CodeVariable),
    /// An inline or anonymous function, pushed as an Int32.
    Function(GMRef<GMFunction>),
}

impl Clone for GMCodeValue {
    fn clone(&self) -> (r: Self)
        ensures
            r == *self,
    {
        match self {
            GMCodeValue::Int16(v) => GMCodeValue::Int16(*v),
            GMCodeValue::Int32(v) => GMCodeValue::Int32(*v),
            GMCodeValue::Int64(v) => GMCodeValue::Int64(*v),
            GMCodeValue::Double(v) => GMCodeValue::Double(*v),
            GMCodeValue::Boolean(v) => GMCodeValue::Boolean(*v),
            GMCodeValue::String(v) => GMCodeValue::String(*v),
            GMCodeValue::Variable(v) => GMCodeValue::Variable(v.clone()),
            GMCodeValue::Function(v) => GMCodeValue::Function(*v),
        }
    }
}

/// The data type under which a value is pushed.
pub open spec fn spec_value_data_type(v: GMCodeValue) -> GMDataType {
    match v {
        GMCodeValue::Int16(_) => GMDataType::Int16,
        GMCodeValue::Int32(_) => GMDataType::Int32,
        GMCodeValue::Function(_) => GMDataType::Int32,
        GMCodeValue::Variable(var) => if var.is_int32 {
            GMDataType::Int32
        } else {
            GMDataType::Variable
        },
        GMCodeValue::Int64(_) => GMDataType::Int64,
        GMCodeValue::Double(_) => GMDataType::Double,
        GMCodeValue::Boolean(_) => GMDataType::Boolean,
        GMCodeValue::String(_) => GMDataType::String,
    }
}

impl GMCodeValue {
    /// The data type under which this value is pushed.
    pub fn data_type(&self) -> (r: GMDataType)
        ensures
            r == spec_value_data_type(*self),
    {
        match self {
            GMCodeValue::Int16(_) => GMDataType::Int16,
            GMCodeValue::Int32(_) => GMDataType::Int32,
            GMCodeValue::Function(_) => GMDataType::Int32,
            GMCodeValue::Variable(var) => if var.is_int32 {
                GMDataType::Int32
            } else {
                GMDataType::Variable
            },
            GMCodeValue::Int64(_) => GMDataType::Int64,
            GMCodeValue::Double(_) => GMDataType::Double,
            GMCodeValue::Boolean(_) => GMDataType::Boolean,
            GMCodeValue::String(_) => GMDataType::String,
        }
    }
}

} // verus!
