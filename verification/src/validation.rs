//! A check of a code entry's instructions against a model of the VM stack: every path
//! through the code is followed, and each instruction must find on the stack what it
//! takes off it.

use vstd::prelude::*;
use bimap::BiHashMap;
use crate::address_map::{
    address_pairs, code_size, find_address, find_index, generate_address_map, index_at_address,
    instruction_address, is_address_map,
};
use crate::code::{
    instance_type_of_code, parse_instance_type, spec_value_data_type, GMCodeValue, GMDataType,
    GMInstanceType, GMVariableType,
};
use crate::data::GMData;
use crate::elements::codes::GMCode;
use crate::instructions::GMInstruction;
use crate::assembler::instance_type_eq;

verus! {

/// What the model knows of a value on the stack: its type, and for an `Int32` pushed as
/// a constant, its value.
#[derive(Clone, Copy, Debug, PartialEq, Eq, Structural)]
pub enum VMStackItem {
    Int32(Option<i32>),
    Int64,
    Float,
    Double,
    Boolean,
    Variable,
    String,
}

/// Why a code entry failed the check.
pub enum CodeValidationError {
    CodeEndWithoutExit(usize, usize),
    PopStackEmpty,
    PeekStackEmpty,
    TypeMismatch(VMStackItem, GMDataType),
    NormalPopFirstNotVar(GMDataType),
    UnnormalPopFirstNotInt32(GMVariableType, GMDataType),
    UnnormalPopSecondNotVar(GMVariableType, GMDataType),
    VariableUnresolvable(u32),
    ParentCodeUnresolvable(u32),
    InvalidInitialOffset(u32),
    InvalidBranchTarget(u32),
    ExitStackLeftover(VMStack),
    BranchStackLeftover(VMStack),
    PushImmediateNotInt16(GMDataType),
    PushVarWrongDataType(GMDataType),
    PushVarWrongInstanceType(GMInstanceType),
    CallArgumentNotVar(VMStackItem),
    SpecialVarTypeNotInt32(GMVariableType, GMDataType),
    BranchConditionNotBool(VMStackItem),
    StackTopNotInt32(VMStackItem),
    SetOwnerNotInt32(VMStackItem),
    Int16OutOfBounds(i32),
    InvalidInt16InstanceType(i16),
    UnacceptableInstanceType(GMInstanceType),
    /// The paths through the code took more steps than the check allows (a loop in the
    /// code makes the paths endless).
    StepLimitExceeded,
}

/// The stack item that a value of data type `t` leaves.
pub open spec fn item_of_data_type(t: GMDataType) -> VMStackItem {
    match t {
        GMDataType::Int32 | GMDataType::Int16 => VMStackItem::Int32(None),
        GMDataType::Int64 => VMStackItem::Int64,
        GMDataType::Double => VMStackItem::Double,
        GMDataType::Boolean => VMStackItem::Boolean,
        GMDataType::Variable => VMStackItem::Variable,
        GMDataType::String => VMStackItem::String,
    }
}

/// Whether `item` is a value of data type `t` (an `Int32` item serves for `Int16` too).
pub open spec fn item_has_type(item: VMStackItem, t: GMDataType) -> bool {
    match (item, t) {
        (VMStackItem::Int32(_), GMDataType::Int16) => true,
        (VMStackItem::Int32(_), GMDataType::Int32) => true,
        (VMStackItem::Int64, GMDataType::Int64) => true,
        (VMStackItem::Double, GMDataType::Double) => true,
        (VMStackItem::Boolean, GMDataType::Boolean) => true,
        (VMStackItem::Variable, GMDataType::Variable) => true,
        (VMStackItem::String, GMDataType::String) => true,
        _ => false,
    }
}

/// The error of checking `item` against `t`, if any.
pub open spec fn type_check(item: VMStackItem, t: GMDataType) -> Option<CodeValidationError> {
    if item_has_type(item, t) {
        None
    } else {
        Some(CodeValidationError::TypeMismatch(item, t))
    }
}

/// The error of an instance type taken from the stack (for variable type `StackTop`), if
/// any: it must be a constant `Int32` that fits an `Int16` and names an instance type
/// other than a game object, a room instance or `Undefined`.
pub open spec fn stacktop_check(item: VMStackItem) -> Option<CodeValidationError> {
    match item {
        VMStackItem::Int32(Some(v)) => if v < i16::MIN || v > i16::MAX {
            Some(CodeValidationError::Int16OutOfBounds(v))
        } else {
            match instance_type_of_code(v as i16, GMVariableType::Array) {
                None => Some(CodeValidationError::InvalidInt16InstanceType(v as i16)),
                Some(t) => match t {
                    GMInstanceType::Self_(Some(_)) | GMInstanceType::RoomInstance(_)
                    | GMInstanceType::Undefined => Some(CodeValidationError::UnacceptableInstanceType(t)),
                    _ => None,
                },
            }
        },
        _ => Some(CodeValidationError::SetOwnerNotInt32(item)),
    }
}

impl VMStackItem {
    /// The stack item that a value of data type `data_type` leaves.
    pub fn from_data_type(data_type: GMDataType) -> (r: Self)
        ensures
            r == item_of_data_type(data_type),
    {
        match data_type {
            GMDataType::Int32 | GMDataType::Int16 => Self::Int32(None),
            GMDataType::Int64 => Self::Int64,
            GMDataType::Double => Self::Double,
            GMDataType::Boolean => Self::Boolean,
            GMDataType::Variable => Self::Variable,
            GMDataType::String => Self::String,
        }
    }

    /// The stack item of a constant `Int32`.
    pub fn from_int32(value: i32) -> (r: Self)
        ensures
            r == VMStackItem::Int32(Some(value)),
    {
        Self::Int32(Some(value))
    }

    /// Fails with `TypeMismatch` unless this item is a value of `data_type`.
    pub fn assert_data_type(&self, data_type: GMDataType) -> (r: Result<(), CodeValidationError>)
        ensures
            match r {
                Ok(()) => type_check(*self, data_type) is None,
                Err(e) => type_check(*self, data_type) == Some(e),
            },
    {
        match (self, data_type) {
            (Self::Int32(_), GMDataType::Int16) => {},
            (Self::Int32(_), GMDataType::Int32) => {},
            (Self::Int64, GMDataType::Int64) => {},
            (Self::Double, GMDataType::Double) => {},
            (Self::Boolean, GMDataType::Boolean) => {},
            (Self::Variable, GMDataType::Variable) => {},
            (Self::String, GMDataType::String) => {},
            (_, _) => return Err(CodeValidationError::TypeMismatch(*self, data_type)),
        }
        Ok(())
    }
}

/// Checks an instance type taken from the stack for variable type `StackTop`.
pub fn validate_stacktop(item: VMStackItem) -> (r: Result<(), CodeValidationError>)
    ensures
        match r {
            Ok(()) => stacktop_check(item) is None,
            Err(e) => stacktop_check(item) == Some(e),
        },
{
    let int32 = match item {
        VMStackItem::Int32(Some(v)) => v,
        _ => return Err(CodeValidationError::SetOwnerNotInt32(item)),
    };
    if int32 < -0x8000 || int32 > 0x7FFF {
        return Err(CodeValidationError::Int16OutOfBounds(int32));
    }
    let int16 = int32 as i16;
    let instance_type = match parse_instance_type(int16, GMVariableType::Array) {
        Ok(t) => t,
        Err(_) => return Err(CodeValidationError::InvalidInt16InstanceType(int16)),
    };
    if matches!(instance_type, GMInstanceType::Self_(Some(_)) | GMInstanceType::RoomInstance(_) | GMInstanceType::Undefined) {
        return Err(CodeValidationError::UnacceptableInstanceType(instance_type));
    }
    Ok(())
}

/// The model of the VM stack: the items on it, the last one on top.
pub struct VMStack {
    items: Vec<VMStackItem>,
}

impl View for VMStack {
    type V = Seq<VMStackItem>;

    closed spec fn view(&self) -> Seq<VMStackItem> {
        self.items@
    }
}

impl Clone for VMStack {
    fn clone(&self) -> (r: Self)
        ensures
            r@ == self@,
    {
        let items = self.items.clone();
        proof {
            assert(items@ =~= self.items@);
        }
        VMStack { items }
    }
}

impl VMStack {
    /// An empty stack.
    pub fn new() -> (s: Self)
        ensures
            s@ == Seq::<VMStackItem>::empty(),
    {
        VMStack { items: Vec::with_capacity(3) }
    }

    /// The items, the last one on top.
    pub fn items(&self) -> (r: &Vec<VMStackItem>)
        ensures
            r@ == self@,
    {
        &self.items
    }

    /// Puts `item` on top.
    pub fn push(&mut self, item: VMStackItem)
        ensures
            final(self)@ == old(self)@.push(item),
    {
        self.items.push(item);
    }

    /// Puts the item of a value of `data_type` on top.
    pub fn push_data_type(&mut self, data_type: GMDataType)
        ensures
            final(self)@ == old(self)@.push(item_of_data_type(data_type)),
    {
        self.push(VMStackItem::from_data_type(data_type));
    }

    /// Takes the top item off; fails with `PopStackEmpty` on an empty stack.
    pub fn pop(&mut self) -> (r: Result<VMStackItem, CodeValidationError>)
        ensures
            old(self)@.len() == 0 ==> r is Err && r->Err_0 == CodeValidationError::PopStackEmpty && final(self)@ == old(self)@,
            old(self)@.len() > 0 ==> (r matches Ok(item) && item == old(self)@.last()) && final(self)@ == old(self)@.drop_last(),
    {
        match self.items.pop() {
            Some(item) => Ok(item),
            None => Err(CodeValidationError::PopStackEmpty),
        }
    }

    /// The top item; fails with `PeekStackEmpty` on an empty stack.
    pub fn peek(&self) -> (r: Result<&VMStackItem, CodeValidationError>)
        ensures
            self@.len() == 0 ==> r is Err && r->Err_0 == CodeValidationError::PeekStackEmpty,
            self@.len() > 0 ==> r is Ok && *r->Ok_0 == self@.last(),
    {
        let n = self.items.len();
        if n == 0 {
            Err(CodeValidationError::PeekStackEmpty)
        } else {
            Ok(&self.items[n - 1])
        }
    }

    /// Whether the stack is empty.
    pub fn is_empty(&self) -> (r: bool)
        ensures
            r == (self@.len() == 0),
    {
        self.items.len() == 0
    }
}

/// How many instructions the check follows, over all paths, before it gives up.
pub const VALIDATION_STEP_LIMIT: u64 = 1000000;

/// What one instruction does to the model.
pub enum Step {
    /// Go on at the index with the stack.
    Next(Seq<VMStackItem>, int),
    /// Follow the branch to the first index, then (if that path is valid) go on at the
    /// second; both with the stack.
    Fork(Seq<VMStackItem>, int, int),
    /// The code returns or exits with an empty stack.
    Done,
    Fail(CodeValidationError),
    /// The code returns or exits with these items left on the stack.
    Leftover(Seq<VMStackItem>),
    /// The instruction is one whose check is not written, or its branch target does not
    /// fit an `i32`: the check cannot go on.
    Aborts,
}

/// Pops an item of type `t_in` and pushes one of `t_out`.
pub open spec fn unary_step(s: Seq<VMStackItem>, t_in: GMDataType, t_out: GMDataType, next: int) -> Step {
    if s.len() == 0 {
        Step::Fail(CodeValidationError::PopStackEmpty)
    } else {
        match type_check(s.last(), t_in) {
            Some(e) => Step::Fail(e),
            None => Step::Next(s.drop_last().push(item_of_data_type(t_out)), next),
        }
    }
}

/// Pops two items, the lower one checked against `t_lower` and the top one against
/// `t_top` (in that order), and pushes an item of `t_out`.
pub open spec fn binary_step(
    s: Seq<VMStackItem>,
    t_lower: GMDataType,
    t_top: GMDataType,
    t_out: GMDataType,
    next: int,
) -> Step {
    if s.len() < 2 {
        Step::Fail(CodeValidationError::PopStackEmpty)
    } else {
        match type_check(s[s.len() - 2], t_lower) {
            Some(e) => Step::Fail(e),
            None => match type_check(s.last(), t_top) {
                Some(e) => Step::Fail(e),
                None => Step::Next(s.take(s.len() - 2).push(item_of_data_type(t_out)), next),
            },
        }
    }
}

/// Pops two items, the top one checked against `t_top` and the lower one against
/// `t_lower` (in that order), and pushes a `Boolean`.
pub open spec fn compare_step(s: Seq<VMStackItem>, t_top: GMDataType, t_lower: GMDataType, next: int) -> Step {
    if s.len() < 2 {
        Step::Fail(CodeValidationError::PopStackEmpty)
    } else {
        match type_check(s.last(), t_top) {
            Some(e) => Step::Fail(e),
            None => match type_check(s[s.len() - 2], t_lower) {
                Some(e) => Step::Fail(e),
                None => Step::Next(s.take(s.len() - 2).push(VMStackItem::Boolean), next),
            },
        }
    }
}

/// A pop into a variable: first what the variable type takes off the stack, then the
/// value, whose types must agree with the instruction's.
pub open spec fn pop_step(
    s: Seq<VMStackItem>,
    type1: GMDataType,
    type2: GMDataType,
    vt: GMVariableType,
    next: int,
) -> Step {
    let pre: Option<Result<Seq<VMStackItem>, CodeValidationError>> = match vt {
        GMVariableType::Normal => Some(Ok(s)),
        GMVariableType::StackTop => if s.len() == 0 {
            Some(Err(CodeValidationError::PopStackEmpty))
        } else {
            match stacktop_check(s.last()) {
                Some(e) => Some(Err(e)),
                None => Some(Ok(s.drop_last())),
            }
        },
        GMVariableType::Array => if s.len() == 0 {
            Some(Err(CodeValidationError::PopStackEmpty))
        } else {
            match type_check(s.last(), GMDataType::Int32) {
                Some(e) => Some(Err(e)),
                None => Some(Ok(s.drop_last())),
            }
        },
        _ => None,
    };
    match pre {
        None => Step::Aborts,
        Some(Err(e)) => Step::Fail(e),
        Some(Ok(s1)) => if s1.len() == 0 {
            Step::Fail(CodeValidationError::PopStackEmpty)
        } else if vt == GMVariableType::Normal {
            if type1 != GMDataType::Variable {
                Step::Fail(CodeValidationError::NormalPopFirstNotVar(type1))
            } else {
                match type_check(s1.last(), type2) {
                    Some(e) => Step::Fail(e),
                    None => Step::Next(s1.drop_last(), next),
                }
            }
        } else if type1 != GMDataType::Int32 {
            Step::Fail(CodeValidationError::UnnormalPopFirstNotInt32(vt, type1))
        } else if type2 != GMDataType::Variable {
            Step::Fail(CodeValidationError::UnnormalPopSecondNotVar(vt, type1))
        } else {
            Step::Next(s1.drop_last(), next)
        },
    }
}

/// Pops `n` function arguments, each of which must be a `Variable`.
pub open spec fn pop_arguments(s: Seq<VMStackItem>, n: nat) -> Result<Seq<VMStackItem>, CodeValidationError>
    decreases n,
{
    if n == 0 {
        Ok(s)
    } else if s.len() == 0 {
        Err(CodeValidationError::PopStackEmpty)
    } else if s.last() != VMStackItem::Variable {
        Err(CodeValidationError::CallArgumentNotVar(s.last()))
    } else {
        pop_arguments(s.drop_last(), (n - 1) as nat)
    }
}

/// The address that a branch at `address` with `offset` goes to, computed in `i32` as the
/// VM does; `None` where the sum leaves the `i32` range.
pub open spec fn branch_target(address: u32, offset: i32) -> Option<u32> {
    let sum = (address as i32) + offset;
    if sum < i32::MIN || sum > i32::MAX {
        None
    } else {
        Some((sum as i32) as u32)
    }
}

/// A branch: a conditional one pops a `Boolean` first.
pub open spec fn branch_step(
    instructions: Seq<GMInstruction>,
    s: Seq<VMStackItem>,
    index: int,
    offset: i32,
    conditional: bool,
) -> Step {
    if conditional && s.len() == 0 {
        Step::Fail(CodeValidationError::PopStackEmpty)
    } else if conditional && s.last() != VMStackItem::Boolean {
        Step::Fail(CodeValidationError::BranchConditionNotBool(s.last()))
    } else {
        let s1 = if conditional { s.drop_last() } else { s };
        match branch_target(instruction_address(instructions, index) as u32, offset) {
            None => Step::Aborts,
            Some(target) => match index_at_address(instructions, target as int) {
                None => Step::Fail(CodeValidationError::InvalidBranchTarget(target)),
                Some(t) => if conditional {
                    Step::Fork(s1, t, index + 1)
                } else {
                    Step::Next(s1, t)
                },
            },
        }
    }
}

/// The item that a push of `value` leaves: a constant integer keeps its value.
pub open spec fn pushed_item(value: GMCodeValue) -> VMStackItem {
    match value {
        GMCodeValue::Int16(v) => VMStackItem::Int32(Some(v as i32)),
        GMCodeValue::Int32(v) => VMStackItem::Int32(Some(v)),
        _ => item_of_data_type(spec_value_data_type(value)),
    }
}

/// A push of a local, global or built-in variable: the value must be a variable of the
/// matching instance type.
pub open spec fn push_variable_step(
    s: Seq<VMStackItem>,
    value: GMCodeValue,
    instance: GMInstanceType,
    next: int,
) -> Step {
    match value {
        GMCodeValue::Variable(v) => if v.instance_type == instance {
            Step::Next(s.push(pushed_item(value)), next)
        } else {
            Step::Fail(CodeValidationError::PushVarWrongInstanceType(v.instance_type))
        },
        _ => Step::Fail(CodeValidationError::PushVarWrongDataType(spec_value_data_type(value))),
    }
}

/// A conversion takes one value of its source type (`right`) off the stack and leaves one
/// value of its target type (`left`) in its place, keeping the rest of the stack, and goes
/// on with the next instruction; it fails exactly when the stack is empty or its top is not
/// of the source type.
pub proof fn law_convert_step(instructions: Seq<GMInstruction>, s: Seq<VMStackItem>, index: int)
    requires
        0 <= index < instructions.len(),
        instructions[index] is Convert,
    ensures
        ({
            let d = instructions[index]->Convert_0;
            match step(instructions, s, index) {
                Step::Next(s2, n) => {
                    &&& s.len() > 0 && item_has_type(s.last(), d.right)
                    &&& n == index + 1
                    &&& s2.len() == s.len()
                    &&& s2.drop_last() == s.drop_last()
                    &&& item_has_type(s2.last(), d.left)
                },
                Step::Fail(_) => s.len() == 0 || !item_has_type(s.last(), d.right),
                _ => false,
            }
        }),
{
    let d = instructions[index]->Convert_0;
    if s.len() > 0 && item_has_type(s.last(), d.right) {
        let s2 = s.drop_last().push(item_of_data_type(d.left));
        assert(s2.drop_last() =~= s.drop_last());
    }
}

/// What the instruction at `index` does to stack `s`.
pub open spec fn step(instructions: Seq<GMInstruction>, s: Seq<VMStackItem>, index: int) -> Step {
    let next = index + 1;
    match instructions[index] {
        GMInstruction::Convert(d) => unary_step(s, d.right, d.left, next),
        GMInstruction::Multiply(d) | GMInstruction::Divide(d) | GMInstruction::Remainder(d)
        | GMInstruction::Modulus(d) | GMInstruction::Add(d) | GMInstruction::Subtract(d)
        | GMInstruction::And(d) | GMInstruction::Or(d) | GMInstruction::Xor(d)
        | GMInstruction::ShiftLeft(d) | GMInstruction::ShiftRight(d) => binary_step(s, d.right, d.left, d.left, next),
        GMInstruction::Negate(t) | GMInstruction::Not(t) => unary_step(s, t.data_type, t.data_type, next),
        GMInstruction::Compare(c) => compare_step(s, c.type1, c.type2, next),
        GMInstruction::Pop(p) => pop_step(s, p.type1, p.type2, p.destination.variable_type, next),
        GMInstruction::Duplicate(d) => if s.len() == 0 {
            Step::Fail(CodeValidationError::PeekStackEmpty)
        } else {
            match type_check(s.last(), d.data_type) {
                Some(e) => Step::Fail(e),
                None => Step::Next(s + Seq::new(d.size as nat + 1, |k: int| s.last()), next),
            }
        },
        GMInstruction::Return(t) => if s.len() == 0 {
            Step::Fail(CodeValidationError::PopStackEmpty)
        } else {
            match type_check(s.last(), t.data_type) {
                Some(e) => Step::Fail(e),
                None => if s.len() > 1 { Step::Leftover(s.drop_last()) } else { Step::Done },
            }
        },
        GMInstruction::Exit(_) => if s.len() > 0 { Step::Leftover(s) } else { Step::Done },
        GMInstruction::PopDiscard(t) => if s.len() == 0 {
            Step::Fail(CodeValidationError::PopStackEmpty)
        } else {
            match type_check(s.last(), t.data_type) {
                Some(e) => Step::Fail(e),
                None => Step::Next(s.drop_last(), next),
            }
        },
        GMInstruction::Branch(g) => branch_step(instructions, s, index, g.jump_offset, false),
        GMInstruction::BranchIf(g) | GMInstruction::BranchUnless(g) => branch_step(instructions, s, index, g.jump_offset, true),
        GMInstruction::Push(p) => Step::Next(s.push(pushed_item(p.value)), next),
        GMInstruction::PushLocal(p) => push_variable_step(s, p.value, GMInstanceType::Local, next),
        GMInstruction::PushGlobal(p) => push_variable_step(s, p.value, GMInstanceType::Global, next),
        GMInstruction::PushBuiltin(p) => push_variable_step(s, p.value, GMInstanceType::Self_(None), next),
        GMInstruction::PushImmediate(v) => Step::Next(s.push(VMStackItem::Int32(Some(v as i32))), next),
        GMInstruction::Call(c) => match pop_arguments(s, c.argument_count as nat) {
            Err(e) => Step::Fail(e),
            Ok(rest) => Step::Next(rest.push(VMStackItem::Variable), next),
        },
        GMInstruction::SetArrayOwner => if s.len() == 0 {
            Step::Fail(CodeValidationError::PopStackEmpty)
        } else {
            match s.last() {
                VMStackItem::Int32(Some(_)) => Step::Next(s.drop_last(), next),
                _ => Step::Fail(CodeValidationError::SetOwnerNotInt32(s.last())),
            }
        },
        _ => Step::Aborts,
    }
}

/// Where the check of a path ends.
pub enum Outcome {
    Valid,
    Invalid(CodeValidationError),
    /// The code returns or exits with these items left on the stack.
    Leftover(Seq<VMStackItem>),
    /// The check reached an instruction it cannot go past.
    Aborts,
    /// The steps ran out.
    Exhausted,
}

/// Follows the instructions from `index` with stack `s`, spending one of `fuel` steps per
/// instruction; a conditional branch is followed first, and on the path from it being
/// valid the fall-through is followed with the steps that are left. Gives the outcome and
/// the steps left. Running past the last instruction is valid.
pub open spec fn run(instructions: Seq<GMInstruction>, s: Seq<VMStackItem>, index: int, fuel: nat) -> (Outcome, nat)
    decreases fuel,
{
    if index < 0 || index >= instructions.len() {
        (Outcome::Valid, fuel)
    } else if fuel == 0 {
        (Outcome::Exhausted, 0)
    } else {
        let f = (fuel - 1) as nat;
        match step(instructions, s, index) {
            Step::Next(s1, j) => run(instructions, s1, j, f),
            Step::Fork(s1, t, j) => {
                let (o, rest) = run(instructions, s1, t, f);
                match o {
                    Outcome::Valid => run(instructions, s1, j, if rest < fuel { rest } else { f }),
                    _ => (o, rest),
                }
            },
            Step::Done => (Outcome::Valid, f),
            Step::Fail(e) => (Outcome::Invalid(e), f),
            Step::Leftover(s1) => (Outcome::Leftover(s1), f),
            Step::Aborts => (Outcome::Aborts, f),
        }
    }
}

/// A run never gives back more steps than it was given.
pub proof fn lemma_run_spends(instructions: Seq<GMInstruction>, s: Seq<VMStackItem>, index: int, fuel: nat)
    ensures
        run(instructions, s, index, fuel).1 <= fuel,
    decreases fuel,
{
    if 0 <= index < instructions.len() && fuel > 0 {
        let f = (fuel - 1) as nat;
        match step(instructions, s, index) {
            Step::Next(s1, j) => lemma_run_spends(instructions, s1, j, f),
            Step::Fork(s1, t, j) => {
                lemma_run_spends(instructions, s1, t, f);
                let rest = run(instructions, s1, t, f).1;
                lemma_run_spends(instructions, s1, j, rest);
            },
            _ => {},
        }
    }
}

/// `r` is what the check reports for outcome `o`.
pub open spec fn reports(o: Outcome, r: Result<(), CodeValidationError>) -> bool {
    match o {
        Outcome::Valid => r is Ok,
        Outcome::Invalid(e) => r matches Err(x) && x == e,
        Outcome::Leftover(s) => r matches Err(CodeValidationError::ExitStackLeftover(st)) && st@ == s,
        Outcome::Exhausted => r matches Err(CodeValidationError::StepLimitExceeded),
        Outcome::Aborts => false,
    }
}

/// What one instruction does, with the stack changed in place.
enum Transition {
    Next(usize),
    Fork(usize, usize),
    Done,
    Fail(CodeValidationError),
    Leftover,
    Aborts,
}

/// `t`, with the stack `after`, is the step `st`.
spec fn transition_is(t: Transition, after: Seq<VMStackItem>, st: Step) -> bool {
    match (t, st) {
        (Transition::Next(j), Step::Next(s, k)) => after == s && j == k,
        (Transition::Fork(i, j), Step::Fork(s, t2, k)) => after == s && i == t2 && j == k,
        (Transition::Done, Step::Done) => true,
        (Transition::Fail(e), Step::Fail(f)) => e == f,
        (Transition::Leftover, Step::Leftover(s)) => after == s,
        (Transition::Aborts, Step::Aborts) => true,
        _ => false,
    }
}

/// Pops an item of `t_in` and pushes one of `t_out`.
fn unary(stack: &mut VMStack, t_in: GMDataType, t_out: GMDataType, next: usize) -> (r: Transition)
    ensures
        transition_is(r, final(stack)@, unary_step(old(stack)@, t_in, t_out, next as int)),
{
    let item = match stack.pop() {
        Ok(i) => i,
        Err(e) => return Transition::Fail(e),
    };
    if let Err(e) = item.assert_data_type(t_in) {
        return Transition::Fail(e);
    }
    stack.push_data_type(t_out);
    Transition::Next(next)
}

/// Pops two items: the top one checked against `t_top`, the lower against `t_lower`, in the
/// order that `top_first` gives; pushes an item of `t_out`.
fn binary(stack: &mut VMStack, t_lower: GMDataType, t_top: GMDataType, t_out: GMDataType, top_first: bool, next: usize) -> (r: Transition)
    ensures
        top_first && t_out == GMDataType::Boolean ==> transition_is(r, final(stack)@, compare_step(old(stack)@, t_top, t_lower, next as int)),
        !top_first && t_out == t_top ==> transition_is(r, final(stack)@, binary_step(old(stack)@, t_lower, t_top, t_out, next as int)),
{
    let top = match stack.pop() {
        Ok(i) => i,
        Err(e) => return Transition::Fail(e),
    };
    let lower = match stack.pop() {
        Ok(i) => i,
        Err(e) => return Transition::Fail(e),
    };
    proof {
        assert(old(stack)@.take(old(stack)@.len() - 2) =~= stack@);
    }
    if top_first {
        if let Err(e) = top.assert_data_type(t_top) {
            return Transition::Fail(e);
        }
        if let Err(e) = lower.assert_data_type(t_lower) {
            return Transition::Fail(e);
        }
    } else {
        if let Err(e) = lower.assert_data_type(t_lower) {
            return Transition::Fail(e);
        }
        if let Err(e) = top.assert_data_type(t_top) {
            return Transition::Fail(e);
        }
    }
    stack.push_data_type(t_out);
    Transition::Next(next)
}

/// A pop into a variable of type `vt`.
fn pop_into(stack: &mut VMStack, type1: GMDataType, type2: GMDataType, vt: GMVariableType, next: usize) -> (r: Transition)
    ensures
        transition_is(r, final(stack)@, pop_step(old(stack)@, type1, type2, vt, next as int)),
{
    match vt {
        GMVariableType::Normal => {},
        GMVariableType::StackTop => {
            let instance_type_item = match stack.pop() {
                Ok(i) => i,
                Err(e) => return Transition::Fail(e),
            };
            if let Err(e) = validate_stacktop(instance_type_item) {
                return Transition::Fail(e);
            }
        },
        GMVariableType::Array => {
            let array_index = match stack.pop() {
                Ok(i) => i,
                Err(e) => return Transition::Fail(e),
            };
            if let Err(e) = array_index.assert_data_type(GMDataType::Int32) {
                return Transition::Fail(e);
            }
        },
        _ => return Transition::Aborts,
    }
    let item = match stack.pop() {
        Ok(i) => i,
        Err(e) => return Transition::Fail(e),
    };
    if matches!(vt, GMVariableType::Normal) {
        if !matches!(type1, GMDataType::Variable) {
            return Transition::Fail(CodeValidationError::NormalPopFirstNotVar(type1));
        }
        if let Err(e) = item.assert_data_type(type2) {
            return Transition::Fail(e);
        }
    } else {
        if !matches!(type1, GMDataType::Int32) {
            return Transition::Fail(CodeValidationError::UnnormalPopFirstNotInt32(vt, type1));
        }
        if !matches!(type2, GMDataType::Variable) {
            return Transition::Fail(CodeValidationError::UnnormalPopSecondNotVar(vt, type1));
        }
    }
    Transition::Next(next)
}

/// Pops `count` function arguments.
fn pop_call_arguments(stack: &mut VMStack, count: u16) -> (r: Result<(), CodeValidationError>)
    ensures
        match pop_arguments(old(stack)@, count as nat) {
            Ok(rest) => r is Ok && final(stack)@ == rest,
            Err(e) => r matches Err(x) && x == e,
        },
{
    let mut k: u16 = 0;
    while k < count
        invariant
            k <= count,
            pop_arguments(stack@, (count - k) as nat) == pop_arguments(old(stack)@, count as nat),
        decreases count - k,
    {
        let ghost before = stack@;
        let item = match stack.pop() {
            Ok(i) => i,
            Err(e) => return Err(e),
        };
        if !matches!(item, VMStackItem::Variable) {
            return Err(CodeValidationError::CallArgumentNotVar(item));
        }
        k = k + 1;
        proof {
            assert(pop_arguments(before, (count - k + 1) as nat) == pop_arguments(stack@, (count - k) as nat));
        }
    }
    Ok(())
}

/// A branch from instruction `index` by `offset`; a conditional one pops its condition.
fn branch(
    map: &BiHashMap<usize, u32>,
    instructions: &Vec<GMInstruction>,
    stack: &mut VMStack,
    index: usize,
    offset: i32,
    conditional: bool,
) -> (r: Transition)
    requires
        is_address_map(address_pairs(*map), instructions@),
        code_size(instructions@) <= u32::MAX,
        index < instructions@.len(),
    ensures
        transition_is(r, final(stack)@, branch_step(instructions@, old(stack)@, index as int, offset, conditional)),
{
    if conditional {
        let item = match stack.pop() {
            Ok(i) => i,
            Err(e) => return Transition::Fail(e),
        };
        if !matches!(item, VMStackItem::Boolean) {
            return Transition::Fail(CodeValidationError::BranchConditionNotBool(item));
        }
    }
    let n = instructions.len();
    let address = find_address(map, instructions, index);
    let base: i32 = #[verifier::truncate] (address as i32);
    let sum: i64 = base as i64 + offset as i64;
    if sum < -0x8000_0000i64 || sum > 0x7FFF_FFFFi64 {
        return Transition::Aborts;
    }
    let narrowed: i32 = sum as i32;
    let target: u32 = #[verifier::truncate] (narrowed as u32);
    match find_index(map, instructions, target) {
        None => Transition::Fail(CodeValidationError::InvalidBranchTarget(target)),
        Some(t) => if conditional {
            Transition::Fork(t, index + 1)
        } else {
            Transition::Next(t)
        },
    }
}

/// Pushes the item that a push of `value` leaves.
fn push_value(stack: &mut VMStack, value: &GMCodeValue)
    ensures
        final(stack)@ == old(stack)@.push(pushed_item(*value)),
{
    match value {
        GMCodeValue::Int16(v) => stack.push(VMStackItem::from_int32(*v as i32)),
        GMCodeValue::Int32(v) => stack.push(VMStackItem::from_int32(*v)),
        _ => stack.push_data_type(value.data_type()),
    }
}

/// A push of a variable that must be of instance type `instance`.
fn push_variable(stack: &mut VMStack, value: &GMCodeValue, instance: &GMInstanceType, next: usize) -> (r: Transition)
    ensures
        transition_is(r, final(stack)@, push_variable_step(old(stack)@, *value, *instance, next as int)),
{
    match value {
        GMCodeValue::Variable(v) => {
            if !instance_type_eq(&v.instance_type, instance) {
                return Transition::Fail(CodeValidationError::PushVarWrongInstanceType(v.instance_type.clone()));
            }
        },
        _ => return Transition::Fail(CodeValidationError::PushVarWrongDataType(value.data_type())),
    }
    push_value(stack, value);
    Transition::Next(next)
}

/// Applies the instruction at `index` to the stack.
fn validate_step(
    map: &BiHashMap<usize, u32>,
    instructions: &Vec<GMInstruction>,
    stack: &mut VMStack,
    index: usize,
) -> (r: Transition)
    requires
        is_address_map(address_pairs(*map), instructions@),
        code_size(instructions@) <= u32::MAX,
        index < instructions@.len(),
    ensures
        transition_is(r, final(stack)@, step(instructions@, old(stack)@, index as int)),
{
    let n = instructions.len();
    let next = index + 1;
    match &instructions[index] {
        GMInstruction::Convert(d) => unary(stack, d.right, d.left, next),
        GMInstruction::Multiply(d) | GMInstruction::Divide(d) | GMInstruction::Remainder(d)
        | GMInstruction::Modulus(d) | GMInstruction::Add(d) | GMInstruction::Subtract(d)
        | GMInstruction::And(d) | GMInstruction::Or(d) | GMInstruction::Xor(d)
        | GMInstruction::ShiftLeft(d) | GMInstruction::ShiftRight(d) => binary(stack, d.right, d.left, d.left, false, next),
        GMInstruction::Negate(t) | GMInstruction::Not(t) => unary(stack, t.data_type, t.data_type, next),
        GMInstruction::Compare(c) => binary(stack, c.type2, c.type1, GMDataType::Boolean, true, next),
        GMInstruction::Pop(p) => pop_into(stack, p.type1, p.type2, p.destination.variable_type, next),
        GMInstruction::Duplicate(d) => {
            let item: VMStackItem = match stack.peek() {
                Ok(i) => *i,
                Err(e) => return Transition::Fail(e),
            };
            if let Err(e) = item.assert_data_type(d.data_type) {
                return Transition::Fail(e);
            }
            let ghost before = stack@;
            let count: u16 = d.size as u16 + 1;
            let mut k: u16 = 0;
            while k < count
                invariant
                    k <= count,
                    count == d.size + 1,
                    before.len() > 0,
                    item == before.last(),
                    stack@ == before + Seq::new(k as nat, |j: int| before.last()),
                decreases count - k,
            {
                stack.push(item);
                k = k + 1;
                proof {
                    assert(stack@ =~= before + Seq::new(k as nat, |j: int| before.last()));
                }
            }
            Transition::Next(next)
        },
        GMInstruction::Return(t) => {
            let item = match stack.pop() {
                Ok(i) => i,
                Err(e) => return Transition::Fail(e),
            };
            if let Err(e) = item.assert_data_type(t.data_type) {
                return Transition::Fail(e);
            }
            if !stack.is_empty() {
                return Transition::Leftover;
            }
            Transition::Done
        },
        GMInstruction::Exit(_) => {
            if !stack.is_empty() {
                return Transition::Leftover;
            }
            Transition::Done
        },
        GMInstruction::PopDiscard(t) => {
            let item = match stack.pop() {
                Ok(i) => i,
                Err(e) => return Transition::Fail(e),
            };
            if let Err(e) = item.assert_data_type(t.data_type) {
                return Transition::Fail(e);
            }
            Transition::Next(next)
        },
        GMInstruction::Branch(g) => branch(map, instructions, stack, index, g.jump_offset, false),
        GMInstruction::BranchIf(g) | GMInstruction::BranchUnless(g) => branch(map, instructions, stack, index, g.jump_offset, true),
        GMInstruction::Push(p) => {
            push_value(stack, &p.value);
            Transition::Next(next)
        },
        GMInstruction::PushLocal(p) => push_variable(stack, &p.value, &GMInstanceType::Local, next),
        GMInstruction::PushGlobal(p) => push_variable(stack, &p.value, &GMInstanceType::Global, next),
        GMInstruction::PushBuiltin(p) => push_variable(stack, &p.value, &GMInstanceType::Self_(None), next),
        GMInstruction::PushImmediate(v) => {
            stack.push(VMStackItem::from_int32(*v as i32));
            Transition::Next(next)
        },
        GMInstruction::Call(c) => {
            if let Err(e) = pop_call_arguments(stack, c.argument_count) {
                return Transition::Fail(e);
            }
            stack.push(VMStackItem::Variable);
            Transition::Next(next)
        },
        GMInstruction::SetArrayOwner => {
            let item = match stack.pop() {
                Ok(i) => i,
                Err(e) => return Transition::Fail(e),
            };
            if !matches!(item, VMStackItem::Int32(Some(_))) {
                return Transition::Fail(CodeValidationError::SetOwnerNotInt32(item));
            }
            Transition::Next(next)
        },
        _ => Transition::Aborts,
    }
}

/// Follows the instructions from `index` with `stack`, spending `steps`; a conditional
/// branch is followed by a call of its own on a copy of the stack.
fn validate_instructions(
    map: &BiHashMap<usize, u32>,
    instructions: &Vec<GMInstruction>,
    stack: VMStack,
    index: usize,
    steps: &mut u64,
) -> (r: Result<(), CodeValidationError>)
    requires
        is_address_map(address_pairs(*map), instructions@),
        code_size(instructions@) <= u32::MAX,
        !(run(instructions@, stack@, index as int, *old(steps) as nat).0 is Aborts),
    ensures
        reports(run(instructions@, stack@, index as int, *old(steps) as nat).0, r),
        *final(steps) == run(instructions@, stack@, index as int, *old(steps) as nat).1,
    decreases *old(steps),
{
    let ghost stack0 = stack@;
    let ghost fuel0 = *old(steps) as nat;
    let ghost start = run(instructions@, stack0, index as int, fuel0);
    let mut cur = stack;
    let mut at = index;
    while at < instructions.len()
        invariant
            is_address_map(address_pairs(*map), instructions@),
            code_size(instructions@) <= u32::MAX,
            run(instructions@, cur@, at as int, *steps as nat) == start,
            start == run(instructions@, stack0, index as int, fuel0),
            fuel0 == *old(steps),
            stack0 == stack@,
            !(start.0 is Aborts),
            *steps <= fuel0,
        decreases *steps,
    {
        if *steps == 0 {
            assert(run(instructions@, cur@, at as int, 0).0 == Outcome::Exhausted);
            assert(reports(start.0, Err(CodeValidationError::StepLimitExceeded)));
            return Err(CodeValidationError::StepLimitExceeded);
        }
        let ghost fuel = *steps as nat;
        let ghost before = cur@;
        *steps = *steps - 1;
        match validate_step(map, instructions, &mut cur, at) {
            Transition::Next(j) => {
                at = j;
            },
            Transition::Fork(target, j) => {
                let branch_stack = cur.clone();
                proof {
                    lemma_run_spends(instructions@, cur@, target as int, *steps as nat);
                }
                let result = validate_instructions(map, instructions, branch_stack, target, steps);
                if let Err(e) = result {
                    proof {
                        let (o, rest) = run(instructions@, cur@, target as int, (fuel - 1) as nat);
                        assert(!(o is Valid));
                        assert(start == (o, rest));
                        assert(reports(start.0, Err(e)));
                        assert(start.1 == *steps);
                    }
                    return Err(e);
                }
                at = j;
            },
            Transition::Done => {
                assert(start == (Outcome::Valid, (fuel - 1) as nat));
                assert(reports(start.0, Ok(())));
                return Ok(());
            },
            Transition::Fail(e) => {
                assert(start == (Outcome::Invalid(e), (fuel - 1) as nat));
                assert(reports(start.0, Err(e)));
                return Err(e);
            },
            Transition::Leftover => {
                assert(start == (Outcome::Leftover(cur@), (fuel - 1) as nat));
                let r = Err(CodeValidationError::ExitStackLeftover(cur));
                assert(reports(start.0, r));
                return r;
            },
            Transition::Aborts => {
                proof {
                    assert(false);
                }
                return Ok(());
            },
        }
    }
    assert(start == (Outcome::Valid, *steps as nat));
    assert(reports(start.0, Ok(())));
    Ok(())
}

/// The instructions that a code entry runs and the address it starts at: a child entry
/// (bytecode 15+, with a parent) runs its parent's instructions from its offset, which must
/// be a multiple of 4.
pub open spec fn code_start(code: GMCode, data: GMData) -> Result<(Seq<GMInstruction>, u32), CodeValidationError> {
    match code.bytecode15_info {
        Some(b15) => match b15.parent {
            Some(parent) => if parent.index >= data.codes.codes@.len() {
                Err(CodeValidationError::ParentCodeUnresolvable(parent.index))
            } else if b15.offset % 4 != 0 {
                Err(CodeValidationError::InvalidInitialOffset(0))
            } else {
                Ok((data.codes.codes@[parent.index as int].instructions@, b15.offset / 4))
            },
            None => Ok((code.instructions@, 0)),
        },
        None => Ok((code.instructions@, 0)),
    }
}

/// The outcome of checking a code entry: from its start, with an empty stack and
/// `VALIDATION_STEP_LIMIT` steps. Instructions whose addresses do not fit a `u32` abort.
pub open spec fn code_validation(code: GMCode, data: GMData) -> Outcome {
    match code_start(code, data) {
        Err(e) => Outcome::Invalid(e),
        Ok((instructions, address)) => if code_size(instructions) > u32::MAX {
            Outcome::Aborts
        } else {
            match index_at_address(instructions, address as int) {
                None => Outcome::Invalid(CodeValidationError::InvalidInitialOffset(address)),
                Some(i) => run(instructions, Seq::empty(), i, VALIDATION_STEP_LIMIT as nat).0,
            }
        },
    }
}

/// Checks every path through a code entry's instructions against the model of the stack.
/// The code must not lead the check to an instruction whose check is not written.
pub fn validate_code(code: &GMCode, gm_data: &GMData) -> (r: Result<(), CodeValidationError>)
    requires
        !(code_validation(*code, *gm_data) is Aborts),
    ensures
        reports(code_validation(*code, *gm_data), r),
{
    let mut instruction_address: u32 = 0;
    let mut instructions: &Vec<GMInstruction> = &code.instructions;
    if let Some(b15_info) = &code.bytecode15_info {
        if let Some(parent_ref) = &b15_info.parent {
            let parent: &GMCode = match parent_ref.resolve(&gm_data.codes.codes) {
                Ok(p) => p,
                Err(_) => return Err(CodeValidationError::ParentCodeUnresolvable(parent_ref.index)),
            };
            instructions = &parent.instructions;
            if b15_info.offset % 4 != 0 {
                return Err(CodeValidationError::InvalidInitialOffset(instruction_address));
            }
            instruction_address = b15_info.offset / 4;
        }
    }
    let address_map = generate_address_map(instructions);
    let instruction_index = match find_index(&address_map, instructions, instruction_address) {
        Some(i) => i,
        None => return Err(CodeValidationError::InvalidInitialOffset(instruction_address)),
    };
    let stack = VMStack::new();
    let mut steps: u64 = VALIDATION_STEP_LIMIT;
    validate_instructions(&address_map, instructions, stack, instruction_index, &mut steps)
}

} // verus!
