//! Turning instructions into assembly text.

use vstd::prelude::*;
use crate::code::{
    comparison_holds, spec_value_data_type, CodeVariable, GMCodeValue, GMComparisonType, GMDataType,
    GMInstanceType, GMVariableType,
};
use crate::data::GMData;
use crate::elements::codes::GMCode;
use crate::elements::functions::GMFunction;
use crate::elements::strings::GMStrings;
use crate::encode::asset_word;
use crate::instructions::{GMAssetReference, GMInstruction};
use crate::refs::GMRef;
use crate::text::{int_text, push_chars, push_int, push_nat, push_str};
use crate::trusted::{chars_to_string, str_to_chars};

verus! {

pub open spec fn data_type_text(t: GMDataType) -> Seq<char> {
    match t {
        GMDataType::Int16 => "e"@,
        GMDataType::Int32 => "i"@,
        GMDataType::Int64 => "l"@,
        GMDataType::Double => "d"@,
        GMDataType::Boolean => "b"@,
        GMDataType::String => "s"@,
        GMDataType::Variable => "v"@,
    }
}

/// The one-letter name of a data type.
pub fn data_type_to_string(data_type: GMDataType) -> (r: &'static str)
    ensures
        r@ == data_type_text(data_type),
{
    match data_type {
        GMDataType::Int16 => "e",
        GMDataType::Int32 => "i",
        GMDataType::Int64 => "l",
        GMDataType::Double => "d",
        GMDataType::Boolean => "b",
        GMDataType::String => "s",
        GMDataType::Variable => "v",
    }
}

pub open spec fn comparison_type_text(t: GMComparisonType) -> Seq<char> {
    match t {
        GMComparisonType::LessThan => "LT"@,
        GMComparisonType::LessOrEqual => "LTE"@,
        GMComparisonType::Equal => "EQ"@,
        GMComparisonType::NotEqual => "NEQ"@,
        GMComparisonType::GreaterOrEqual => "GTE"@,
        GMComparisonType::GreaterThan => "GT"@,
    }
}

/// The relation that a comparison's assembly name stands for: "LT" less than, "LTE" less or
/// equal, "EQ" equal, "NEQ" not equal, "GTE" greater or equal, "GT" greater than.
pub open spec fn comparison_name_relation(name: Seq<char>, x: int, y: int) -> bool {
    if name == "LT"@ {
        x < y
    } else if name == "LTE"@ {
        x <= y
    } else if name == "EQ"@ {
        x == y
    } else if name == "NEQ"@ {
        x != y
    } else if name == "GTE"@ {
        x >= y
    } else if name == "GT"@ {
        x > y
    } else {
        false
    }
}

/// The six comparison names differ from one another.
pub proof fn lemma_comparison_names_distinct()
    ensures
        "LT"@ != "LTE"@ && "LT"@ != "EQ"@ && "LT"@ != "NEQ"@ && "LT"@ != "GTE"@ && "LT"@ != "GT"@,
        "LTE"@ != "EQ"@ && "LTE"@ != "NEQ"@ && "LTE"@ != "GTE"@ && "LTE"@ != "GT"@,
        "EQ"@ != "NEQ"@ && "EQ"@ != "GTE"@ && "EQ"@ != "GT"@,
        "NEQ"@ != "GTE"@ && "NEQ"@ != "GT"@,
        "GTE"@ != "GT"@,
{
    reveal_strlit("LT");
    reveal_strlit("LTE");
    reveal_strlit("EQ");
    reveal_strlit("NEQ");
    reveal_strlit("GTE");
    reveal_strlit("GT");
    assert("LT"@.len() == 2 && "LT"@[0] == 'L');
    assert("LTE"@.len() == 3 && "LTE"@[0] == 'L');
    assert("EQ"@.len() == 2 && "EQ"@[0] == 'E');
    assert("NEQ"@.len() == 3 && "NEQ"@[0] == 'N');
    assert("GTE"@.len() == 3 && "GTE"@[0] == 'G');
    assert("GT"@.len() == 2 && "GT"@[0] == 'G');
}

/// The name a comparison is disassembled as stands for that very comparison, on all operands.
pub proof fn law_comparison_name_meaning(c: GMComparisonType, x: int, y: int)
    ensures
        comparison_name_relation(comparison_type_text(c), x, y) == comparison_holds(c, x, y),
{
    lemma_comparison_names_distinct();
}

/// The name of a comparison.
pub fn comparison_type_to_string(comparison_type: GMComparisonType) -> (r: &'static str)
    ensures
        r@ == comparison_type_text(comparison_type),
{
    match comparison_type {
        GMComparisonType::LessThan => "LT",
        GMComparisonType::LessOrEqual => "LTE",
        GMComparisonType::Equal => "EQ",
        GMComparisonType::NotEqual => "NEQ",
        GMComparisonType::GreaterOrEqual => "GTE",
        GMComparisonType::GreaterThan => "GT",
    }
}

pub open spec fn variable_type_text(t: GMVariableType) -> Seq<char> {
    match t {
        GMVariableType::Array => "[array]"@,
        GMVariableType::StackTop => "[stacktop]"@,
        GMVariableType::Normal => ""@,
        GMVariableType::Instance => "[instance]"@,
        GMVariableType::ArrayPushAF => "[arraypushaf]"@,
        GMVariableType::ArrayPopAF => "[arraypopaf]"@,
    }
}

/// The bracketed prefix of a variable type (empty for a normal variable).
pub fn variable_type_to_string(variable_type: GMVariableType) -> (r: &'static str)
    ensures
        r@ == variable_type_text(variable_type),
{
    match variable_type {
        GMVariableType::Array => "[array]",
        GMVariableType::StackTop => "[stacktop]",
        GMVariableType::Normal => "",
        GMVariableType::Instance => "[instance]",
        GMVariableType::ArrayPushAF => "[arraypushaf]",
        GMVariableType::ArrayPopAF => "[arraypopaf]",
    }
}

/// The mnemonic of an instruction; extended instructions have their own.
pub open spec fn opcode_text(i: GMInstruction) -> Seq<char> {
    match i {
        GMInstruction::Convert(_) => "conv"@,
        GMInstruction::Multiply(_) => "mul"@,
        GMInstruction::Divide(_) => "div"@,
        GMInstruction::Remainder(_) => "rem"@,
        GMInstruction::Modulus(_) => "mod"@,
        GMInstruction::Add(_) => "add"@,
        GMInstruction::Subtract(_) => "sub"@,
        GMInstruction::And(_) => "and"@,
        GMInstruction::Or(_) => "or"@,
        GMInstruction::Xor(_) => "xor"@,
        GMInstruction::Negate(_) => "neg"@,
        GMInstruction::Not(_) => "not"@,
        GMInstruction::ShiftLeft(_) => "shl"@,
        GMInstruction::ShiftRight(_) => "shr"@,
        GMInstruction::Compare(_) => "cmp"@,
        GMInstruction::Pop(_) => "pop"@,
        GMInstruction::PopSwap(_) => "popswap"@,
        GMInstruction::Duplicate(_) => "dup"@,
        GMInstruction::DuplicateSwap(_) => "dupswap"@,
        GMInstruction::Return(_) => "ret"@,
        GMInstruction::Exit(_) => "exit"@,
        GMInstruction::PopDiscard(_) => "popz"@,
        GMInstruction::Branch(_) => "jmp"@,
        GMInstruction::BranchIf(_) => "jt"@,
        GMInstruction::BranchUnless(_) => "jf"@,
        GMInstruction::PushWithContext(_) => "pushenv"@,
        GMInstruction::PopWithContext(_) => "popenv"@,
        GMInstruction::PopWithContextExit(_) => "popenv"@,
        GMInstruction::Push(_) => "push"@,
        GMInstruction::PushLocal(_) => "pushloc"@,
        GMInstruction::PushGlobal(_) => "pushglb"@,
        GMInstruction::PushBuiltin(_) => "pushbltn"@,
        GMInstruction::PushImmediate(_) => "pushim"@,
        GMInstruction::Call(_) => "call"@,
        GMInstruction::CallVariable(_) => "callvar"@,
        GMInstruction::CheckArrayIndex => "chkindex"@,
        GMInstruction::PushArrayFinal => "pushaf"@,
        GMInstruction::PopArrayFinal => "popaf"@,
        GMInstruction::PushArrayContainer => "pushac"@,
        GMInstruction::SetArrayOwner => "setowner"@,
        GMInstruction::HasStaticInitialized => "isstaticok"@,
        GMInstruction::SetStaticInitialized => "setstatic"@,
        GMInstruction::SaveArrayReference => "savearef"@,
        GMInstruction::RestoreArrayReference => "restorearef"@,
        GMInstruction::IsNullishValue => "isknullish"@,
        GMInstruction::PushReference(_) => "pushref"@,
    }
}

/// The mnemonic of an instruction.
pub fn opcode_to_string(instruction: &GMInstruction) -> (r: &'static str)
    ensures
        r@ == opcode_text(*instruction),
{
    match instruction {
        GMInstruction::Convert(_) => "conv",
        GMInstruction::Multiply(_) => "mul",
        GMInstruction::Divide(_) => "div",
        GMInstruction::Remainder(_) => "rem",
        GMInstruction::Modulus(_) => "mod",
        GMInstruction::Add(_) => "add",
        GMInstruction::Subtract(_) => "sub",
        GMInstruction::And(_) => "and",
        GMInstruction::Or(_) => "or",
        GMInstruction::Xor(_) => "xor",
        GMInstruction::Negate(_) => "neg",
        GMInstruction::Not(_) => "not",
        GMInstruction::ShiftLeft(_) => "shl",
        GMInstruction::ShiftRight(_) => "shr",
        GMInstruction::Compare(_) => "cmp",
        GMInstruction::Pop(_) => "pop",
        GMInstruction::PopSwap(_) => "popswap",
        GMInstruction::Duplicate(_) => "dup",
        GMInstruction::DuplicateSwap(_) => "dupswap",
        GMInstruction::Return(_) => "ret",
        GMInstruction::Exit(_) => "exit",
        GMInstruction::PopDiscard(_) => "popz",
        GMInstruction::Branch(_) => "jmp",
        GMInstruction::BranchIf(_) => "jt",
        GMInstruction::BranchUnless(_) => "jf",
        GMInstruction::PushWithContext(_) => "pushenv",
        GMInstruction::PopWithContext(_) => "popenv",
        GMInstruction::PopWithContextExit(_) => "popenv",
        GMInstruction::Push(_) => "push",
        GMInstruction::PushLocal(_) => "pushloc",
        GMInstruction::PushGlobal(_) => "pushglb",
        GMInstruction::PushBuiltin(_) => "pushbltn",
        GMInstruction::PushImmediate(_) => "pushim",
        GMInstruction::Call(_) => "call",
        GMInstruction::CallVariable(_) => "callvar",
        GMInstruction::CheckArrayIndex => "chkindex",
        GMInstruction::PushArrayFinal => "pushaf",
        GMInstruction::PopArrayFinal => "popaf",
        GMInstruction::PushArrayContainer => "pushac",
        GMInstruction::SetArrayOwner => "setowner",
        GMInstruction::HasStaticInitialized => "isstaticok",
        GMInstruction::SetStaticInitialized => "setstatic",
        GMInstruction::SaveArrayReference => "savearef",
        GMInstruction::RestoreArrayReference => "restorearef",
        GMInstruction::IsNullishValue => "isknullish",
        GMInstruction::PushReference(_) => "pushref",
    }
}

/// `c` may stand first in an identifier besides a letter.
pub open spec fn is_identifier_special(c: char) -> bool {
    c == '_' || c == '$' || c == '@'
}

pub open spec fn is_ascii_alpha(c: char) -> bool {
    ('a' <= c && c <= 'z') || ('A' <= c && c <= 'Z')
}

pub open spec fn is_ascii_digit(c: char) -> bool {
    '0' <= c && c <= '9'
}

/// A valid identifier: not empty, starts with a letter or `_`, `$`, `@`, and holds only
/// letters, digits and those three.
pub open spec fn valid_identifier(s: Seq<char>) -> bool {
    &&& s.len() > 0
    &&& (is_ascii_alpha(s[0]) || is_identifier_special(s[0]))
    &&& forall|i: int| 0 <= i < s.len() ==> is_ascii_alpha(#[trigger] s[i]) || is_ascii_digit(s[i])
        || is_identifier_special(s[i])
}

/// Whether a function or variable name can be assembled back.
pub fn is_valid_identifier(s: &Vec<char>) -> (r: bool)
    ensures
        r == valid_identifier(s@),
{
    if s.len() == 0 {
        return false;
    }
    let first = s[0];
    if !(('a' <= first && first <= 'z') || ('A' <= first && first <= 'Z') || first == '_' || first == '$'
        || first == '@') {
        return false;
    }
    let mut i: usize = 0;
    while i < s.len()
        invariant
            0 <= i <= s@.len(),
            forall|j: int| 0 <= j < i ==> is_ascii_alpha(#[trigger] s@[j]) || is_ascii_digit(s@[j])
                || is_identifier_special(s@[j]),
        decreases s@.len() - i,
    {
        let c = s[i];
        if !(('a' <= c && c <= 'z') || ('A' <= c && c <= 'Z') || ('0' <= c && c <= '9') || c == '_'
            || c == '$' || c == '@') {
            return false;
        }
        i = i + 1;
    }
    true
}

/// A character as it appears inside a string literal.
pub open spec fn escaped_char(c: char) -> Seq<char> {
    if c == '\\' { seq!['\\', '\\'] }
    else if c == '\n' { seq!['\\', 'n'] }
    else if c == '\r' { seq!['\\', 'r'] }
    else if c == '\t' { seq!['\\', 't'] }
    else if c == '"' { seq!['\\', '"'] }
    else { seq![c] }
}

/// A string with backslash, newline, carriage return, tab and quote escaped.
pub open spec fn escaped(s: Seq<char>) -> Seq<char>
    decreases s.len(),
{
    if s.len() == 0 {
        Seq::empty()
    } else {
        escaped(s.drop_last()) + escaped_char(s.last())
    }
}

/// A string as a quoted literal.
pub open spec fn literal_text(s: Seq<char>) -> Seq<char> {
    seq!['"'] + escaped(s) + seq!['"']
}

/// The characters of the string `r` refers to, if it exists.
pub open spec fn string_of(strings: GMStrings, r: GMRef<String>) -> Option<Seq<char>> {
    if r.index < strings.strings@.len() {
        Some(strings.strings@[r.index as int]@)
    } else {
        None
    }
}

/// Appends `chars`, escaped.
fn push_escaped(out: &mut Vec<char>, chars: &Vec<char>)
    ensures
        final(out)@ == old(out)@ + escaped(chars@),
{
    let mut i: usize = 0;
    while i < chars.len()
        invariant
            0 <= i <= chars@.len(),
            out@ == old(out)@ + escaped(chars@.subrange(0, i as int)),
        decreases chars@.len() - i,
    {
        let c = chars[i];
        if c == '\\' {
            out.push('\\');
            out.push('\\');
        } else if c == '\n' {
            out.push('\\');
            out.push('n');
        } else if c == '\r' {
            out.push('\\');
            out.push('r');
        } else if c == '\t' {
            out.push('\\');
            out.push('t');
        } else if c == '"' {
            out.push('\\');
            out.push('"');
        } else {
            out.push(c);
        }
        proof {
            let s = chars@.subrange(0, i + 1);
            assert(s.drop_last() =~= chars@.subrange(0, i as int));
            assert(s.last() == c);
        }
        i = i + 1;
        assert(out@ =~= old(out)@ + escaped(chars@.subrange(0, i as int)));
    }
    assert(chars@.subrange(0, chars@.len() as int) =~= chars@);
}

/// The string `string_ref` refers to, as a quoted literal with escapes.
pub fn format_literal_string(gm_strings: &GMStrings, string_ref: GMRef<String>) -> (r: Result<String, String>)
    ensures
        match r {
            Ok(s) => string_of(*gm_strings, string_ref) matches Some(t) && s@ == literal_text(t),
            Err(_) => string_of(*gm_strings, string_ref) is None,
        },
{
    let string = string_ref.resolve(&gm_strings.strings)?;
    let chars = str_to_chars(string.as_str());
    let mut out: Vec<char> = Vec::new();
    out.push('"');
    push_escaped(&mut out, &chars);
    out.push('"');
    assert(out@ =~= literal_text(string@));
    Ok(chars_to_string(&out))
}

/// The name of function `f`, if it exists and is a valid identifier.
pub open spec fn function_text(d: GMData, f: GMRef<GMFunction>) -> Option<Seq<char>> {
    if f.index < d.functions.functions@.len() {
        match string_of(d.strings, d.functions.functions@[f.index as int].name) {
            Some(n) => if valid_identifier(n) { Some(n) } else { None },
            None => None,
        }
    } else {
        None
    }
}

/// The function's name resolves but is not a valid identifier.
pub open spec fn invalid_function_name(d: GMData, f: GMRef<GMFunction>) -> bool {
    &&& f.index < d.functions.functions@.len()
    &&& (string_of(d.strings, d.functions.functions@[f.index as int].name) matches Some(n) && !valid_identifier(n))
}

/// The text of an instance type; `variable_index` is shown for a local variable.
pub open spec fn instance_text(d: GMData, it: GMInstanceType, variable_index: u32) -> Option<Seq<char>> {
    match it {
        GMInstanceType::Undefined => None,
        GMInstanceType::Self_(Some(o)) => if o.index < d.game_objects.game_objects@.len() {
            match string_of(d.strings, d.game_objects.game_objects@[o.index as int].name) {
                Some(n) => Some("self<"@ + n + ">"@),
                None => None,
            }
        } else {
            None
        },
        GMInstanceType::Self_(None) => Some("self"@),
        GMInstanceType::RoomInstance(id) => Some("roominst<"@ + int_text(id as int) + ">"@),
        GMInstanceType::Other => Some("other"@),
        GMInstanceType::All => Some("all"@),
        GMInstanceType::Noone => Some("none"@),
        GMInstanceType::Global => Some("global"@),
        GMInstanceType::Builtin => Some("builtin"@),
        GMInstanceType::Local => Some("local<"@ + int_text(variable_index as int) + ">"@),
        GMInstanceType::StackTop => Some("stacktop"@),
        GMInstanceType::Argument => Some("arg"@),
        GMInstanceType::Static => Some("static"@),
    }
}

/// The instance type shown for a variable: its own, or else the variable's bytecode 15 one.
pub open spec fn shown_instance(d: GMData, cv: CodeVariable) -> GMInstanceType {
    match cv.instance_type {
        GMInstanceType::Undefined => match d.variables.variables@[cv.variable.index as int].b15_data {
            Some(b) => b.instance_type,
            None => GMInstanceType::Undefined,
        },
        _ => cv.instance_type,
    }
}

/// The text of a variable reference: `(variable)` for an Int32 one, the variable type, the
/// instance, a dot and the name.
pub open spec fn variable_text(d: GMData, cv: CodeVariable) -> Option<Seq<char>> {
    if cv.variable.index >= d.variables.variables@.len() {
        None
    } else {
        match string_of(d.strings, d.variables.variables@[cv.variable.index as int].name) {
            None => None,
            Some(name) => if !valid_identifier(name) {
                None
            } else {
                match instance_text(d, shown_instance(d, cv), cv.variable.index) {
                    None => None,
                    Some(t) => Some(
                        (if cv.is_int32 { "(variable)"@ } else { ""@ }) + variable_type_text(cv.variable_type)
                            + t + "."@ + name,
                    ),
                }
            },
        }
    }
}

/// The text of a pushed value; `double_text` is the text of a pushed double.
pub open spec fn value_text(d: GMData, v: GMCodeValue, double_text: Seq<char>) -> Option<Seq<char>> {
    match v {
        GMCodeValue::Variable(cv) => variable_text(d, cv),
        GMCodeValue::Boolean(b) => Some(if b { "true"@ } else { "false"@ }),
        GMCodeValue::Function(f) => match function_text(d, f) {
            Some(n) => Some("(function)"@ + n),
            None => None,
        },
        GMCodeValue::String(r) => match string_of(d.strings, r) {
            Some(t) => Some(literal_text(t)),
            None => None,
        },
        GMCodeValue::Int16(x) => Some(int_text(x as int)),
        GMCodeValue::Int32(x) => Some(int_text(x as int)),
        GMCodeValue::Int64(x) => Some(int_text(x as int)),
        GMCodeValue::Double(_) => Some(double_text),
    }
}

/// The bits of the double an instruction pushes, if it pushes one.
pub open spec fn pushed_double(i: GMInstruction) -> Option<u64> {
    match i {
        GMInstruction::Push(p) | GMInstruction::PushLocal(p) | GMInstruction::PushGlobal(p)
        | GMInstruction::PushBuiltin(p) => match p.value {
            GMCodeValue::Double(bits) => Some(bits),
            _ => None,
        },
        _ => None,
    }
}

/// `.t` for a data type.
pub open spec fn dot_type(t: GMDataType) -> Seq<char> {
    "."@ + data_type_text(t)
}

/// The assembly text of an instruction; `double_text` is the text of a pushed double.
pub open spec fn instruction_text(d: GMData, i: GMInstruction, double_text: Seq<char>) -> Option<Seq<char>> {
    match tail_text(d, i, double_text) {
        Some(t) => Some(opcode_text(i) + t),
        None => None,
    }
}

/// What follows the mnemonic in the text of an instruction that refers to nothing.
pub open spec fn plain_tail(i: GMInstruction) -> Seq<char> {
    match i {
        GMInstruction::Exit(_) => Seq::empty(),
        GMInstruction::Negate(s) | GMInstruction::Not(s) | GMInstruction::Return(s)
        | GMInstruction::PopDiscard(s) => dot_type(s.data_type),
        GMInstruction::CallVariable(c) => dot_type(c.data_type) + " "@ + int_text(c.argument_count as int),
        GMInstruction::Duplicate(c) => dot_type(c.data_type) + " "@ + int_text(c.size as int),
        GMInstruction::DuplicateSwap(c) => dot_type(c.data_type) + " "@ + int_text(c.size1 as int) + " "@
            + int_text(c.size2 as int),
        GMInstruction::PopSwap(c) => " "@ + int_text(c.size as int),
        GMInstruction::Branch(g) | GMInstruction::BranchIf(g) | GMInstruction::BranchUnless(g)
        | GMInstruction::PushWithContext(g) | GMInstruction::PopWithContext(g) => " "@ + int_text(g.jump_offset as int),
        GMInstruction::PopWithContextExit(_) => " <drop>"@,
        GMInstruction::Convert(t) | GMInstruction::Multiply(t) | GMInstruction::Divide(t)
        | GMInstruction::Remainder(t) | GMInstruction::Modulus(t) | GMInstruction::Add(t)
        | GMInstruction::Subtract(t) | GMInstruction::And(t) | GMInstruction::Or(t)
        | GMInstruction::Xor(t) | GMInstruction::ShiftLeft(t) | GMInstruction::ShiftRight(t) => dot_type(t.right)
            + dot_type(t.left),
        GMInstruction::Compare(c) => dot_type(c.type1) + dot_type(c.type2) + " "@ + comparison_type_text(c.comparison_type),
        GMInstruction::PushImmediate(x) => dot_type(GMDataType::Int16) + " "@ + int_text(x as int),
        _ => dot_type(GMDataType::Int16),
    }
}

/// An instruction whose text needs nothing but itself.
pub open spec fn is_plain(i: GMInstruction) -> bool {
    match i {
        GMInstruction::Pop(_) | GMInstruction::Push(_) | GMInstruction::PushLocal(_)
        | GMInstruction::PushGlobal(_) | GMInstruction::PushBuiltin(_) | GMInstruction::Call(_)
        | GMInstruction::PushReference(_) => false,
        _ => true,
    }
}

/// What follows the mnemonic in the text of an instruction.
pub open spec fn tail_text(d: GMData, i: GMInstruction, double_text: Seq<char>) -> Option<Seq<char>> {
    match i {
        GMInstruction::Pop(p) => match variable_text(d, p.destination) {
            Some(v) => Some(dot_type(p.type1) + dot_type(p.type2) + " "@ + v),
            None => None,
        },
        GMInstruction::Push(p) | GMInstruction::PushLocal(p) | GMInstruction::PushGlobal(p)
        | GMInstruction::PushBuiltin(p) => match value_text(d, p.value, double_text) {
            Some(v) => Some(dot_type(spec_value_data_type(p.value)) + " "@ + v),
            None => None,
        },
        GMInstruction::Call(c) => match function_text(d, c.function) {
            Some(n) => Some(dot_type(GMDataType::Int32) + " "@ + n + "(argc="@ + int_text(c.argument_count as int) + ")"@),
            None => None,
        },
        GMInstruction::PushReference(a) => match a {
            GMAssetReference::Function(f) => match function_text(d, f) {
                Some(n) => Some(dot_type(GMDataType::Int32) + " (function)"@ + n),
                None => None,
            },
            _ => Some(dot_type(GMDataType::Int32) + " "@ + int_text((asset_word(a) as i32) as int)),
        },
        _ => Some(plain_tail(i)),
    }
}

/// The name of a function, checked to be a valid identifier.
pub fn function_to_string<'a>(gm_data: &'a GMData, function_ref: GMRef<GMFunction>) -> (r: Result<&'a String, String>)
    ensures
        match r {
            Ok(n) => function_text(*gm_data, function_ref) == Some(n@),
            Err(_) => function_text(*gm_data, function_ref) is None,
        },
        invalid_function_name(*gm_data, function_ref) ==> (r matches Err(e) && e@ == "Invalid function identifier"@),
{
    let function = function_ref.resolve(&gm_data.functions.functions)?;
    let name = function.name.resolve(&gm_data.strings.strings)?;
    let chars = str_to_chars(name.as_str());
    if !is_valid_identifier(&chars) {
        return Err("Invalid function identifier".to_owned());
    }
    Ok(name)
}

/// Appends the text of an instance type.
fn push_instance_type(
    out: &mut Vec<char>,
    gm_data: &GMData,
    instance_type: &GMInstanceType,
    variable_ref: u32,
) -> (r: Result<(), String>)
    ensures
        match instance_text(*gm_data, *instance_type, variable_ref) {
            Some(t) => r is Ok && final(out)@ == old(out)@ + t,
            None => r is Err,
        },
{
    match instance_type {
        GMInstanceType::Undefined => {
            return Err("Did not expect instance type Undefined here".to_owned());
        },
        GMInstanceType::Self_(Some(obj_ref)) => {
            let obj = obj_ref.resolve(&gm_data.game_objects.game_objects)?;
            let name = obj.name.resolve(&gm_data.strings.strings)?;
            push_str(out, "self<");
            push_str(out, name.as_str());
            push_str(out, ">");
        },
        GMInstanceType::Self_(None) => push_str(out, "self"),
        GMInstanceType::RoomInstance(instance_id) => {
            push_str(out, "roominst<");
            push_int(out, *instance_id as i64);
            push_str(out, ">");
        },
        GMInstanceType::Other => push_str(out, "other"),
        GMInstanceType::All => push_str(out, "all"),
        GMInstanceType::Noone => push_str(out, "none"),
        GMInstanceType::Global => push_str(out, "global"),
        GMInstanceType::Builtin => push_str(out, "builtin"),
        GMInstanceType::Local => {
            push_str(out, "local<");
            push_int(out, variable_ref as i64);
            push_str(out, ">");
        },
        GMInstanceType::StackTop => push_str(out, "stacktop"),
        GMInstanceType::Argument => push_str(out, "arg"),
        GMInstanceType::Static => push_str(out, "static"),
    }
    assert(out@ =~= old(out)@ + instance_text(*gm_data, *instance_type, variable_ref).unwrap());
    Ok(())
}

/// The text of a variable reference.
pub fn variable_to_string(gm_data: &GMData, code_variable: &CodeVariable) -> (r: Result<String, String>)
    ensures
        match r {
            Ok(s) => variable_text(*gm_data, *code_variable) == Some(s@),
            Err(_) => variable_text(*gm_data, *code_variable) is None,
        },
{
    let mut out: Vec<char> = Vec::new();
    push_variable(&mut out, gm_data, code_variable)?;
    Ok(chars_to_string(&out))
}

/// Appends the text of a variable reference.
fn push_variable(out: &mut Vec<char>, gm_data: &GMData, code_variable: &CodeVariable) -> (r: Result<(), String>)
    ensures
        match variable_text(*gm_data, *code_variable) {
            Some(t) => r is Ok && final(out)@ == old(out)@ + t,
            None => r is Err,
        },
{
    let variable = code_variable.variable.resolve(&gm_data.variables.variables)?;
    let name = variable.name.resolve(&gm_data.strings.strings)?;
    let name_chars = str_to_chars(name.as_str());
    if !is_valid_identifier(&name_chars) {
        return Err("Invalid variable identifier".to_owned());
    }
    let shown: &GMInstanceType = match &code_variable.instance_type {
        GMInstanceType::Undefined => match &variable.b15_data {
            Some(b15) => &b15.instance_type,
            None => &code_variable.instance_type,
        },
        _ => &code_variable.instance_type,
    };
    let mut inst: Vec<char> = Vec::new();
    push_instance_type(&mut inst, gm_data, shown, code_variable.variable.index)?;
    if code_variable.is_int32 {
        push_str(out, "(variable)");
    } else {
        push_str(out, "");
    }
    push_str(out, variable_type_to_string(code_variable.variable_type));
    push_chars(out, &inst);
    push_str(out, ".");
    push_chars(out, &name_chars);
    assert(out@ =~= old(out)@ + variable_text(*gm_data, *code_variable).unwrap());
    Ok(())
}

/// Appends a mnemonic and data type suffixes.
fn push_head(out: &mut Vec<char>, op: &str, types: &Vec<GMDataType>)
    ensures
        final(out)@ == old(out)@ + op@ + types_text(types@),
{
    push_str(out, op);
    let mut i: usize = 0;
    while i < types.len()
        invariant
            0 <= i <= types@.len(),
            out@ == old(out)@ + op@ + types_text(types@.subrange(0, i as int)),
        decreases types@.len() - i,
    {
        push_str(out, ".");
        push_str(out, data_type_to_string(types[i]));
        proof {
            let t = types@.subrange(0, i + 1);
            assert(t.drop_last() =~= types@.subrange(0, i as int));
        }
        i = i + 1;
        assert(out@ =~= old(out)@ + op@ + types_text(types@.subrange(0, i as int)));
    }
    assert(types@.subrange(0, types@.len() as int) =~= types@);
}

/// The `.t` suffixes of a list of data types.
pub open spec fn types_text(ts: Seq<GMDataType>) -> Seq<char>
    decreases ts.len(),
{
    if ts.len() == 0 {
        Seq::empty()
    } else {
        types_text(ts.drop_last()) + dot_type(ts.last())
    }
}

fn push_dot_type(out: &mut Vec<char>, t: GMDataType)
    ensures
        final(out)@ == old(out)@ + dot_type(t),
{
    push_str(out, ".");
    push_str(out, data_type_to_string(t));
    assert(out@ =~= old(out)@ + dot_type(t));
}

/// Appends the text of a pushed value other than a double.
fn push_value(out: &mut Vec<char>, gm_data: &GMData, value: &GMCodeValue) -> (r: Result<(), String>)
    requires
        !(value is Double),
    ensures
        match value_text(*gm_data, *value, Seq::empty()) {
            Some(t) => r is Ok && final(out)@ == old(out)@ + t,
            None => r is Err,
        },
{
    match value {
        GMCodeValue::Variable(cv) => push_variable(out, gm_data, cv),
        GMCodeValue::Boolean(b) => {
            if *b {
                push_str(out, "true");
            } else {
                push_str(out, "false");
            }
            Ok(())
        },
        GMCodeValue::Function(f) => {
            let name = function_to_string(gm_data, *f)?;
            push_str(out, "(function)");
            push_str(out, name.as_str());
            assert(out@ =~= old(out)@ + value_text(*gm_data, *value, Seq::empty()).unwrap());
            Ok(())
        },
        GMCodeValue::String(sr) => {
            let lit = format_literal_string(&gm_data.strings, *sr)?;
            push_str(out, lit.as_str());
            Ok(())
        },
        GMCodeValue::Int16(x) => {
            push_int(out, *x as i64);
            Ok(())
        },
        GMCodeValue::Int32(x) => {
            push_int(out, *x as i64);
            Ok(())
        },
        GMCodeValue::Int64(x) => {
            push_int(out, *x);
            Ok(())
        },
        GMCodeValue::Double(_) => Ok(()),
    }
}

/// Appends what follows the mnemonic for an instruction that refers to nothing.
fn push_plain_tail(out: &mut Vec<char>, instruction: &GMInstruction)
    requires
        is_plain(*instruction),
    ensures
        final(out)@ == old(out)@ + plain_tail(*instruction),
{
    match instruction {
        GMInstruction::Exit(_) => {},
        GMInstruction::Negate(i) | GMInstruction::Not(i) | GMInstruction::Return(i)
        | GMInstruction::PopDiscard(i) => push_dot_type(out, i.data_type),
        GMInstruction::CallVariable(i) => {
            push_dot_type(out, i.data_type);
            push_str(out, " ");
            push_int(out, i.argument_count as i64);
        },
        GMInstruction::Duplicate(i) => {
            push_dot_type(out, i.data_type);
            push_str(out, " ");
            push_int(out, i.size as i64);
        },
        GMInstruction::DuplicateSwap(i) => {
            push_dot_type(out, i.data_type);
            push_str(out, " ");
            push_int(out, i.size1 as i64);
            push_str(out, " ");
            push_int(out, i.size2 as i64);
        },
        GMInstruction::PopSwap(i) => {
            push_str(out, " ");
            push_int(out, i.size as i64);
        },
        GMInstruction::Branch(i) | GMInstruction::BranchIf(i) | GMInstruction::BranchUnless(i)
        | GMInstruction::PushWithContext(i) | GMInstruction::PopWithContext(i) => {
            push_str(out, " ");
            push_int(out, i.jump_offset as i64);
        },
        GMInstruction::PopWithContextExit(_) => push_str(out, " <drop>"),
        GMInstruction::Convert(i) | GMInstruction::Multiply(i) | GMInstruction::Divide(i)
        | GMInstruction::Remainder(i) | GMInstruction::Modulus(i) | GMInstruction::Add(i)
        | GMInstruction::Subtract(i) | GMInstruction::And(i) | GMInstruction::Or(i)
        | GMInstruction::Xor(i) | GMInstruction::ShiftLeft(i) | GMInstruction::ShiftRight(i) => {
            push_dot_type(out, i.right);
            push_dot_type(out, i.left);
        },
        GMInstruction::Compare(i) => {
            push_dot_type(out, i.type1);
            push_dot_type(out, i.type2);
            push_str(out, " ");
            push_str(out, comparison_type_to_string(i.comparison_type));
        },
        GMInstruction::PushImmediate(v) => {
            push_dot_type(out, GMDataType::Int16);
            push_str(out, " ");
            push_int(out, *v as i64);
        },
        _ => push_dot_type(out, GMDataType::Int16),
    }
    assert(out@ =~= old(out)@ + plain_tail(*instruction));
}

/// Appends what follows the mnemonic for `pop`, `call` and `pushref`.
fn push_reference_tail(out: &mut Vec<char>, gm_data: &GMData, instruction: &GMInstruction) -> (r: Result<(), String>)
    requires
        instruction is Pop || instruction is Call || instruction is PushReference,
    ensures
        match tail_text(*gm_data, *instruction, Seq::empty()) {
            Some(t) => r is Ok && final(out)@ == old(out)@ + t,
            None => r is Err,
        },
        (instruction matches GMInstruction::Call(c) && invalid_function_name(*gm_data, c.function))
            ==> (r matches Err(e) && e@ == "Invalid function identifier"@),
{
    match instruction {
        GMInstruction::Pop(i) => {
            push_dot_type(out, i.type1);
            push_dot_type(out, i.type2);
            push_str(out, " ");
            push_variable(out, gm_data, &i.destination)?;
        },
        GMInstruction::Call(i) => {
            let name = match function_to_string(gm_data, i.function) {
                Ok(n) => n,
                Err(e) => {
                    return Err(e);
                },
            };
            push_dot_type(out, GMDataType::Int32);
            push_str(out, " ");
            push_str(out, name.as_str());
            push_str(out, "(argc=");
            push_int(out, i.argument_count as i64);
            push_str(out, ")");
        },
        GMInstruction::PushReference(a) => {
            match a {
                GMAssetReference::Function(f) => {
                    let name = function_to_string(gm_data, *f)?;
                    push_dot_type(out, GMDataType::Int32);
                    push_str(out, " (function)");
                    push_str(out, name.as_str());
                },
                _ => {
                    push_dot_type(out, GMDataType::Int32);
                    push_str(out, " ");
                    let w = asset_word_of(a);
                    push_int(out, (w as i32) as i64);
                },
            }
        },
        _ => {},
    }
    assert(out@ =~= old(out)@ + tail_text(*gm_data, *instruction, Seq::empty()).unwrap());
    Ok(())
}

/// Appends what follows the mnemonic for a push of a value other than a double.
fn push_push_tail(out: &mut Vec<char>, gm_data: &GMData, value: &GMCodeValue) -> (r: Result<(), String>)
    requires
        !(value is Double),
    ensures
        match value_text(*gm_data, *value, Seq::empty()) {
            Some(t) => r is Ok && final(out)@ == old(out)@ + dot_type(spec_value_data_type(*value)) + " "@ + t,
            None => r is Err,
        },
{
    push_dot_type(out, value.data_type());
    push_str(out, " ");
    let ghost mid = out@;
    push_value(out, gm_data, value)?;
    assert(out@ =~= old(out)@ + dot_type(spec_value_data_type(*value)) + " "@ + value_text(*gm_data, *value, Seq::empty()).unwrap());
    Ok(())
}

/// The assembly text of an instruction. A pushed double is written by `format_double`,
/// given the bits of the number.
pub fn disassemble_instruction<F: Fn(u64) -> String>(
    gm_data: &GMData,
    instruction: &GMInstruction,
    format_double: &F,
) -> (r: Result<String, String>)
    requires
        forall|b: u64| format_double.requires((b,)),
    ensures
        match pushed_double(*instruction) {
            None => match r {
                Ok(s) => instruction_text(*gm_data, *instruction, Seq::empty()) == Some(s@),
                Err(_) => instruction_text(*gm_data, *instruction, Seq::empty()) is None,
            },
            Some(bits) => match r {
                Ok(s) => exists|t: String| format_double.ensures((bits,), t)
                    && instruction_text(*gm_data, *instruction, t@) == Some(s@),
                Err(_) => false,
            },
        },
        (instruction matches GMInstruction::Call(c) && invalid_function_name(*gm_data, c.function))
            ==> (r matches Err(e) && e@ == "Invalid function identifier"@),
{
    let mut out: Vec<char> = Vec::new();
    push_str(&mut out, opcode_to_string(instruction));
    let ghost op = out@;
    match instruction {
        GMInstruction::Pop(_) | GMInstruction::Call(_) | GMInstruction::PushReference(_) => {
            if let Err(e) = push_reference_tail(&mut out, gm_data, instruction) {
                return Err(e);
            }
        },
        GMInstruction::Push(i) | GMInstruction::PushLocal(i) | GMInstruction::PushGlobal(i)
        | GMInstruction::PushBuiltin(i) => {
            match &i.value {
                GMCodeValue::Double(bits) => {
                    push_dot_type(&mut out, GMDataType::Double);
                    push_str(&mut out, " ");
                    let text = format_double(*bits);
                    push_str(&mut out, text.as_str());
                    let ghost t = text;
                    assert(out@ =~= op + tail_text(*gm_data, *instruction, t@).unwrap());
                    return Ok(chars_to_string(&out));
                },
                _ => {
                    push_push_tail(&mut out, gm_data, &i.value)?;
                },
            }
        },
        _ => push_plain_tail(&mut out, instruction),
    }
    assert(out@ =~= op + tail_text(*gm_data, *instruction, Seq::empty()).unwrap());
    Ok(chars_to_string(&out))
}

/// The word an asset reference is written as.
fn asset_word_of(a: &GMAssetReference) -> (r: u32)
    ensures
        r == asset_word(*a),
{
    crate::encode::asset_word_exec(a)
}

/// `line` is a text that `disassemble_instruction` may give for `i`.
pub open spec fn line_of<F: Fn(u64) -> String>(d: GMData, i: GMInstruction, format_double: F, line: Seq<char>) -> bool {
    match pushed_double(i) {
        None => instruction_text(d, i, Seq::empty()) == Some(line),
        Some(bits) => exists|t: String| format_double.ensures((bits,), t) && instruction_text(d, i, t@) == Some(line),
    }
}

/// The lines, each followed by a line break.
pub open spec fn joined_lines(lines: Seq<Seq<char>>) -> Seq<char>
    decreases lines.len(),
{
    if lines.len() == 0 {
        Seq::empty()
    } else {
        joined_lines(lines.drop_last()) + lines.last() + seq!['\n']
    }
}

/// The assembly of a code entry: one line per instruction. Fails when an instruction
/// refers to something that does not resolve or to a name that is not a valid identifier.
pub fn disassemble_code<F: Fn(u64) -> String>(gm_data: &GMData, code: &GMCode, format_double: &F) -> (r: Result<String, String>)
    requires
        forall|b: u64| format_double.requires((b,)),
    ensures
        match r {
            Ok(s) => exists|lines: Seq<Seq<char>>| {
                &&& lines.len() == code.instructions@.len()
                &&& s@ == joined_lines(lines)
                &&& forall|k: int| 0 <= k < lines.len() ==> line_of(*gm_data, code.instructions@[k], *format_double, #[trigger] lines[k])
            },
            Err(_) => exists|k: int| 0 <= k < code.instructions@.len()
                && pushed_double(code.instructions@[k]) is None
                && instruction_text(*gm_data, #[trigger] code.instructions@[k], Seq::empty()) is None,
        },
{
    let mut out: Vec<char> = Vec::new();
    let ghost mut lines: Seq<Seq<char>> = Seq::empty();
    let mut i: usize = 0;
    while i < code.instructions.len()
        invariant
            0 <= i <= code.instructions@.len(),
            forall|b: u64| format_double.requires((b,)),
            lines.len() == i,
            out@ == joined_lines(lines),
            forall|k: int| 0 <= k < lines.len() ==> line_of(*gm_data, code.instructions@[k], *format_double, #[trigger] lines[k]),
        decreases code.instructions@.len() - i,
    {
        let line = match disassemble_instruction(gm_data, &code.instructions[i], format_double) {
            Ok(l) => l,
            Err(e) => {
                assert(pushed_double(code.instructions@[i as int]) is None);
                return Err(e);
            },
        };
        push_str(&mut out, line.as_str());
        out.push('\n');
        proof {
            let next = lines.push(line@);
            assert(next.drop_last() =~= lines);
            assert(line_of(*gm_data, code.instructions@[i as int], *format_double, line@));
            lines = next;
        }
        i = i + 1;
    }
    Ok(chars_to_string(&out))
}

/// The mnemonic of an extended instruction given by its 16-bit kind (-1 to -11); `None`
/// for another kind.
pub open spec fn extended_id_text(extended_id: i16) -> Option<Seq<char>> {
    if extended_id == -1 { Some("chkindex"@) }
    else if extended_id == -2 { Some("pushaf"@) }
    else if extended_id == -3 { Some("popaf"@) }
    else if extended_id == -4 { Some("pushac"@) }
    else if extended_id == -5 { Some("setowner"@) }
    else if extended_id == -6 { Some("isstaticok"@) }
    else if extended_id == -7 { Some("setstatic"@) }
    else if extended_id == -8 { Some("savearef"@) }
    else if extended_id == -9 { Some("restorearef"@) }
    else if extended_id == -10 { Some("chknullish"@) }
    else if extended_id == -11 { Some("pushref"@) }
    else { None }
}

/// The mnemonic of an extended instruction given by its kind; fails for an unknown kind.
pub fn extended_id_to_string(extended_id: i16) -> (r: Result<&'static str, String>)
    ensures
        match r {
            Ok(s) => extended_id_text(extended_id) == Some(s@),
            Err(_) => extended_id_text(extended_id) is None,
        },
{
    match extended_id {
        -1 => Ok("chkindex"),
        -2 => Ok("pushaf"),
        -3 => Ok("popaf"),
        -4 => Ok("pushac"),
        -5 => Ok("setowner"),
        -6 => Ok("isstaticok"),
        -7 => Ok("setstatic"),
        -8 => Ok("savearef"),
        -9 => Ok("restorearef"),
        -10 => Ok("chknullish"),
        -11 => Ok("pushref"),
        _ => Err("Unknown Break ID".to_owned()),
    }
}

} // verus!
