//! Turning assembly text into instructions.

use vstd::prelude::*;
use crate::code::{comparison_holds, CodeVariable, GMCodeValue, GMComparisonType, GMDataType, GMInstanceType, GMVariableType};
use crate::instructions::{
    GMAssetReference, GMCallInstruction, GMCallVariableInstruction, GMComparisonInstruction,
    GMDoubleTypeInstruction, GMDuplicateInstruction, GMDuplicateSwapInstruction,
    GMEmptyInstruction, GMGotoInstruction, GMInstruction, GMPopInstruction,
    GMPopSwapInstruction, GMPopenvExitMagicInstruction, GMPushInstruction,
    GMSingleTypeInstruction,
};
use crate::data::GMData;
use crate::disassembler::{comparison_name_relation, comparison_type_text, lemma_comparison_names_distinct, escaped, escaped_char, literal_text, string_of};
use crate::elements::functions::{GMFunction, GMFunctions};
use crate::elements::game_objects::{object_names, GMGameObject};
use crate::elements::variables::GMVariable;
use crate::elements::strings::{first_named, lemma_first_named_prefix, spec_make, GMStrings};
use crate::refs::{gm_ref, GMRef};
use crate::text::digit_char;
use crate::disassembler::{is_ascii_alpha, is_ascii_digit};
use crate::trusted::{chars_to_string, str_to_chars};

verus! {

/// Why a line of assembly could not be assembled.
#[derive(Debug)]
pub enum ParseError {
    ExpectedEOL(String),
    ExpectedSpace(String),
    ExpectedDot(String),
    ExpectedString(String),
    ExpectedArgc(String),
    ExpectedIdentifier(String),
    UnexpectedEOL(&'static str),
    /// `(expected, actual)`
    InvalidTypeCount(usize, usize),
    InvalidDataType(char),
    InvalidComparisonType(String),
    InvalidInstanceType(String),
    InvalidMnemonic(String),
    InvalidExtendedMnemonic(String),
    InvalidVariableType(String),
    InvalidTypeCast(String),
    IntegerOutOfBounds(String),
    InvalidFloat(String),
    InvalidBoolean(String),
    InvalidIdentifier(&'static str),
    InvalidEscapeCharacter(char),
    UnmatchedAngleBracket,
    UnmatchedSquareBracket,
    UnmatchedRoundBracket,
    StringIndexUnresolvable(u32),
    VarLocalInvalidIndex(String),
    VarUnresolvable(String),
    FuncUnresolvable(String),
    ObjectUnresolvable(String),
}

/// The text of a character slice.
fn text_of(chars: &[char]) -> (s: String)
    ensures
        s@ == chars@,
{
    let v = slice_to_vec(chars);
    chars_to_string(&v)
}

fn slice_to_vec(chars: &[char]) -> (v: Vec<char>)
    ensures
        v@ == chars@,
{
    let mut v: Vec<char> = Vec::new();
    let mut i: usize = 0;
    while i < chars.len()
        invariant
            0 <= i <= chars@.len(),
            v@ == chars@.subrange(0, i as int),
        decreases chars@.len() - i,
    {
        v.push(chars[i]);
        i = i + 1;
        assert(v@ =~= chars@.subrange(0, i as int));
    }
    assert(chars@.subrange(0, chars@.len() as int) =~= chars@);
    v
}

/// Takes the first character off the line.
pub fn consume_char(line: &mut &[char]) -> (r: Option<char>)
    ensures
        old(line)@.len() == 0 ==> r is None && final(line)@ == old(line)@,
        old(line)@.len() > 0 ==> r == Some(old(line)@[0]) && final(line)@ == old(line)@.skip(1),
{
    if line.len() == 0 {
        return None;
    }
    let c = line[0];
    *line = vstd::slice::slice_subrange(*line, 1, line.len());
    assert(line@ =~= old(line)@.skip(1));
    Some(c)
}

/// Takes the first `count` characters off the line; fails unless more than `count` remain.
pub fn consume_chars(line: &mut &[char], count: usize) -> (r: Result<String, ParseError>)
    ensures
        r is Ok <==> count < old(line)@.len(),
        r matches Ok(s) ==> s@ == old(line)@.take(count as int) && final(line)@ == old(line)@.skip(count as int),
        r is Err ==> final(line)@ == old(line)@,
{
    if count >= line.len() {
        return Err(ParseError::UnexpectedEOL("consuming n chars"));
    }
    let consumed = text_of(vstd::slice::slice_subrange(*line, 0, count));
    *line = vstd::slice::slice_subrange(*line, count, line.len());
    assert(line@ =~= old(line)@.skip(count as int));
    assert(consumed@ =~= old(line)@.take(count as int));
    Ok(consumed)
}

/// Whether the line starts with `prefix`.
fn starts_with(line: &[char], prefix: &Vec<char>) -> (r: bool)
    ensures
        r == (prefix@.len() <= line@.len() && line@.take(prefix@.len() as int) == prefix@),
{
    if prefix.len() > line.len() {
        return false;
    }
    let mut i: usize = 0;
    while i < prefix.len()
        invariant
            0 <= i <= prefix@.len() <= line@.len(),
            forall|j: int| 0 <= j < i ==> line@[j] == prefix@[j],
        decreases prefix@.len() - i,
    {
        if line[i] != prefix[i] {
            assert(line@.take(prefix@.len() as int)[i as int] != prefix@[i as int]);
            return false;
        }
        i = i + 1;
    }
    assert(line@.take(prefix@.len() as int) =~= prefix@);
    true
}

/// Takes `string` off the start of the line, if it is there.
pub fn consume_str(line: &mut &[char], string: &str) -> (r: Option<()>)
    ensures
        ({
            let n = string@.len() as int;
            if n <= old(line)@.len() && old(line)@.take(n) == string@ {
                r is Some && final(line)@ == old(line)@.skip(n)
            } else {
                r is None && final(line)@ == old(line)@
            }
        }),
{
    let prefix = str_to_chars(string);
    if starts_with(*line, &prefix) {
        *line = vstd::slice::slice_subrange(*line, prefix.len(), line.len());
        assert(line@ =~= old(line)@.skip(string@.len() as int));
        Some(())
    } else {
        None
    }
}

/// Takes a space off the line.
pub fn consume_space(line: &mut &[char]) -> (r: Result<(), ParseError>)
    ensures
        r is Ok <==> old(line)@.len() > 0 && old(line)@[0] == ' ',
        old(line)@.len() > 0 ==> final(line)@ == old(line)@.skip(1),
        old(line)@.len() == 0 ==> final(line)@ == old(line)@,
{
    let c = match consume_char(line) {
        Some(c) => c,
        None => return Err(ParseError::UnexpectedEOL("space")),
    };
    if c != ' ' {
        return Err(ParseError::ExpectedSpace(text_of(*line)));
    }
    Ok(())
}

/// Takes a dot off the line.
pub fn consume_dot(line: &mut &[char]) -> (r: Result<(), ParseError>)
    ensures
        r is Ok <==> old(line)@.len() > 0 && old(line)@[0] == '.',
        old(line)@.len() > 0 ==> final(line)@ == old(line)@.skip(1),
        old(line)@.len() == 0 ==> final(line)@ == old(line)@,
{
    let c = match consume_char(line) {
        Some(c) => c,
        None => return Err(ParseError::UnexpectedEOL("dot")),
    };
    if c != '.' {
        return Err(ParseError::ExpectedDot(text_of(*line)));
    }
    Ok(())
}

/// The index of the first `c` in `s`, if any.
pub open spec fn index_of(s: Seq<char>, c: char) -> Option<int>
    decreases s.len(),
{
    if s.len() == 0 {
        None
    } else {
        match index_of(s.drop_last(), c) {
            Some(i) => Some(i),
            None => if s.last() == c { Some(s.len() - 1) } else { None },
        }
    }
}

/// The bracketed text at the start of the line: `None` when the line does not start with
/// `open`; else the text up to the first `close` (undefined when there is none) and the rest.
pub open spec fn bracketed(s: Seq<char>, open: char, close: char) -> Option<Option<(Seq<char>, Seq<char>)>> {
    if s.len() == 0 || s[0] != open {
        Some(None)
    } else {
        let t = s.skip(1);
        match index_of(t, close) {
            Some(k) => Some(Some((t.take(k), t.skip(k + 1)))),
            None => None,
        }
    }
}

fn find_char(s: &[char], c: char) -> (r: Option<usize>)
    ensures
        match index_of(s@, c) {
            Some(k) => r == Some(k as usize),
            None => r is None,
        },
{
    let mut i: usize = 0;
    while i < s.len()
        invariant
            0 <= i <= s@.len(),
            index_of(s@.take(i as int), c) is None,
        decreases s@.len() - i,
    {
        proof {
            assert(s@.take(i + 1).drop_last() =~= s@.take(i as int));
        }
        if s[i] == c {
            proof {
                lemma_index_of_prefix(s@, c, i + 1);
            }
            return Some(i);
        }
        i = i + 1;
    }
    assert(s@.take(i as int) =~= s@);
    None
}

/// `index_of` finds a `c` inside the sequence.
proof fn lemma_index_of_bounds(s: Seq<char>, c: char)
    ensures
        index_of(s, c) matches Some(k) ==> 0 <= k < s.len() && s[k] == c,
    decreases s.len(),
{
    if s.len() > 0 {
        lemma_index_of_bounds(s.drop_last(), c);
    }
}

/// The first `c` of a prefix that holds one is the first `c` of the whole.
proof fn lemma_index_of_prefix(s: Seq<char>, c: char, n: int)
    requires
        0 <= n <= s.len(),
        index_of(s.take(n), c) is Some,
    ensures
        index_of(s, c) == index_of(s.take(n), c),
    decreases s.len() - n,
{
    if n < s.len() {
        assert(s.take(n + 1).drop_last() =~= s.take(n));
        lemma_index_of_prefix(s, c, n + 1);
    } else {
        assert(s.take(n) =~= s);
    }
}

/// Takes a bracketed text off the start of the line, if it starts with `open`.
fn consume_brackets_template(line: &mut &[char], open: char, close: char, err: ParseError) -> (r: Result<Option<String>, ParseError>)
    ensures
        match bracketed(old(line)@, open, close) {
            Some(None) => r matches Ok(None) && final(line)@ == old(line)@,
            Some(Some((inside, rest))) => r matches Ok(Some(s)) && s@ == inside && final(line)@ == rest,
            None => r == Err::<Option<String>, ParseError>(err),
        },
{
    if line.len() == 0 || line[0] != open {
        return Ok(None);
    }
    consume_char(line);
    let close_bracket = match find_char(*line, close) {
        Some(k) => k,
        None => return Err(err),
    };
    proof {
        lemma_index_of_bounds(line@, close);
    }
    let inside = text_of(vstd::slice::slice_subrange(*line, 0, close_bracket));
    *line = vstd::slice::slice_subrange(*line, close_bracket + 1, line.len());
    assert(inside@ =~= old(line)@.skip(1).take(close_bracket as int));
    assert(line@ =~= old(line)@.skip(1).skip(close_bracket + 1));
    Ok(Some(inside))
}

/// Takes a text in round brackets off the start of the line.
pub fn consume_round_brackets(line: &mut &[char]) -> (r: Result<Option<String>, ParseError>)
    ensures
        match bracketed(old(line)@, '(', ')') {
            Some(None) => r matches Ok(None) && final(line)@ == old(line)@,
            Some(Some((inside, rest))) => r matches Ok(Some(s)) && s@ == inside && final(line)@ == rest,
            None => r matches Err(ParseError::UnmatchedRoundBracket),
        },
{
    consume_brackets_template(line, '(', ')', ParseError::UnmatchedRoundBracket)
}

/// Takes a text in square brackets off the start of the line.
pub fn consume_square_brackets(line: &mut &[char]) -> (r: Result<Option<String>, ParseError>)
    ensures
        match bracketed(old(line)@, '[', ']') {
            Some(None) => r matches Ok(None) && final(line)@ == old(line)@,
            Some(Some((inside, rest))) => r matches Ok(Some(s)) && s@ == inside && final(line)@ == rest,
            None => r matches Err(ParseError::UnmatchedSquareBracket),
        },
{
    consume_brackets_template(line, '[', ']', ParseError::UnmatchedSquareBracket)
}

/// Takes a text in angle brackets off the start of the line.
pub fn consume_angle_brackets(line: &mut &[char]) -> (r: Result<Option<String>, ParseError>)
    ensures
        match bracketed(old(line)@, '<', '>') {
            Some(None) => r matches Ok(None) && final(line)@ == old(line)@,
            Some(Some((inside, rest))) => r matches Ok(Some(s)) && s@ == inside && final(line)@ == rest,
            None => r matches Err(ParseError::UnmatchedAngleBracket),
        },
{
    consume_brackets_template(line, '<', '>', ParseError::UnmatchedAngleBracket)
}

/// Whether `s` holds exactly the characters of `t`.
fn text_is(s: &String, t: &str) -> (r: bool)
    ensures
        r == (s@ == t@),
{
    s.eq(&t.to_owned())
}

pub open spec fn data_type_of_char(c: char) -> Option<GMDataType> {
    if c == 'e' { Some(GMDataType::Int16) }
    else if c == 'i' { Some(GMDataType::Int32) }
    else if c == 'l' { Some(GMDataType::Int64) }
    else if c == 'd' { Some(GMDataType::Double) }
    else if c == 'b' { Some(GMDataType::Boolean) }
    else if c == 's' { Some(GMDataType::String) }
    else if c == 'v' { Some(GMDataType::Variable) }
    else { None }
}

/// The data type named by a one-letter suffix.
pub fn data_type_from_char(data_type: char) -> (r: Result<GMDataType, ParseError>)
    ensures
        match data_type_of_char(data_type) {
            Some(t) => r == Ok::<GMDataType, ParseError>(t),
            None => r matches Err(ParseError::InvalidDataType(c)) && c == data_type,
        },
{
    match data_type {
        'e' => Ok(GMDataType::Int16),
        'i' => Ok(GMDataType::Int32),
        'l' => Ok(GMDataType::Int64),
        'd' => Ok(GMDataType::Double),
        'b' => Ok(GMDataType::Boolean),
        's' => Ok(GMDataType::String),
        'v' => Ok(GMDataType::Variable),
        _ => Err(ParseError::InvalidDataType(data_type)),
    }
}

pub open spec fn extended_id_of_text(s: Seq<char>) -> Option<i16> {
    if s == "chkindex"@ { Some(-1i16) }
    else if s == "pushaf"@ { Some(-2i16) }
    else if s == "popaf"@ { Some(-3i16) }
    else if s == "pushac"@ { Some(-4i16) }
    else if s == "setowner"@ { Some(-5i16) }
    else if s == "isstaticok"@ { Some(-6i16) }
    else if s == "setstatic"@ { Some(-7i16) }
    else if s == "savearef"@ { Some(-8i16) }
    else if s == "restorearef"@ { Some(-9i16) }
    else if s == "chknullish"@ { Some(-10i16) }
    else if s == "pushref"@ { Some(-11i16) }
    else { None }
}

/// The kind of the extended instruction named by `mnemonic`.
pub fn extended_id_from_string(mnemonic: &String) -> (r: Result<i16, ParseError>)
    ensures
        match extended_id_of_text(mnemonic@) {
            Some(k) => r == Ok::<i16, ParseError>(k),
            None => r matches Err(ParseError::InvalidMnemonic(m)) && m@ == mnemonic@,
        },
{
    if text_is(mnemonic, "chkindex") { Ok(-1) }
    else if text_is(mnemonic, "pushaf") { Ok(-2) }
    else if text_is(mnemonic, "popaf") { Ok(-3) }
    else if text_is(mnemonic, "pushac") { Ok(-4) }
    else if text_is(mnemonic, "setowner") { Ok(-5) }
    else if text_is(mnemonic, "isstaticok") { Ok(-6) }
    else if text_is(mnemonic, "setstatic") { Ok(-7) }
    else if text_is(mnemonic, "savearef") { Ok(-8) }
    else if text_is(mnemonic, "restorearef") { Ok(-9) }
    else if text_is(mnemonic, "chknullish") { Ok(-10) }
    else if text_is(mnemonic, "pushref") { Ok(-11) }
    else { Err(ParseError::InvalidMnemonic(mnemonic.clone())) }
}

pub open spec fn comparison_type_of_text(s: Seq<char>) -> Option<GMComparisonType> {
    if s == "LT"@ { Some(GMComparisonType::LessThan) }
    else if s == "LTE"@ { Some(GMComparisonType::LessOrEqual) }
    else if s == "EQ"@ { Some(GMComparisonType::Equal) }
    else if s == "NEQ"@ { Some(GMComparisonType::NotEqual) }
    else if s == "GTE"@ { Some(GMComparisonType::GreaterOrEqual) }
    else if s == "GT"@ { Some(GMComparisonType::GreaterThan) }
    else { None }
}

/// A comparison name reads as the comparison it stands for, on all operands; no other text
/// reads as a comparison.
pub proof fn law_comparison_parse_meaning(s: Seq<char>, x: int, y: int)
    ensures
        comparison_type_of_text(s) matches Some(c) ==> comparison_holds(c, x, y) == comparison_name_relation(s, x, y),
        (comparison_type_of_text(s) is Some) == (s == "LT"@ || s == "LTE"@ || s == "EQ"@ || s == "NEQ"@ || s == "GTE"@
            || s == "GT"@),
{
    lemma_comparison_names_distinct();
}

/// Reading back the name a comparison is disassembled as gives the comparison back.
pub proof fn law_comparison_name_roundtrip(c: GMComparisonType)
    ensures
        comparison_type_of_text(comparison_type_text(c)) == Some(c),
{
    lemma_comparison_names_distinct();
}

/// The comparison named by `comparison_type`.
pub fn comparison_type_from_string(comparison_type: &String) -> (r: Result<GMComparisonType, ParseError>)
    ensures
        match comparison_type_of_text(comparison_type@) {
            Some(t) => r == Ok::<GMComparisonType, ParseError>(t),
            None => r matches Err(ParseError::InvalidComparisonType(m)) && m@ == comparison_type@,
        },
{
    if text_is(comparison_type, "LT") { Ok(GMComparisonType::LessThan) }
    else if text_is(comparison_type, "LTE") { Ok(GMComparisonType::LessOrEqual) }
    else if text_is(comparison_type, "EQ") { Ok(GMComparisonType::Equal) }
    else if text_is(comparison_type, "NEQ") { Ok(GMComparisonType::NotEqual) }
    else if text_is(comparison_type, "GTE") { Ok(GMComparisonType::GreaterOrEqual) }
    else if text_is(comparison_type, "GT") { Ok(GMComparisonType::GreaterThan) }
    else { Err(ParseError::InvalidComparisonType(comparison_type.clone())) }
}

pub open spec fn variable_type_of_text(s: Seq<char>) -> Option<GMVariableType> {
    if s == "array"@ { Some(GMVariableType::Array) }
    else if s == "stacktop"@ { Some(GMVariableType::StackTop) }
    else if s == "normal"@ { Some(GMVariableType::Normal) }
    else if s == "instance"@ { Some(GMVariableType::Instance) }
    else if s == "arraypushaf"@ { Some(GMVariableType::ArrayPushAF) }
    else if s == "arraypopaf"@ { Some(GMVariableType::ArrayPopAF) }
    else { None }
}

/// The variable type named inside square brackets.
pub fn variable_type_from_string(variable_type: &String) -> (r: Result<GMVariableType, ParseError>)
    ensures
        match variable_type_of_text(variable_type@) {
            Some(t) => r == Ok::<GMVariableType, ParseError>(t),
            None => r matches Err(ParseError::InvalidVariableType(m)) && m@ == variable_type@,
        },
{
    if text_is(variable_type, "array") { Ok(GMVariableType::Array) }
    else if text_is(variable_type, "stacktop") { Ok(GMVariableType::StackTop) }
    else if text_is(variable_type, "normal") { Ok(GMVariableType::Normal) }
    else if text_is(variable_type, "instance") { Ok(GMVariableType::Instance) }
    else if text_is(variable_type, "arraypushaf") { Ok(GMVariableType::ArrayPushAF) }
    else if text_is(variable_type, "arraypopaf") { Ok(GMVariableType::ArrayPopAF) }
    else { Err(ParseError::InvalidVariableType(variable_type.clone())) }
}

/// The number of decimal digits at the start of `s`.
pub open spec fn digit_run(s: Seq<char>) -> nat
    decreases s.len(),
{
    if s.len() == 0 || !is_ascii_digit(s[0]) {
        0
    } else {
        1 + digit_run(s.skip(1))
    }
}

/// The length of the integer text at the start of `s`: an optional `-`, then digits.
pub open spec fn int_prefix_len(s: Seq<char>) -> nat {
    if s.len() > 0 && s[0] == '-' {
        1 + digit_run(s.skip(1))
    } else {
        digit_run(s)
    }
}

pub open spec fn digit_value(c: char) -> int {
    c as int - '0' as int
}

/// The value of a sequence of decimal digits.
pub open spec fn digits_value(s: Seq<char>) -> int
    decreases s.len(),
{
    if s.len() == 0 {
        0
    } else {
        digits_value(s.drop_last()) * 10 + digit_value(s.last())
    }
}

/// The value of the integer text of length `n` at the start of `s`.
pub open spec fn int_prefix_value(s: Seq<char>, n: int) -> int {
    if s.len() > 0 && s[0] == '-' {
        -digits_value(s.subrange(1, n))
    } else {
        digits_value(s.take(n))
    }
}

/// A run of characters that all satisfy a digit test ends where one does not.
proof fn lemma_digit_run(s: Seq<char>, k: int)
    requires
        0 <= k <= s.len(),
        forall|j: int| 0 <= j < k ==> is_ascii_digit(#[trigger] s[j]),
        k == s.len() || !is_ascii_digit(s[k]),
    ensures
        digit_run(s) == k,
    decreases k,
{
    if k > 0 {
        let t = s.skip(1);
        assert forall|j: int| 0 <= j < k - 1 implies is_ascii_digit(#[trigger] t[j]) by {
            assert(t[j] == s[j + 1]);
        }
        if k - 1 < t.len() {
            assert(t[k - 1] == s[k]);
        }
        lemma_digit_run(t, k - 1);
    }
}

/// Digits only make a value grow.
proof fn lemma_digits_grow(s: Seq<char>, c: char)
    requires
        is_ascii_digit(c),
    ensures
        digits_value(s.push(c)) == digits_value(s) * 10 + digit_value(c),
        digits_value(s) >= 0 ==> digits_value(s.push(c)) >= digits_value(s) * 10,
        digits_value(s) >= 0 ==> digits_value(s.push(c)) >= 0,
{
    assert(s.push(c).drop_last() =~= s);
}

/// Reads an integer (an optional `-`, then digits) off the start of the line; fails when there
/// is none or it lies outside `min..=max`, leaving the line as it was.
pub fn parse_int(line: &mut &[char], min: i64, max: i64) -> (r: Result<i64, ParseError>)
    ensures
        ({
            let s = old(line)@;
            let n = int_prefix_len(s) as int;
            let v = int_prefix_value(s, n);
            if n == 0 || (n == 1 && s[0] == '-') {
                r matches Err(ParseError::UnexpectedEOL(_)) && final(line)@ == s
            } else if v < min || v > max {
                r matches Err(ParseError::IntegerOutOfBounds(t)) && t@ == s.take(n) && final(line)@ == s
            } else {
                r == Ok::<i64, ParseError>(v as i64) && final(line)@ == s.skip(n)
            }
        }),
{
    let ghost s = line@;
    let neg = line.len() > 0 && line[0] == '-';
    let start: usize = if neg { 1 } else { 0 };
    let mut end: usize = start;
    let mut acc: u128 = 0;
    let mut over = false;
    while end < line.len() && '0' <= line[end] && line[end] <= '9'
        invariant
            start <= end <= line@.len(),
            line@ == s,
            start == (if neg { 1usize } else { 0usize }),
            neg == (s.len() > 0 && s[0] == '-'),
            forall|j: int| start <= j < end ==> is_ascii_digit(#[trigger] s[j]),
            !over ==> acc == digits_value(s.subrange(start as int, end as int)),
            over ==> digits_value(s.subrange(start as int, end as int)) >= 100_000_000_000_000_000_000,
            digits_value(s.subrange(start as int, end as int)) >= 0,
            acc <= 100_000_000_000_000_000_000,
        decreases line@.len() - end,
    {
        let c = line[end];
        let d: u128 = (c as u32 - '0' as u32) as u128;
        proof {
            assert(s.subrange(start as int, end + 1) =~= s.subrange(start as int, end as int).push(c));
            lemma_digits_grow(s.subrange(start as int, end as int), c);
        }
        if !over {
            if acc >= 10_000_000_000_000_000_000 {
                over = true;
            } else {
                acc = acc * 10 + d;
            }
        }
        end = end + 1;
    }
    proof {
        let t = s.skip(start as int);
        assert forall|j: int| 0 <= j < end - start implies is_ascii_digit(#[trigger] t[j]) by {
            assert(t[j] == s[start + j]);
        }
        if end < s.len() {
            assert(t[end - start] == s[end as int]);
        }
        lemma_digit_run(t, end - start);
        if !neg {
            assert(t =~= s);
        }
        assert(s.subrange(start as int, end as int) =~= (if neg { s.subrange(1, end as int) } else { s.take(end as int) }));
    }
    if end == 0 || (end == 1 && neg) {
        return Err(ParseError::UnexpectedEOL("integer"));
    }
    let in_range = !over && (if neg {
        acc <= 0x8000_0000_0000_0000u128 && -(acc as i128) >= min as i128 && -(acc as i128) <= max as i128
    } else {
        acc <= 0x7FFF_FFFF_FFFF_FFFFu128 && (acc as i128) >= min as i128 && (acc as i128) <= max as i128
    });
    if !in_range {
        return Err(ParseError::IntegerOutOfBounds(text_of(vstd::slice::slice_subrange(*line, 0, end))));
    }
    let value: i64 = if neg { (-(acc as i128)) as i64 } else { acc as i64 };
    *line = vstd::slice::slice_subrange(*line, end, line.len());
    assert(line@ =~= s.skip(end as int));
    Ok(value)
}

/// A character that may appear in an identifier.
pub open spec fn is_ident_char(c: char) -> bool {
    is_ascii_digit(c) || is_ascii_alpha(c) || c == '_' || c == '@' || c == '$'
}

/// The number of identifier characters at the start of `s`.
pub open spec fn ident_run(s: Seq<char>) -> nat
    decreases s.len(),
{
    if s.len() == 0 || !is_ident_char(s[0]) {
        0
    } else {
        1 + ident_run(s.skip(1))
    }
}

proof fn lemma_ident_run(s: Seq<char>, k: int)
    requires
        0 <= k <= s.len(),
        forall|j: int| 0 <= j < k ==> is_ident_char(#[trigger] s[j]),
        k == s.len() || !is_ident_char(s[k]),
    ensures
        ident_run(s) == k,
    decreases k,
{
    if k > 0 {
        let t = s.skip(1);
        assert forall|j: int| 0 <= j < k - 1 implies is_ident_char(#[trigger] t[j]) by {
            assert(t[j] == s[j + 1]);
        }
        if k - 1 < t.len() {
            assert(t[k - 1] == s[k]);
        }
        lemma_ident_run(t, k - 1);
    }
}

/// Reads an identifier (letters, digits, `_`, `@`, `$`, not starting with a digit) off the
/// start of the line. An empty line gives an empty identifier.
pub fn parse_identifier(line: &mut &[char]) -> (r: Result<String, ParseError>)
    ensures
        ({
            let s = old(line)@;
            let k = ident_run(s) as int;
            if s.len() > 0 && is_ascii_digit(s[0]) {
                r matches Err(ParseError::InvalidIdentifier(_))
            } else if k == 0 && s.len() > 0 {
                r matches Err(ParseError::ExpectedIdentifier(t)) && t@ == s
            } else {
                r matches Ok(id) && id@ == s.take(k) && final(line)@ == s.skip(k)
            }
        }),
{
    let ghost s = line@;
    if line.len() > 0 && '0' <= line[0] && line[0] <= '9' {
        return Err(ParseError::InvalidIdentifier("must not start with a digit"));
    }
    let mut i: usize = 0;
    while i < line.len()
        invariant
            0 <= i <= line@.len(),
            line@ == s,
            s == old(line)@,
            !(s.len() > 0 && is_ascii_digit(s[0])),
            forall|j: int| 0 <= j < i ==> is_ident_char(#[trigger] s[j]),
        decreases line@.len() - i,
    {
        let c = line[i];
        if !(('0' <= c && c <= '9') || ('A' <= c && c <= 'Z') || ('a' <= c && c <= 'z') || c == '_'
            || c == '@' || c == '$') {
            proof {
                lemma_ident_run(s, i as int);
            }
            if i == 0 {
                return Err(ParseError::ExpectedIdentifier(text_of(*line)));
            }
            let identifier = text_of(vstd::slice::slice_subrange(*line, 0, i));
            *line = vstd::slice::slice_subrange(*line, i, line.len());
            assert(identifier@ =~= s.take(i as int));
            assert(line@ =~= s.skip(i as int));
            return Ok(identifier);
        }
        i = i + 1;
    }
    proof {
        lemma_ident_run(s, i as int);
    }
    let identifier = text_of(*line);
    *line = vstd::slice::slice_subrange(*line, line.len(), line.len());
    assert(identifier@ =~= s.take(i as int));
    assert(line@ =~= s.skip(i as int));
    Ok(identifier)
}

/// Reads `true` or `false` off the start of the line.
pub fn parse_bool(line: &mut &[char]) -> (r: Result<bool, ParseError>)
    ensures
        ({
            let s = old(line)@;
            let k = ident_run(s) as int;
            if (s.len() > 0 && is_ascii_digit(s[0])) || (k == 0 && s.len() > 0) {
                r is Err
            } else if s.take(k) == "true"@ {
                r == Ok::<bool, ParseError>(true) && final(line)@ == s.skip(k)
            } else if s.take(k) == "false"@ {
                r == Ok::<bool, ParseError>(false) && final(line)@ == s.skip(k)
            } else {
                r matches Err(ParseError::InvalidBoolean(t)) && t@ == s.take(k)
            }
        }),
{
    let b = parse_identifier(line)?;
    if text_is(&b, "true") {
        return Ok(true);
    }
    if text_is(&b, "false") {
        return Ok(false);
    }
    Err(ParseError::InvalidBoolean(b))
}

/// The character that an escape sequence `\c` stands for.
pub open spec fn unescaped_char(c: char) -> Option<char> {
    if c == 'n' { Some('\n') }
    else if c == 'r' { Some('\r') }
    else if c == 't' { Some('\t') }
    else if c == '\\' { Some('\\') }
    else if c == '"' { Some('"') }
    else { None }
}

/// The body of a string literal (after its opening quote): its characters with escapes
/// resolved and the index of the closing quote; `Err(Some(c))` for an invalid escape `c`,
/// `Err(None)` when the literal does not end.
pub open spec fn literal_body(s: Seq<char>) -> Result<(Seq<char>, int), Option<char>>
    decreases s.len(),
{
    if s.len() == 0 {
        Err(None)
    } else if s[0] == '"' {
        Ok((Seq::empty(), 0))
    } else if s[0] == '\\' {
        if s.len() < 2 {
            Err(None)
        } else {
            match unescaped_char(s[1]) {
                None => Err(Some(s[1])),
                Some(c) => match literal_body(s.skip(2)) {
                    Ok((t, k)) => Ok((seq![c] + t, k + 2)),
                    Err(e) => Err(e),
                },
            }
        }
    } else {
        match literal_body(s.skip(1)) {
            Ok((t, k)) => Ok((seq![s[0]] + t, k + 1)),
            Err(e) => Err(e),
        }
    }
}

/// Escaping a string with a first character escapes that character, then the rest.
proof fn lemma_escaped_cons(c: char, t: Seq<char>)
    ensures
        escaped(seq![c] + t) == escaped_char(c) + escaped(t),
    decreases t.len(),
{
    let u = seq![c] + t;
    if t.len() == 0 {
        assert(u.drop_last() =~= Seq::<char>::empty());
        assert(escaped(Seq::<char>::empty()) =~= Seq::<char>::empty());
        assert(u.last() == c);
        assert(escaped(u) =~= escaped_char(c));
        assert(escaped_char(c) + escaped(t) =~= escaped_char(c));
    } else {
        assert(u.drop_last() =~= seq![c] + t.drop_last());
        lemma_escaped_cons(c, t.drop_last());
        assert(u.last() == t.last());
        assert(escaped(u) =~= escaped_char(c) + escaped(t));
    }
}

/// Reading the body of the literal that formats `s`, followed by anything, gives back `s`
/// and stops at the literal's closing quote.
pub proof fn law_string_literal_roundtrip(s: Seq<char>, rest: Seq<char>)
    ensures
        literal_body(escaped(s) + seq!['"'] + rest) == Ok::<(Seq<char>, int), Option<char>>((s, escaped(s).len() as int)),
    decreases s.len(),
{
    if s.len() == 0 {
        assert(s =~= Seq::<char>::empty());
        assert(escaped(s) =~= Seq::<char>::empty());
        assert(escaped(s) + seq!['"'] + rest =~= seq!['"'] + rest);
        assert((seq!['"'] + rest)[0] == '"');
    } else {
        let c = s[0];
        let t = s.skip(1);
        assert(s =~= seq![c] + t);
        lemma_escaped_cons(c, t);
        law_string_literal_roundtrip(t, rest);
        let whole = escaped(s) + seq!['"'] + rest;
        let tail = escaped(t) + seq!['"'] + rest;
        let e = escaped_char(c);
        assert(whole =~= e + tail);
        if c == '\\' || c == '\n' || c == '\r' || c == '\t' || c == '"' {
            assert(e.len() == 2);
            assert(whole[0] == e[0] && whole[1] == e[1] && e[0] == '\\');
            assert(whole.skip(2) =~= tail);
            assert(unescaped_char(e[1]) == Some(c));
            assert(literal_body(whole) == Ok::<(Seq<char>, int), Option<char>>((seq![c] + t, escaped(t).len() as int + 2)));
        } else {
            assert(e =~= seq![c]);
            assert(whole[0] == c);
            assert(whole.skip(1) =~= tail);
            assert(literal_body(whole) == Ok::<(Seq<char>, int), Option<char>>((seq![c] + t, escaped(t).len() as int + 1)));
        }
        assert(seq![c] + t =~= s);
        assert(escaped(s) == e + escaped(t));
        assert(escaped(s).len() == e.len() + escaped(t).len());
        assert(whole == escaped(s) + seq!['"'] + rest);
    }
}

/// Reading a string literal from the text that formats `s`, followed by `rest`, gives back
/// `s` and leaves `rest`.
pub proof fn law_parse_formatted_literal(s: Seq<char>, rest: Seq<char>)
    ensures
        ({
            let line = literal_text(s) + rest;
            &&& line.len() > 0 && line[0] == '"'
            &&& literal_body(line.skip(1)) == Ok::<(Seq<char>, int), Option<char>>((s, escaped(s).len() as int))
            &&& line.skip(1).skip(escaped(s).len() as int + 1) == rest
        }),
{
    let line = literal_text(s) + rest;
    assert(line.skip(1) =~= escaped(s) + seq!['"'] + rest);
    law_string_literal_roundtrip(s, rest);
    assert(line.skip(1).skip(escaped(s).len() as int + 1) =~= rest);
}

/// A literal body read after `prefix` (of `n` characters) was already read.
pub open spec fn after_prefix(res: Result<(Seq<char>, int), Option<char>>, prefix: Seq<char>, n: int) -> Result<(Seq<char>, int), Option<char>> {
    match res {
        Ok((t, k)) => Ok((prefix + t, k + n)),
        Err(e) => Err(e),
    }
}

proof fn lemma_after_prefix(res: Result<(Seq<char>, int), Option<char>>, out: Seq<char>, c: char, i: int, n: int)
    ensures
        after_prefix(after_prefix(res, seq![c], n), out, i) == after_prefix(res, out.push(c), i + n),
{
    match res {
        Ok((t, k)) => {
            assert(out + (seq![c] + t) =~= out.push(c) + t);
        },
        Err(_) => {},
    }
}

/// Reads a string literal in double quotes off the start of the line, resolving the escapes
/// `\n`, `\r`, `\t`, `\\` and `\"`.
pub fn parse_string_literal(line: &mut &[char]) -> (r: Result<String, ParseError>)
    ensures
        ({
            let s = old(line)@;
            if s.len() == 0 || s[0] != '"' {
                r matches Err(ParseError::ExpectedString(_))
            } else {
                match literal_body(s.skip(1)) {
                    Ok((t, k)) => r matches Ok(x) && x@ == t && final(line)@ == s.skip(1).skip(k + 1),
                    Err(Some(c)) => r matches Err(ParseError::InvalidEscapeCharacter(c2)) && c2 == c,
                    Err(None) => r matches Err(ParseError::UnexpectedEOL(_)),
                }
            }
        }),
{
    match consume_char(line) {
        Some(c) => {
            if c != '"' {
                return Err(ParseError::ExpectedString(text_of(*line)));
            }
        },
        None => return Err(ParseError::ExpectedString(text_of(*line))),
    }
    let ghost b = line@;
    let mut out: Vec<char> = Vec::new();
    let mut i: usize = 0;
    assert(b.skip(0) =~= b);
    while i < line.len()
        invariant
            0 <= i <= line@.len(),
            line@ == b,
            b == old(line)@.skip(1),
            old(line)@.len() > 0 && old(line)@[0] == '"',
            literal_body(b) == after_prefix(literal_body(b.skip(i as int)), out@, i as int),
        decreases line@.len() - i,
    {
        let c = line[i];
        let ghost t = b.skip(i as int);
        assert(t[0] == c);
        if c == '"' {
            let text = chars_to_string(&out);
            *line = vstd::slice::slice_subrange(*line, i + 1, line.len());
            assert(line@ =~= b.skip(i + 1));
            assert(out@ + Seq::<char>::empty() =~= out@);
            return Ok(text);
        } else if c == '\\' {
            if i + 1 >= line.len() {
                return Err(ParseError::UnexpectedEOL("string literal"));
            }
            let e = line[i + 1];
            assert(t[1] == e);
            let unescaped = match e {
                'n' => '\n',
                'r' => '\r',
                't' => '\t',
                '\\' => '\\',
                '"' => '"',
                _ => return Err(ParseError::InvalidEscapeCharacter(e)),
            };
            proof {
                assert(t.skip(2) =~= b.skip(i + 2));
                assert(literal_body(t) == after_prefix(literal_body(t.skip(2)), seq![unescaped], 2));
                lemma_after_prefix(literal_body(b.skip(i + 2)), out@, unescaped, i as int, 2);
            }
            out.push(unescaped);
            i = i + 2;
        } else {
            proof {
                assert(t.skip(1) =~= b.skip(i + 1));
                assert(literal_body(t) == after_prefix(literal_body(t.skip(1)), seq![c], 1));
                lemma_after_prefix(literal_body(b.skip(i + 1)), out@, c, i as int, 1);
            }
            out.push(c);
            i = i + 1;
        }
    }
    Err(ParseError::UnexpectedEOL("string literal"))
}

/// The names of the functions, as far as they resolve.
pub open spec fn function_names(strings: GMStrings, functions: GMFunctions) -> Seq<Option<Seq<char>>> {
    functions.functions@.map_values(|f: GMFunction| string_of(strings, f.name))
}

/// Reads a function name off the line and finds the first function with that name.
pub fn parse_function(line: &mut &[char], gm_strings: &GMStrings, gm_functions: &GMFunctions) -> (r: Result<GMRef<GMFunction>, ParseError>)
    requires
        gm_functions.functions@.len() <= u32::MAX,
    ensures
        ({
            let s = old(line)@;
            let k = ident_run(s) as int;
            let ident_ok = !(s.len() > 0 && is_ascii_digit(s[0])) && !(k == 0 && s.len() > 0);
            &&& !ident_ok ==> r is Err
            &&& ident_ok ==> match first_named(function_names(*gm_strings, *gm_functions), s.take(k)) {
                Ok(Some(i)) => r == Ok::<GMRef<GMFunction>, ParseError>(gm_ref(i as u32)) && final(line)@ == s.skip(k),
                Ok(None) => r matches Err(ParseError::FuncUnresolvable(n)) && n@ == s.take(k),
                Err(j) => r matches Err(ParseError::StringIndexUnresolvable(_)),
            }
        }),
{
    let ident = parse_identifier(line)?;
    let ghost names = function_names(*gm_strings, *gm_functions);
    let mut i: usize = 0;
    while i < gm_functions.functions.len()
        invariant
            0 <= i <= gm_functions.functions@.len() <= u32::MAX,
            names == function_names(*gm_strings, *gm_functions),
            first_named(names.take(i as int), ident@) == Ok::<Option<int>, int>(None),
            ident@ == old(line)@.take(ident_run(old(line)@) as int),
            line@ == old(line)@.skip(ident_run(old(line)@) as int),
            !(old(line)@.len() > 0 && is_ascii_digit(old(line)@[0])),
            !(ident_run(old(line)@) == 0 && old(line)@.len() > 0),
        decreases gm_functions.functions@.len() - i,
    {
        proof {
            assert(names.take(i + 1).drop_last() =~= names.take(i as int));
        }
        let name_ref = gm_functions.functions[i].name;
        let func_name = match name_ref.resolve(&gm_strings.strings) {
            Ok(n) => n,
            Err(_) => {
                proof {
                    lemma_first_named_prefix(names, ident@, i + 1);
                }
                return Err(ParseError::StringIndexUnresolvable(name_ref.index));
            },
        };
        if func_name.eq(&ident) {
            proof {
                lemma_first_named_prefix(names, ident@, i + 1);
            }
            return Ok(GMRef::new(i as u32));
        }
        i = i + 1;
    }
    assert(names.take(i as int) =~= names);
    Err(ParseError::FuncUnresolvable(ident))
}

/// Whether two instance types are the same.
pub fn instance_type_eq(a: &GMInstanceType, b: &GMInstanceType) -> (r: bool)
    ensures
        r == (*a == *b),
{
    match (a, b) {
        (GMInstanceType::Undefined, GMInstanceType::Undefined) => true,
        (GMInstanceType::Self_(None), GMInstanceType::Self_(None)) => true,
        (GMInstanceType::Self_(Some(x)), GMInstanceType::Self_(Some(y))) => {
            proof {
                crate::refs::lemma_gm_ref_eq(*x, *y);
            }
            x.index == y.index
        },
        (GMInstanceType::RoomInstance(x), GMInstanceType::RoomInstance(y)) => *x == *y,
        (GMInstanceType::Other, GMInstanceType::Other) => true,
        (GMInstanceType::All, GMInstanceType::All) => true,
        (GMInstanceType::Noone, GMInstanceType::Noone) => true,
        (GMInstanceType::Global, GMInstanceType::Global) => true,
        (GMInstanceType::Builtin, GMInstanceType::Builtin) => true,
        (GMInstanceType::Local, GMInstanceType::Local) => true,
        (GMInstanceType::StackTop, GMInstanceType::StackTop) => true,
        (GMInstanceType::Argument, GMInstanceType::Argument) => true,
        (GMInstanceType::Static, GMInstanceType::Static) => true,
        _ => false,
    }
}

/// The instance type that variables record for a variable accessed with `it`.
pub open spec fn vari_instance_type(it: GMInstanceType) -> GMInstanceType {
    match it {
        GMInstanceType::Self_(Some(_)) => GMInstanceType::Self_(None),
        GMInstanceType::Other => GMInstanceType::Self_(None),
        GMInstanceType::Argument => GMInstanceType::Builtin,
        GMInstanceType::Builtin => GMInstanceType::Self_(None),
        GMInstanceType::StackTop => GMInstanceType::Self_(None),
        _ => it,
    }
}

fn vari_instance_type_exec(it: &GMInstanceType) -> (r: GMInstanceType)
    ensures
        r == vari_instance_type(*it),
{
    match it {
        GMInstanceType::Self_(Some(_)) => GMInstanceType::Self_(None),
        GMInstanceType::Other => GMInstanceType::Self_(None),
        GMInstanceType::Argument => GMInstanceType::Builtin,
        GMInstanceType::Builtin => GMInstanceType::Self_(None),
        GMInstanceType::StackTop => GMInstanceType::Self_(None),
        _ => it.clone(),
    }
}

/// A variable matches a name and recorded instance type: the same name, and the same
/// instance type when it has bytecode 15 data.
pub open spec fn variable_matches(v: GMVariable, n: Seq<char>, name: Seq<char>, vit: GMInstanceType) -> bool {
    n == name && match v.b15_data {
        Some(b) => b.instance_type == vit,
        None => true,
    }
}

/// The first variable matching `name` and `vit`, provided every variable before it has a
/// resolving name; `Err(j)` when variable `j`'s name does not resolve first.
pub open spec fn first_variable(vars: Seq<GMVariable>, strings: GMStrings, name: Seq<char>, vit: GMInstanceType) -> Result<Option<int>, int>
    decreases vars.len(),
{
    if vars.len() == 0 {
        Ok(None)
    } else {
        match first_variable(vars.drop_last(), strings, name, vit) {
            Ok(None) => match string_of(strings, vars.last().name) {
                None => Err(vars.len() - 1),
                Some(n) => if variable_matches(vars.last(), n, name, vit) {
                    Ok(Some(vars.len() - 1))
                } else {
                    Ok(None)
                },
            },
            other => other,
        }
    }
}

proof fn lemma_first_variable_prefix(vars: Seq<GMVariable>, strings: GMStrings, name: Seq<char>, vit: GMInstanceType, n: int)
    requires
        0 <= n <= vars.len(),
        first_variable(vars.take(n), strings, name, vit) != Ok::<Option<int>, int>(None),
    ensures
        first_variable(vars, strings, name, vit) == first_variable(vars.take(n), strings, name, vit),
    decreases vars.len() - n,
{
    if n < vars.len() {
        assert(vars.take(n + 1).drop_last() =~= vars.take(n));
        lemma_first_variable_prefix(vars, strings, name, vit, n + 1);
    } else {
        assert(vars.take(n) =~= vars);
    }
}

/// Finds the first variable matching `name` and `vit`.
fn find_variable(gm_data: &GMData, name: &String, vit: &GMInstanceType) -> (r: Result<Option<u32>, ParseError>)
    requires
        gm_data.variables.variables@.len() <= u32::MAX,
    ensures
        match first_variable(gm_data.variables.variables@, gm_data.strings, name@, *vit) {
            Ok(Some(i)) => r == Ok::<Option<u32>, ParseError>(Some(i as u32)),
            Ok(None) => r == Ok::<Option<u32>, ParseError>(None),
            Err(_) => r matches Err(ParseError::StringIndexUnresolvable(_)),
        },
{
    let ghost vars = gm_data.variables.variables@;
    let mut i: usize = 0;
    while i < gm_data.variables.variables.len()
        invariant
            0 <= i <= vars.len() <= u32::MAX,
            vars == gm_data.variables.variables@,
            first_variable(vars.take(i as int), gm_data.strings, name@, *vit) == Ok::<Option<int>, int>(None),
        decreases vars.len() - i,
    {
        proof {
            assert(vars.take(i + 1).drop_last() =~= vars.take(i as int));
        }
        let var = &gm_data.variables.variables[i];
        let var_name = match var.name.resolve(&gm_data.strings.strings) {
            Ok(n) => n,
            Err(_) => {
                proof {
                    lemma_first_variable_prefix(vars, gm_data.strings, name@, *vit, i + 1);
                }
                return Err(ParseError::StringIndexUnresolvable(var.name.index));
            },
        };
        let mut matches = var_name.eq(name);
        if matches {
            match &var.b15_data {
                Some(b15) => {
                    if !instance_type_eq(&b15.instance_type, vit) {
                        matches = false;
                    }
                },
                None => {},
            }
        }
        if matches {
            proof {
                lemma_first_variable_prefix(vars, gm_data.strings, name@, *vit, i + 1);
            }
            return Ok(Some(i as u32));
        }
        i = i + 1;
    }
    assert(vars.take(i as int) =~= vars);
    Ok(None)
}

/// The value of a decimal `u32` text with an optional leading `+`.
pub open spec fn u32_text_value(s: Seq<char>) -> Option<u32> {
    let t = if s.len() > 0 && s[0] == '+' { s.skip(1) } else { s };
    if t.len() == 0 || !all_digits(t) {
        None
    } else if digits_value(t) > u32::MAX {
        None
    } else {
        Some(digits_value(t) as u32)
    }
}

/// Every character is a decimal digit.
pub open spec fn all_digits(t: Seq<char>) -> bool {
    forall|j: int| 0 <= j < t.len() ==> is_ascii_digit(#[trigger] t[j])
}

/// Parses a whole text as a `u32`.
#[verifier::spinoff_prover]
#[verifier::rlimit(40)]
fn parse_u32_text(s: &String) -> (r: Option<u32>)
    ensures
        r == u32_text_value(s@),
{
    let chars = str_to_chars(s.as_str());
    let start: usize = if chars.len() > 0 && chars[0] == '+' { 1 } else { 0 };
    let ghost t = if chars@.len() > 0 && chars@[0] == '+' { chars@.skip(1) } else { chars@ };
    if start >= chars.len() {
        return None;
    }
    let mut acc: u64 = 0;
    let mut i: usize = start;
    assert(chars@.skip(0) =~= chars@);
    assert(t.take(0) =~= Seq::<char>::empty());
    while i < chars.len()
        invariant
            start <= i <= chars@.len(),
            start == (if chars@.len() > 0 && chars@[0] == '+' { 1usize } else { 0usize }),
            t == chars@.skip(start as int),
            t == (if chars@.len() > 0 && chars@[0] == '+' { chars@.skip(1) } else { chars@ }),
            chars@ == s@,
            forall|j: int| 0 <= j < i - start ==> is_ascii_digit(#[trigger] t[j]),
            acc == digits_value(t.take(i - start)),
            acc <= u32::MAX,
        decreases chars@.len() - i,
    {
        let c = chars[i];
        assert(t[i - start] == c);
        if !('0' <= c && c <= '9') {
            assert(!is_ascii_digit(t[i - start]));
            assert(!all_digits(t));
            return None;
        }
        proof {
            assert(t.take(i - start + 1) =~= t.take(i - start).push(c));
            lemma_digits_grow(t.take(i - start), c);
        }
        acc = acc * 10 + (c as u32 - '0' as u32) as u64;
        i = i + 1;
        if acc > u32::MAX as u64 {
            proof {
                if all_digits(t) {
                    lemma_digits_prefix_bound(t, i - start);
                }
            }
            return None;
        }
    }
    assert(t.take(i - start) =~= t);
    assert(all_digits(t));
    Some(acc as u32)
}

/// A value of digits is at least that of any prefix of them.
proof fn lemma_digits_prefix_bound(t: Seq<char>, n: int)
    requires
        0 <= n <= t.len(),
        forall|j: int| 0 <= j < t.len() ==> is_ascii_digit(#[trigger] t[j]),
    ensures
        digits_value(t) >= digits_value(t.take(n)),
        digits_value(t.take(n)) >= 0,
    decreases t.len() - n,
{
    lemma_digits_nonneg(t.take(n));
    if n < t.len() {
        assert(t.take(n + 1) =~= t.take(n).push(t[n]));
        lemma_digits_grow(t.take(n), t[n]);
        lemma_digits_prefix_bound(t, n + 1);
    } else {
        assert(t.take(n) =~= t);
    }
}

proof fn lemma_digits_nonneg(t: Seq<char>)
    requires
        forall|j: int| 0 <= j < t.len() ==> is_ascii_digit(#[trigger] t[j]),
    ensures
        digits_value(t) >= 0,
    decreases t.len(),
{
    if t.len() > 0 {
        let d = t.drop_last();
        assert forall|j: int| 0 <= j < d.len() implies is_ascii_digit(#[trigger] d[j]) by {
            assert(d[j] == t[j]);
        }
        lemma_digits_nonneg(d);
        assert(is_ascii_digit(t[t.len() - 1]));
    }
}

/// An optional variable type in square brackets; normal when there is none.
pub open spec fn variable_type_prefix(s: Seq<char>) -> Option<(GMVariableType, Seq<char>)> {
    match bracketed(s, '[', ']') {
        None => None,
        Some(None) => Some((GMVariableType::Normal, s)),
        Some(Some((inside, rest))) => match variable_type_of_text(inside) {
            Some(vt) => Some((vt, rest)),
            None => None,
        },
    }
}

/// An identifier at the start of `s` (see `parse_identifier`), and the rest.
pub open spec fn identifier_prefix(s: Seq<char>) -> Option<(Seq<char>, Seq<char>)> {
    let k = ident_run(s) as int;
    if (s.len() > 0 && is_ascii_digit(s[0])) || (k == 0 && s.len() > 0) {
        None
    } else {
        Some((s.take(k), s.skip(k)))
    }
}

/// An optional argument in angle brackets; empty when there is none.
pub open spec fn angle_argument(s: Seq<char>) -> Option<(Seq<char>, Seq<char>)> {
    match bracketed(s, '<', '>') {
        None => None,
        Some(None) => Some((Seq::empty(), s)),
        Some(Some(p)) => Some(p),
    }
}

/// The instance type named `raw` with argument `arg`, and the variable index a local names.
pub open spec fn instance_of_text(d: GMData, raw: Seq<char>, arg: Seq<char>) -> Option<(GMInstanceType, Option<u32>)> {
    if raw == "self"@ {
        if arg.len() == 0 {
            Some((GMInstanceType::Self_(None), None))
        } else {
            match first_named(object_names(d.strings, d.game_objects.game_objects@), arg) {
                Ok(Some(o)) => Some((GMInstanceType::Self_(Some(gm_ref(o as u32))), None)),
                _ => None,
            }
        }
    } else if raw == "local"@ {
        match u32_text_value(arg) {
            Some(n) => Some((GMInstanceType::Local, Some(n))),
            None => None,
        }
    } else if raw == "other"@ { Some((GMInstanceType::Other, None)) }
    else if raw == "all"@ { Some((GMInstanceType::All, None)) }
    else if raw == "none"@ { Some((GMInstanceType::Noone, None)) }
    else if raw == "global"@ { Some((GMInstanceType::Global, None)) }
    else if raw == "builtin"@ { Some((GMInstanceType::Builtin, None)) }
    else if raw == "stacktop"@ { Some((GMInstanceType::StackTop, None)) }
    else if raw == "arg"@ { Some((GMInstanceType::Argument, None)) }
    else if raw == "static"@ { Some((GMInstanceType::Static, None)) }
    else { None }
}

/// The variable reference at the start of `s`: `[type]instance<arg>.name`, and the rest.
/// A local names its variable by index; any other is looked up by name and instance type.
/// A variable type other than normal drops the instance type.
pub open spec fn variable_of_text(d: GMData, s: Seq<char>) -> Option<(CodeVariable, Seq<char>)> {
    match variable_type_prefix(s) {
        None => None,
        Some((vt, s1)) => match identifier_prefix(s1) {
            None => None,
            Some((raw, s2)) => match angle_argument(s2) {
                None => None,
                Some((arg, s3)) => if !(s3.len() > 0 && s3[0] == '.') {
                    None
                } else {
                    match instance_of_text(d, raw, arg) {
                        None => None,
                        Some((it, local)) => match identifier_prefix(s3.skip(1)) {
                            None => None,
                            Some((name, rest)) => {
                                let found = if it == GMInstanceType::Local {
                                    local
                                } else {
                                    match first_variable(d.variables.variables@, d.strings, name, vari_instance_type(it)) {
                                        Ok(Some(i)) => Some(i as u32),
                                        _ => None,
                                    }
                                };
                                match found {
                                    None => None,
                                    Some(v) => Some((
                                        CodeVariable {
                                            variable: gm_ref(v),
                                            variable_type: vt,
                                            instance_type: if vt != GMVariableType::Normal { GMInstanceType::Undefined } else { it },
                                            is_int32: false,
                                        },
                                        rest,
                                    )),
                                }
                            },
                        },
                    }
                },
            },
        },
    }
}

fn instance_from_text(gm_data: &GMData, raw: &String, arg: &String) -> (r: Result<(GMInstanceType, Option<u32>), ParseError>)
    requires
        gm_data.game_objects.game_objects@.len() <= u32::MAX,
    ensures
        match instance_of_text(*gm_data, raw@, arg@) {
            Some(x) => r == Ok::<(GMInstanceType, Option<u32>), ParseError>(x),
            None => r is Err,
        },
{
    if text_is(raw, "self") {
        if arg.as_str().is_empty() {
            return Ok((GMInstanceType::Self_(None), None));
        }
        match gm_data.game_objects.get_object_ref_by_name(arg.as_str(), &gm_data.strings) {
            Ok(o) => Ok((GMInstanceType::Self_(Some(o)), None)),
            Err(e) => Err(ParseError::ObjectUnresolvable(e)),
        }
    } else if text_is(raw, "local") {
        match parse_u32_text(arg) {
            Some(n) => Ok((GMInstanceType::Local, Some(n))),
            None => Err(ParseError::VarLocalInvalidIndex(arg.clone())),
        }
    } else if text_is(raw, "other") { Ok((GMInstanceType::Other, None)) }
    else if text_is(raw, "all") { Ok((GMInstanceType::All, None)) }
    else if text_is(raw, "none") { Ok((GMInstanceType::Noone, None)) }
    else if text_is(raw, "global") { Ok((GMInstanceType::Global, None)) }
    else if text_is(raw, "builtin") { Ok((GMInstanceType::Builtin, None)) }
    else if text_is(raw, "stacktop") { Ok((GMInstanceType::StackTop, None)) }
    else if text_is(raw, "arg") { Ok((GMInstanceType::Argument, None)) }
    else if text_is(raw, "static") { Ok((GMInstanceType::Static, None)) }
    else { Err(ParseError::InvalidInstanceType(raw.clone())) }
}

/// Reads a variable reference off the start of the line.
pub fn parse_variable(line: &mut &[char], gm_data: &GMData) -> (r: Result<CodeVariable, ParseError>)
    requires
        gm_data.game_objects.game_objects@.len() <= u32::MAX,
        gm_data.variables.variables@.len() <= u32::MAX,
    ensures
        match variable_of_text(*gm_data, old(line)@) {
            Some((cv, rest)) => r == Ok::<CodeVariable, ParseError>(cv) && final(line)@ == rest,
            None => r is Err,
        },
{
    let mut variable_type = GMVariableType::Normal;
    if let Some(variable_type_str) = consume_square_brackets(line)? {
        variable_type = variable_type_from_string(&variable_type_str)?;
    }
    let instance_type_raw = parse_identifier(line)?;
    let instance_type_arg = match consume_angle_brackets(line)? {
        Some(a) => a,
        None => String::new(),
    };
    consume_dot(line)?;
    let (instance_type, local) = instance_from_text(gm_data, &instance_type_raw, &instance_type_arg)?;
    let name = parse_identifier(line)?;
    let is_local = match instance_type {
        GMInstanceType::Local => true,
        _ => false,
    };
    let found: Option<u32> = if is_local {
        local
    } else {
        let vit = vari_instance_type_exec(&instance_type);
        find_variable(gm_data, &name, &vit)?
    };
    let variable = match found {
        Some(v) => GMRef::new(v),
        None => return Err(ParseError::VarUnresolvable(name)),
    };
    let instance_type = match variable_type {
        GMVariableType::Normal => instance_type,
        _ => GMInstanceType::Undefined,
    };
    Ok(CodeVariable { variable, variable_type, instance_type, is_int32: false })
}

/// The integer at the start of `s` if it lies within `min..=max`, and the rest.
pub open spec fn int_of_text(s: Seq<char>, min: int, max: int) -> Option<(int, Seq<char>)> {
    let n = int_prefix_len(s) as int;
    let v = int_prefix_value(s, n);
    if n == 0 || (n == 1 && s[0] == '-') || v < min || v > max {
        None
    } else {
        Some((v, s.skip(n)))
    }
}

/// `true` or `false` at the start of `s`, and the rest.
pub open spec fn bool_of_text(s: Seq<char>) -> Option<(bool, Seq<char>)> {
    match identifier_prefix(s) {
        Some((id, rest)) => if id == "true"@ {
            Some((true, rest))
        } else if id == "false"@ {
            Some((false, rest))
        } else {
            None
        },
        None => None,
    }
}

/// The string literal at the start of `s` (its characters, escapes resolved), and the rest.
pub open spec fn literal_of_text(s: Seq<char>) -> Option<(Seq<char>, Seq<char>)> {
    if s.len() == 0 || s[0] != '"' {
        None
    } else {
        match literal_body(s.skip(1)) {
            Ok((t, k)) => Some((t, s.skip(1).skip(k + 1))),
            Err(_) => None,
        }
    }
}

/// The function named at the start of `s`, and the rest.
pub open spec fn function_of_text(d: GMData, s: Seq<char>) -> Option<(GMRef<GMFunction>, Seq<char>)> {
    match identifier_prefix(s) {
        Some((name, rest)) => match first_named(function_names(d.strings, d.functions), name) {
            Ok(Some(i)) => Some((gm_ref(i as u32), rest)),
            _ => None,
        },
        None => None,
    }
}

/// `(text)` is a double: `parse_double` may answer `result` for it.
pub open spec fn double_parsed<F: Fn(&str) -> Option<u64>>(parse_double: F, text: Seq<char>, result: Option<u64>) -> bool {
    exists|s: &str| s@ == text && parse_double.ensures((s,), result)
}

/// The value a push of type `t` takes from the start of `s`, and the rest; a double takes
/// the whole of `s`, read as `double`; a string is looked up in (or added to) the strings.
pub open spec fn push_value_of_text(d: GMData, t: GMDataType, s: Seq<char>, double: Option<u64>) -> Option<(GMCodeValue, Seq<char>)> {
    match t {
        GMDataType::Int16 => match int_of_text(s, i16::MIN as int, i16::MAX as int) {
            Some((v, rest)) => Some((GMCodeValue::Int16(v as i16), rest)),
            None => None,
        },
        GMDataType::Int32 => match bracketed(s, '(', ')') {
            None => None,
            Some(Some((cast, rest))) => if cast == "function"@ {
                match function_of_text(d, rest) {
                    Some((f, r2)) => Some((GMCodeValue::Function(f), r2)),
                    None => None,
                }
            } else if cast == "variable"@ {
                match variable_of_text(d, rest) {
                    Some((cv, r2)) => Some((GMCodeValue::Variable(CodeVariable { is_int32: true, ..cv }), r2)),
                    None => None,
                }
            } else {
                None
            },
            Some(None) => match int_of_text(s, i32::MIN as int, i32::MAX as int) {
                Some((v, rest)) => Some((GMCodeValue::Int32(v as i32), rest)),
                None => None,
            },
        },
        GMDataType::Int64 => match int_of_text(s, i64::MIN as int, i64::MAX as int) {
            Some((v, rest)) => Some((GMCodeValue::Int64(v as i64), rest)),
            None => None,
        },
        GMDataType::Double => match double {
            Some(b) => Some((GMCodeValue::Double(b), Seq::empty())),
            None => None,
        },
        GMDataType::Boolean => match bool_of_text(s) {
            Some((b, rest)) => Some((GMCodeValue::Boolean(b), rest)),
            None => None,
        },
        GMDataType::String => match literal_of_text(s) {
            Some((lit, rest)) => Some((GMCodeValue::String(gm_ref(spec_make(d.strings.table(), lit).1 as u32)), rest)),
            None => None,
        },
        GMDataType::Variable => match variable_of_text(d, s) {
            Some((cv, rest)) => Some((GMCodeValue::Variable(cv), rest)),
            None => None,
        },
    }
}

/// Reads the value of a push instruction of type `data_type` off the start of the line.
fn parse_push_value<F: Fn(&str) -> Option<u64>>(
    data_type: GMDataType,
    line: &mut &[char],
    gm_data: &mut GMData,
    parse_double: &F,
) -> (r: Result<GMCodeValue, ParseError>)
    requires
        old(gm_data).game_objects.game_objects@.len() <= u32::MAX,
        old(gm_data).variables.variables@.len() <= u32::MAX,
        old(gm_data).functions.functions@.len() <= u32::MAX,
        old(gm_data).strings.strings@.len() < u32::MAX,
        forall|s: &str| parse_double.requires((s,)),
    ensures
        exists|dbl: Option<u64>|
            #![trigger push_value_of_text(*old(gm_data), data_type, old(line)@, dbl)]
            #![trigger double_parsed(*parse_double, old(line)@, dbl)]
        {
            &&& (data_type == GMDataType::Double ==> double_parsed(*parse_double, old(line)@, dbl))
            &&& match push_value_of_text(*old(gm_data), data_type, old(line)@, dbl) {
                Some((v, rest)) => r == Ok::<GMCodeValue, ParseError>(v) && final(line)@ == rest,
                None => r is Err,
            }
        },
        final(gm_data).strings.table() == (match (data_type, literal_of_text(old(line)@)) {
            (GMDataType::String, Some((lit, _))) => spec_make(old(gm_data).strings.table(), lit).0,
            _ => old(gm_data).strings.table(),
        }),
        final(gm_data).strings.is_aligned == old(gm_data).strings.is_aligned,
        final(gm_data).strings.exists == old(gm_data).strings.exists,
        final(gm_data).variables == old(gm_data).variables,
        final(gm_data).functions == old(gm_data).functions,
        final(gm_data).game_objects == old(gm_data).game_objects,
        final(gm_data).codes == old(gm_data).codes,
        final(gm_data).bytecode_version == old(gm_data).bytecode_version,
        final(gm_data).gm_version == old(gm_data).gm_version,
        final(gm_data).other == old(gm_data).other,
{
    match data_type {
        GMDataType::Int16 => {
            let v = match parse_int(line, i16::MIN as i64, i16::MAX as i64) {
                Ok(v) => v,
                Err(e) => {
                    assert(push_value_of_text(*old(gm_data), data_type, old(line)@, None) is None);
                    return Err(e);
                },
            };
            assert(push_value_of_text(*old(gm_data), data_type, old(line)@, None) is Some);
            Ok(GMCodeValue::Int16(v as i16))
        },
        GMDataType::Int32 => {
            let cast = match consume_round_brackets(line) {
                Ok(c) => c,
                Err(e) => {
                    assert(push_value_of_text(*old(gm_data), data_type, old(line)@, None) is None);
                    return Err(e);
                },
            };
            match cast {
                Some(type_cast) => {
                    if text_is(&type_cast, "function") {
                        let f = parse_function(line, &gm_data.strings, &gm_data.functions)?;
                        assert(push_value_of_text(*old(gm_data), data_type, old(line)@, None) is Some);
                        Ok(GMCodeValue::Function(f))
                    } else if text_is(&type_cast, "variable") {
                        let mut variable = parse_variable(line, gm_data)?;
                        variable.is_int32 = true;
                        assert(push_value_of_text(*old(gm_data), data_type, old(line)@, None) is Some);
                        Ok(GMCodeValue::Variable(variable))
                    } else {
                        Err(ParseError::InvalidTypeCast(type_cast))
                    }
                },
                None => {
                    let v = match parse_int(line, i32::MIN as i64, i32::MAX as i64) {
                        Ok(v) => v,
                        Err(e) => {
                            assert(push_value_of_text(*old(gm_data), data_type, old(line)@, None) is None);
                            return Err(e);
                        },
                    };
                    assert(push_value_of_text(*old(gm_data), data_type, old(line)@, None) is Some);
                    Ok(GMCodeValue::Int32(v as i32))
                },
            }
        },
        GMDataType::Int64 => {
            let v = parse_int(line, i64::MIN, i64::MAX)?;
            assert(push_value_of_text(*old(gm_data), data_type, old(line)@, None) is Some);
            Ok(GMCodeValue::Int64(v))
        },
        GMDataType::Double => {
            let text = text_of(*line);
            let parsed = parse_double(text.as_str());
            assert(double_parsed(*parse_double, old(line)@, parsed));
            match parsed {
                Some(bits) => {
                    *line = vstd::slice::slice_subrange(*line, line.len(), line.len());
                    assert(line@ =~= Seq::<char>::empty());
                    Ok(GMCodeValue::Double(bits))
                },
                None => Err(ParseError::InvalidFloat(text)),
            }
        },
        GMDataType::Boolean => {
            let b = parse_bool(line)?;
            assert(push_value_of_text(*old(gm_data), data_type, old(line)@, None) is Some);
            Ok(GMCodeValue::Boolean(b))
        },
        GMDataType::String => {
            let string_text = parse_string_literal(line)?;
            let string_ref = gm_data.strings.make(string_text.as_str());
            assert(push_value_of_text(*old(gm_data), data_type, old(line)@, None) is Some);
            Ok(GMCodeValue::String(string_ref))
        },
        GMDataType::Variable => {
            let v = parse_variable(line, gm_data)?;
            assert(push_value_of_text(*old(gm_data), data_type, old(line)@, None) is Some);
            Ok(GMCodeValue::Variable(v))
        },
    }
}

/// The mnemonics of the assembly language.
#[derive(Clone, Copy, Debug, PartialEq, Eq, Structural)]
pub enum Mnemonic {
    Conv,
    Mul,
    Div,
    Rem,
    Mod,
    Add,
    Sub,
    And,
    Or,
    Xor,
    Shl,
    Shr,
    Neg,
    Not,
    Ret,
    Popz,
    Cmp,
    Pop,
    PopSwap,
    Dup,
    DupSwap,
    Exit,
    Jmp,
    Jt,
    Jf,
    PushEnv,
    PopEnv,
    Push,
    PushLoc,
    PushGlb,
    PushBltn,
    PushIm,
    Call,
    CallVar,
    /// An extended instruction, by kind.
    Extended(i16),
}

/// The mnemonic `m` names.
pub open spec fn mnemonic_of_text(m: Seq<char>) -> Option<Mnemonic> {
    if m == "conv"@ { Some(Mnemonic::Conv) }
    else if m == "mul"@ { Some(Mnemonic::Mul) }
    else if m == "div"@ { Some(Mnemonic::Div) }
    else if m == "rem"@ { Some(Mnemonic::Rem) }
    else if m == "mod"@ { Some(Mnemonic::Mod) }
    else if m == "add"@ { Some(Mnemonic::Add) }
    else if m == "sub"@ { Some(Mnemonic::Sub) }
    else if m == "and"@ { Some(Mnemonic::And) }
    else if m == "or"@ { Some(Mnemonic::Or) }
    else if m == "xor"@ { Some(Mnemonic::Xor) }
    else if m == "neg"@ { Some(Mnemonic::Neg) }
    else if m == "not"@ { Some(Mnemonic::Not) }
    else if m == "shl"@ { Some(Mnemonic::Shl) }
    else if m == "shr"@ { Some(Mnemonic::Shr) }
    else if m == "cmp"@ { Some(Mnemonic::Cmp) }
    else if m == "pop"@ { Some(Mnemonic::Pop) }
    else if m == "popswap"@ { Some(Mnemonic::PopSwap) }
    else if m == "dup"@ { Some(Mnemonic::Dup) }
    else if m == "dupswap"@ { Some(Mnemonic::DupSwap) }
    else if m == "ret"@ { Some(Mnemonic::Ret) }
    else if m == "exit"@ { Some(Mnemonic::Exit) }
    else if m == "popz"@ { Some(Mnemonic::Popz) }
    else if m == "jmp"@ { Some(Mnemonic::Jmp) }
    else if m == "jt"@ { Some(Mnemonic::Jt) }
    else if m == "jf"@ { Some(Mnemonic::Jf) }
    else if m == "pushenv"@ { Some(Mnemonic::PushEnv) }
    else if m == "popenv"@ { Some(Mnemonic::PopEnv) }
    else if m == "push"@ { Some(Mnemonic::Push) }
    else if m == "pushloc"@ { Some(Mnemonic::PushLoc) }
    else if m == "pushglb"@ { Some(Mnemonic::PushGlb) }
    else if m == "pushbltn"@ { Some(Mnemonic::PushBltn) }
    else if m == "pushim"@ { Some(Mnemonic::PushIm) }
    else if m == "call"@ { Some(Mnemonic::Call) }
    else if m == "callvar"@ { Some(Mnemonic::CallVar) }
    else {
        match extended_id_of_text(m) {
            Some(k) => Some(Mnemonic::Extended(k)),
            None => None,
        }
    }
}

/// The mnemonic `m` names.
pub fn mnemonic_from_string(m: &String) -> (r: Result<Mnemonic, ParseError>)
    ensures
        match mnemonic_of_text(m@) {
            Some(x) => r == Ok::<Mnemonic, ParseError>(x),
            None => r is Err,
        },
{
    if text_is(m, "conv") { Ok(Mnemonic::Conv) }
    else if text_is(m, "mul") { Ok(Mnemonic::Mul) }
    else if text_is(m, "div") { Ok(Mnemonic::Div) }
    else if text_is(m, "rem") { Ok(Mnemonic::Rem) }
    else if text_is(m, "mod") { Ok(Mnemonic::Mod) }
    else if text_is(m, "add") { Ok(Mnemonic::Add) }
    else if text_is(m, "sub") { Ok(Mnemonic::Sub) }
    else if text_is(m, "and") { Ok(Mnemonic::And) }
    else if text_is(m, "or") { Ok(Mnemonic::Or) }
    else if text_is(m, "xor") { Ok(Mnemonic::Xor) }
    else if text_is(m, "neg") { Ok(Mnemonic::Neg) }
    else if text_is(m, "not") { Ok(Mnemonic::Not) }
    else if text_is(m, "shl") { Ok(Mnemonic::Shl) }
    else if text_is(m, "shr") { Ok(Mnemonic::Shr) }
    else if text_is(m, "cmp") { Ok(Mnemonic::Cmp) }
    else if text_is(m, "pop") { Ok(Mnemonic::Pop) }
    else if text_is(m, "popswap") { Ok(Mnemonic::PopSwap) }
    else if text_is(m, "dup") { Ok(Mnemonic::Dup) }
    else if text_is(m, "dupswap") { Ok(Mnemonic::DupSwap) }
    else if text_is(m, "ret") { Ok(Mnemonic::Ret) }
    else if text_is(m, "exit") { Ok(Mnemonic::Exit) }
    else if text_is(m, "popz") { Ok(Mnemonic::Popz) }
    else if text_is(m, "jmp") { Ok(Mnemonic::Jmp) }
    else if text_is(m, "jt") { Ok(Mnemonic::Jt) }
    else if text_is(m, "jf") { Ok(Mnemonic::Jf) }
    else if text_is(m, "pushenv") { Ok(Mnemonic::PushEnv) }
    else if text_is(m, "popenv") { Ok(Mnemonic::PopEnv) }
    else if text_is(m, "push") { Ok(Mnemonic::Push) }
    else if text_is(m, "pushloc") { Ok(Mnemonic::PushLoc) }
    else if text_is(m, "pushglb") { Ok(Mnemonic::PushGlb) }
    else if text_is(m, "pushbltn") { Ok(Mnemonic::PushBltn) }
    else if text_is(m, "pushim") { Ok(Mnemonic::PushIm) }
    else if text_is(m, "call") { Ok(Mnemonic::Call) }
    else if text_is(m, "callvar") { Ok(Mnemonic::CallVar) }
    else {
        let k = extended_id_from_string(m)?;
        Ok(Mnemonic::Extended(k))
    }
}

/// The instruction with two data types named by `m`.
pub open spec fn double_type_instruction(m: Mnemonic, x: GMDoubleTypeInstruction) -> Option<GMInstruction> {
    match m {
        Mnemonic::Conv => Some(GMInstruction::Convert(x)),
        Mnemonic::Mul => Some(GMInstruction::Multiply(x)),
        Mnemonic::Div => Some(GMInstruction::Divide(x)),
        Mnemonic::Rem => Some(GMInstruction::Remainder(x)),
        Mnemonic::Mod => Some(GMInstruction::Modulus(x)),
        Mnemonic::Add => Some(GMInstruction::Add(x)),
        Mnemonic::Sub => Some(GMInstruction::Subtract(x)),
        Mnemonic::And => Some(GMInstruction::And(x)),
        Mnemonic::Or => Some(GMInstruction::Or(x)),
        Mnemonic::Xor => Some(GMInstruction::Xor(x)),
        Mnemonic::Shl => Some(GMInstruction::ShiftLeft(x)),
        Mnemonic::Shr => Some(GMInstruction::ShiftRight(x)),
        _ => None,
    }
}

/// The instruction with one data type named by `m`.
pub open spec fn single_type_instruction(m: Mnemonic, x: GMSingleTypeInstruction) -> Option<GMInstruction> {
    match m {
        Mnemonic::Neg => Some(GMInstruction::Negate(x)),
        Mnemonic::Not => Some(GMInstruction::Not(x)),
        Mnemonic::Ret => Some(GMInstruction::Return(x)),
        Mnemonic::Popz => Some(GMInstruction::PopDiscard(x)),
        _ => None,
    }
}

/// The jump named by `m`.
pub open spec fn goto_instruction(m: Mnemonic, x: GMGotoInstruction) -> Option<GMInstruction> {
    match m {
        Mnemonic::Jmp => Some(GMInstruction::Branch(x)),
        Mnemonic::Jt => Some(GMInstruction::BranchIf(x)),
        Mnemonic::Jf => Some(GMInstruction::BranchUnless(x)),
        Mnemonic::PushEnv => Some(GMInstruction::PushWithContext(x)),
        Mnemonic::PopEnv => Some(GMInstruction::PopWithContext(x)),
        _ => None,
    }
}

/// The push named by `m`.
pub open spec fn push_instruction(m: Mnemonic, x: GMPushInstruction) -> Option<GMInstruction> {
    match m {
        Mnemonic::Push => Some(GMInstruction::Push(x)),
        Mnemonic::PushLoc => Some(GMInstruction::PushLocal(x)),
        Mnemonic::PushGlb => Some(GMInstruction::PushGlobal(x)),
        Mnemonic::PushBltn => Some(GMInstruction::PushBuiltin(x)),
        _ => None,
    }
}

/// The extended instruction without operand of kind `k`.
pub open spec fn extended16_instruction(k: i16) -> Option<GMInstruction> {
    crate::instructions::spec_extended16(k)
}

/// The asset reference that a `pushref` word stands for.
pub open spec fn asset_of_word(w: u32) -> Option<GMAssetReference> {
    let index = w & 0xFF_FFFF;
    let kind = (w >> 24u32) as u8;
    if kind == 0 { Some(GMAssetReference::Object(gm_ref(index))) }
    else if kind == 1 { Some(GMAssetReference::Sprite(index)) }
    else if kind == 2 { Some(GMAssetReference::Sound(index)) }
    else if kind == 3 { Some(GMAssetReference::Room(index)) }
    else if kind == 4 { Some(GMAssetReference::Background(index)) }
    else if kind == 5 { Some(GMAssetReference::Path(index)) }
    else if kind == 6 { Some(GMAssetReference::Script(index)) }
    else if kind == 7 { Some(GMAssetReference::Font(index)) }
    else if kind == 8 { Some(GMAssetReference::Timeline(index)) }
    else if kind == 9 { Some(GMAssetReference::Shader(index)) }
    else if kind == 10 { Some(GMAssetReference::Sequence(index)) }
    else if kind == 11 { Some(GMAssetReference::AnimCurve(index)) }
    else if kind == 12 { Some(GMAssetReference::ParticleSystem(index)) }
    else if kind == 13 { Some(GMAssetReference::RoomInstance(index as i32)) }
    else { None }
}

/// The count of `argc=N` in round brackets at the start of `s`, and the rest.
pub open spec fn argc_of_text(s: Seq<char>) -> Option<(u16, Seq<char>)> {
    match bracketed(s, '(', ')') {
        Some(Some((inside, rest))) => if inside.len() >= 5 && inside.take(5) == "argc="@ {
            match u32_text_value(inside.skip(5)) {
                Some(n) => if n <= u16::MAX { Some((n as u16, rest)) } else { None },
                None => None,
            }
        } else {
            None
        },
        _ => None,
    }
}

/// The comparison operand of `cmp`, and the rest.
pub open spec fn comparison_of_text(types: Seq<GMDataType>, s: Seq<char>) -> Option<(GMComparisonInstruction, Seq<char>)> {
    if types.len() != 2 { None } else {
        match identifier_prefix(s) {
            Some((c, rest)) => match comparison_type_of_text(c) {
                Some(ct) => Some((GMComparisonInstruction { comparison_type: ct, type1: types[0], type2: types[1] }, rest)),
                None => None,
            },
            None => None,
        }
    }
}

/// The destination operand of `pop`, and the rest.
pub open spec fn pop_of_text(d: GMData, types: Seq<GMDataType>, s: Seq<char>) -> Option<(GMPopInstruction, Seq<char>)> {
    if types.len() != 2 { None } else {
        match variable_of_text(d, s) {
            Some((v, rest)) => Some((GMPopInstruction { type1: types[0], type2: types[1], destination: v }, rest)),
            None => None,
        }
    }
}

/// The two sizes of `dupswap`, and the rest.
pub open spec fn dupswap_of_text(types: Seq<GMDataType>, s: Seq<char>) -> Option<(GMDuplicateSwapInstruction, Seq<char>)> {
    if types.len() != 1 { None } else {
        match int_of_text(s, 0, u8::MAX as int) {
            Some((n1, r1)) => if !(r1.len() > 0 && r1[0] == ' ') { None } else {
                match int_of_text(r1.skip(1), 0, u8::MAX as int) {
                    Some((n2, r2)) => Some((GMDuplicateSwapInstruction { data_type: types[0], size1: n1 as u8, size2: n2 as u8 }, r2)),
                    None => None,
                }
            },
            None => None,
        }
    }
}

/// The operands of `call`: a function and its argument count, and the rest.
pub open spec fn call_of_text(d: GMData, types: Seq<GMDataType>, s: Seq<char>) -> Option<(GMCallInstruction, Seq<char>)> {
    if types.len() != 1 { None } else {
        match function_of_text(d, s) {
            Some((f, r1)) => match argc_of_text(r1) {
                Some((n, r2)) => Some((GMCallInstruction { argument_count: n, function: f }, r2)),
                None => None,
            },
            None => None,
        }
    }
}

/// The operand of `pushref`: a function or an asset word, and the rest.
pub open spec fn push_reference_of_text(d: GMData, s: Seq<char>) -> Option<(GMAssetReference, Seq<char>)> {
    if s.len() >= 10 && s.take(10) == "(function)"@ {
        match function_of_text(d, s.skip(10)) {
            Some((f, rest)) => Some((GMAssetReference::Function(f), rest)),
            None => None,
        }
    } else {
        match int_of_text(s, i32::MIN as int, i32::MAX as int) {
            Some((n, rest)) => match asset_of_word((n as i32) as u32) {
                Some(a) => Some((a, rest)),
                None => None,
            },
            None => None,
        }
    }
}

/// The instruction that mnemonic `m` with data types `types` and operand text `s` stands
/// for, and the text left over; `double` is what the operand of a double push reads as.
pub open spec fn operands_of_text(d: GMData, m: Mnemonic, types: Seq<GMDataType>, s: Seq<char>, double: Option<u64>) -> Option<(GMInstruction, Seq<char>)> {
    match m {
        Mnemonic::Conv | Mnemonic::Mul | Mnemonic::Div | Mnemonic::Rem | Mnemonic::Mod | Mnemonic::Add
        | Mnemonic::Sub | Mnemonic::And | Mnemonic::Or | Mnemonic::Xor | Mnemonic::Shl | Mnemonic::Shr => {
            if types.len() != 2 { None } else {
                Some((double_type_instruction(m, GMDoubleTypeInstruction { right: types[0], left: types[1] }).unwrap(), s))
            }
        },
        Mnemonic::Neg | Mnemonic::Not | Mnemonic::Ret | Mnemonic::Popz => {
            if types.len() != 1 { None } else {
                Some((single_type_instruction(m, GMSingleTypeInstruction { data_type: types[0] }).unwrap(), s))
            }
        },
        Mnemonic::Cmp => match comparison_of_text(types, s) {
            Some((c, rest)) => Some((GMInstruction::Compare(c), rest)),
            None => None,
        },
        Mnemonic::Pop => match pop_of_text(d, types, s) {
            Some((p, rest)) => Some((GMInstruction::Pop(p), rest)),
            None => None,
        },
        Mnemonic::PopSwap => if types.len() != 0 { None } else {
            match int_of_text(s, 0, u8::MAX as int) {
                Some((n, rest)) => Some((GMInstruction::PopSwap(GMPopSwapInstruction { size: n as u8 }), rest)),
                None => None,
            }
        },
        Mnemonic::Dup => if types.len() != 1 { None } else {
            match int_of_text(s, 0, u8::MAX as int) {
                Some((n, rest)) => Some((GMInstruction::Duplicate(GMDuplicateInstruction { data_type: types[0], size: n as u8 }), rest)),
                None => None,
            }
        },
        Mnemonic::DupSwap => match dupswap_of_text(types, s) {
            Some((x, rest)) => Some((GMInstruction::DuplicateSwap(x), rest)),
            None => None,
        },
        Mnemonic::Exit => Some((GMInstruction::Exit(GMEmptyInstruction {}), s)),
        Mnemonic::Jmp | Mnemonic::Jt | Mnemonic::Jf | Mnemonic::PushEnv | Mnemonic::PopEnv => {
            if types.len() != 0 { None } else if m == Mnemonic::PopEnv && s == "<drop>"@ {
                Some((GMInstruction::PopWithContextExit(GMPopenvExitMagicInstruction {}), Seq::empty()))
            } else {
                match int_of_text(s, i32::MIN as int, i32::MAX as int) {
                    Some((n, rest)) => Some((goto_instruction(m, GMGotoInstruction { jump_offset: n as i32 }).unwrap(), rest)),
                    None => None,
                }
            }
        },
        Mnemonic::Push | Mnemonic::PushLoc | Mnemonic::PushGlb | Mnemonic::PushBltn => {
            if types.len() != 1 { None } else {
                match push_value_of_text(d, types[0], s, double) {
                    Some((v, rest)) => Some((push_instruction(m, GMPushInstruction { value: v }).unwrap(), rest)),
                    None => None,
                }
            }
        },
        Mnemonic::PushIm => if types.len() != 1 || types[0] != GMDataType::Int16 { None } else {
            match int_of_text(s, i16::MIN as int, i16::MAX as int) {
                Some((n, rest)) => Some((GMInstruction::PushImmediate(n as i16), rest)),
                None => None,
            }
        },
        Mnemonic::Call => match call_of_text(d, types, s) {
            Some((c, rest)) => Some((GMInstruction::Call(c), rest)),
            None => None,
        },
        Mnemonic::CallVar => if types.len() != 1 { None } else {
            match int_of_text(s, 0, u16::MAX as int) {
                Some((n, rest)) => Some((GMInstruction::CallVariable(GMCallVariableInstruction { data_type: types[0], argument_count: n as u16 }), rest)),
                None => None,
            }
        },
        Mnemonic::Extended(k) => if types.len() != 1 { None } else if k != -11 {
            match extended16_instruction(k) {
                Some(i) => Some((i, s)),
                None => None,
            }
        } else {
            match push_reference_of_text(d, s) {
                Some((a, rest)) => Some((GMInstruction::PushReference(a), rest)),
                None => None,
            }
        },
    }
}

/// Checks that exactly `n` data types were given.
pub fn assert_type_count(types: &Vec<GMDataType>, n: usize) -> (r: Result<(), ParseError>)
    ensures
        r is Ok <==> types@.len() == n,
        r is Err ==> r == Err::<(), ParseError>(ParseError::InvalidTypeCount(n, types@.len() as usize)),
{
    if types.len() != n {
        return Err(ParseError::InvalidTypeCount(n, types.len()));
    }
    Ok(())
}

/// Reads an integer within `min..=max` off the line (see `parse_int`).
fn parse_int_in(line: &mut &[char], min: i64, max: i64) -> (r: Result<i64, ParseError>)
    ensures
        match int_of_text(old(line)@, min as int, max as int) {
            Some((v, rest)) => r == Ok::<i64, ParseError>(v as i64) && final(line)@ == rest,
            None => r is Err,
        },
{
    parse_int(line, min, max)
}

/// The two data types of an arithmetic instruction.
pub fn parse_double_type(types: &Vec<GMDataType>) -> (r: Result<GMDoubleTypeInstruction, ParseError>)
    ensures
        types@.len() == 2 ==> r == Ok::<GMDoubleTypeInstruction, ParseError>(GMDoubleTypeInstruction { right: types@[0], left: types@[1] }),
        types@.len() != 2 ==> r == Err::<GMDoubleTypeInstruction, ParseError>(ParseError::InvalidTypeCount(2, types@.len() as usize)),
{
    assert_type_count(types, 2)?;
    Ok(GMDoubleTypeInstruction { right: types[0], left: types[1] })
}

/// The data type of a single-type instruction.
pub fn parse_single_type(types: &Vec<GMDataType>) -> (r: Result<GMSingleTypeInstruction, ParseError>)
    ensures
        types@.len() == 1 ==> r == Ok::<GMSingleTypeInstruction, ParseError>(GMSingleTypeInstruction { data_type: types@[0] }),
        types@.len() != 1 ==> r == Err::<GMSingleTypeInstruction, ParseError>(ParseError::InvalidTypeCount(1, types@.len() as usize)),
{
    assert_type_count(types, 1)?;
    Ok(GMSingleTypeInstruction { data_type: types[0] })
}

/// The operand of `cmp`: a comparison name.
pub fn parse_comparison(types: &Vec<GMDataType>, line: &mut &[char]) -> (r: Result<GMComparisonInstruction, ParseError>)
    ensures
        match comparison_of_text(types@, old(line)@) {
            Some((c, rest)) => r == Ok::<GMComparisonInstruction, ParseError>(c) && final(line)@ == rest,
            None => r is Err,
        },
{
    assert_type_count(types, 2)?;
    let comparison_type_raw = parse_identifier(line)?;
    let comparison_type = comparison_type_from_string(&comparison_type_raw)?;
    Ok(GMComparisonInstruction { comparison_type, type1: types[0], type2: types[1] })
}

/// The operand of `pop`: the destination variable.
pub fn parse_pop(types: &Vec<GMDataType>, line: &mut &[char], gm_data: &GMData) -> (r: Result<GMPopInstruction, ParseError>)
    requires
        gm_data.game_objects.game_objects@.len() <= u32::MAX,
        gm_data.variables.variables@.len() <= u32::MAX,
    ensures
        match pop_of_text(*gm_data, types@, old(line)@) {
            Some((p, rest)) => r == Ok::<GMPopInstruction, ParseError>(p) && final(line)@ == rest,
            None => r is Err,
        },
{
    assert_type_count(types, 2)?;
    let destination = parse_variable(line, gm_data)?;
    Ok(GMPopInstruction { type1: types[0], type2: types[1], destination })
}

/// The operand of `popswap`: a size.
pub fn parse_pop_swap(types: &Vec<GMDataType>, line: &mut &[char]) -> (r: Result<GMPopSwapInstruction, ParseError>)
    ensures
        types@.len() != 0 ==> r is Err,
        types@.len() == 0 ==> match int_of_text(old(line)@, 0, u8::MAX as int) {
            Some((n, rest)) => r == Ok::<GMPopSwapInstruction, ParseError>(GMPopSwapInstruction { size: n as u8 }) && final(line)@ == rest,
            None => r is Err,
        },
{
    assert_type_count(types, 0)?;
    let size = parse_int_in(line, 0, u8::MAX as i64)?;
    Ok(GMPopSwapInstruction { size: size as u8 })
}

/// The operand of `dup`: a size.
pub fn parse_duplicate(types: &Vec<GMDataType>, line: &mut &[char]) -> (r: Result<GMDuplicateInstruction, ParseError>)
    ensures
        types@.len() != 1 ==> r is Err,
        types@.len() == 1 ==> match int_of_text(old(line)@, 0, u8::MAX as int) {
            Some((n, rest)) => r == Ok::<GMDuplicateInstruction, ParseError>(GMDuplicateInstruction { data_type: types@[0], size: n as u8 }) && final(line)@ == rest,
            None => r is Err,
        },
{
    assert_type_count(types, 1)?;
    let size = parse_int_in(line, 0, u8::MAX as i64)?;
    Ok(GMDuplicateInstruction { data_type: types[0], size: size as u8 })
}

/// The operands of `dupswap`: two sizes.
pub fn parse_duplicate_swap(types: &Vec<GMDataType>, line: &mut &[char]) -> (r: Result<GMDuplicateSwapInstruction, ParseError>)
    ensures
        match dupswap_of_text(types@, old(line)@) {
            Some((p, rest)) => r == Ok::<GMDuplicateSwapInstruction, ParseError>(p) && final(line)@ == rest,
            None => r is Err,
        },
{
    assert_type_count(types, 1)?;
    let size1 = parse_int_in(line, 0, u8::MAX as i64)?;
    consume_space(line)?;
    let size2 = parse_int_in(line, 0, u8::MAX as i64)?;
    Ok(GMDuplicateSwapInstruction { data_type: types[0], size1: size1 as u8, size2: size2 as u8 })
}

/// The operand of a jump: an offset.
pub fn parse_goto(types: &Vec<GMDataType>, line: &mut &[char]) -> (r: Result<GMGotoInstruction, ParseError>)
    ensures
        types@.len() != 0 ==> r is Err,
        types@.len() == 0 ==> match int_of_text(old(line)@, i32::MIN as int, i32::MAX as int) {
            Some((n, rest)) => r == Ok::<GMGotoInstruction, ParseError>(GMGotoInstruction { jump_offset: n as i32 }) && final(line)@ == rest,
            None => r is Err,
        },
{
    assert_type_count(types, 0)?;
    let jump_offset = parse_int_in(line, i32::MIN as i64, i32::MAX as i64)?;
    Ok(GMGotoInstruction { jump_offset: jump_offset as i32 })
}

/// The operand of `callvar`: an argument count.
pub fn parse_call_var(types: &Vec<GMDataType>, line: &mut &[char]) -> (r: Result<GMCallVariableInstruction, ParseError>)
    ensures
        types@.len() != 1 ==> r is Err,
        types@.len() == 1 ==> match int_of_text(old(line)@, 0, u16::MAX as int) {
            Some((n, rest)) => r == Ok::<GMCallVariableInstruction, ParseError>(GMCallVariableInstruction { data_type: types@[0], argument_count: n as u16 }) && final(line)@ == rest,
            None => r is Err,
        },
{
    assert_type_count(types, 1)?;
    let argument_count = parse_int_in(line, 0, u16::MAX as i64)?;
    Ok(GMCallVariableInstruction { data_type: types[0], argument_count: argument_count as u16 })
}

/// The operands of `call`: a function name and `(argc=N)`.
pub fn parse_call(types: &Vec<GMDataType>, line: &mut &[char], gm_data: &GMData) -> (r: Result<GMCallInstruction, ParseError>)
    requires
        gm_data.functions.functions@.len() <= u32::MAX,
    ensures
        match call_of_text(*gm_data, types@, old(line)@) {
            Some((c, rest)) => r == Ok::<GMCallInstruction, ParseError>(c) && final(line)@ == rest,
            None => r is Err,
        },
{
    assert_type_count(types, 1)?;
    let function = parse_function(line, &gm_data.strings, &gm_data.functions)?;
    let argc_str = match consume_round_brackets(line)? {
        Some(a) => a,
        None => return Err(ParseError::ExpectedArgc(text_of(*line))),
    };
    let chars = str_to_chars(argc_str.as_str());
    let prefix = str_to_chars("argc=");
    proof {
        reveal_strlit("argc=");
    }
    if !starts_with(chars.as_slice(), &prefix) {
        return Err(ParseError::ExpectedArgc(argc_str));
    }
    let rest = text_of(vstd::slice::slice_subrange(chars.as_slice(), 5, chars.len()));
    assert(rest@ =~= argc_str@.skip(5));
    let arguments_count = match parse_u32_text(&rest) {
        Some(n) => {
            if n > u16::MAX as u32 {
                return Err(ParseError::IntegerOutOfBounds(rest));
            }
            n as u16
        },
        None => return Err(ParseError::IntegerOutOfBounds(rest)),
    };
    Ok(GMCallInstruction { argument_count: arguments_count, function })
}

/// A Unicode white space character.
pub open spec fn is_whitespace(c: char) -> bool {
    ('\u{9}' <= c && c <= '\u{d}') || c == ' ' || c == '\u{85}' || c == '\u{a0}' || c == '\u{1680}'
        || ('\u{2000}' <= c && c <= '\u{200a}') || c == '\u{2028}' || c == '\u{2029}' || c == '\u{202f}'
        || c == '\u{205f}' || c == '\u{3000}'
}

fn is_whitespace_exec(c: char) -> (r: bool)
    ensures
        r == is_whitespace(c),
{
    ('\u{9}' <= c && c <= '\u{d}') || c == ' ' || c == '\u{85}' || c == '\u{a0}' || c == '\u{1680}'
        || ('\u{2000}' <= c && c <= '\u{200a}') || c == '\u{2028}' || c == '\u{2029}' || c == '\u{202f}'
        || c == '\u{205f}' || c == '\u{3000}'
}

/// `s` without white space at either end.
pub open spec fn trimmed(s: Seq<char>) -> Seq<char> {
    let a = leading_whitespace(s);
    let t = s.skip(a as int);
    t.take(t.len() - trailing_whitespace(t))
}

pub open spec fn leading_whitespace(s: Seq<char>) -> nat
    decreases s.len(),
{
    if s.len() == 0 || !is_whitespace(s[0]) { 0 } else { 1 + leading_whitespace(s.skip(1)) }
}

pub open spec fn trailing_whitespace(s: Seq<char>) -> nat
    decreases s.len(),
{
    if s.len() == 0 || !is_whitespace(s.last()) { 0 } else { 1 + trailing_whitespace(s.drop_last()) }
}

proof fn lemma_leading(s: Seq<char>, k: int)
    requires
        0 <= k <= s.len(),
        forall|j: int| 0 <= j < k ==> is_whitespace(#[trigger] s[j]),
        k == s.len() || !is_whitespace(s[k]),
    ensures
        leading_whitespace(s) == k,
    decreases k,
{
    if k > 0 {
        let t = s.skip(1);
        assert forall|j: int| 0 <= j < k - 1 implies is_whitespace(#[trigger] t[j]) by {
            assert(t[j] == s[j + 1]);
        }
        if k - 1 < t.len() {
            assert(t[k - 1] == s[k]);
        }
        lemma_leading(t, k - 1);
    }
}

proof fn lemma_trailing(s: Seq<char>, k: int)
    requires
        0 <= k <= s.len(),
        forall|j: int| s.len() - k <= j < s.len() ==> is_whitespace(#[trigger] s[j]),
        k == s.len() || !is_whitespace(s[s.len() - k - 1]),
    ensures
        trailing_whitespace(s) == k,
    decreases k,
{
    if k > 0 {
        let t = s.drop_last();
        assert forall|j: int| t.len() - (k - 1) <= j < t.len() implies is_whitespace(#[trigger] t[j]) by {
            assert(t[j] == s[j]);
        }
        if k - 1 < t.len() {
            assert(t[t.len() - (k - 1) - 1] == s[s.len() - k - 1]);
        }
        lemma_trailing(t, k - 1);
    }
}

/// The line without white space at either end.
fn trim<'a>(line: &'a [char]) -> (r: &'a [char])
    ensures
        r@ == trimmed(line@),
{
    let n = line.len();
    let mut a: usize = 0;
    while a < n && is_whitespace_exec(line[a])
        invariant
            0 <= a <= n == line@.len(),
            forall|j: int| 0 <= j < a ==> is_whitespace(#[trigger] line@[j]),
        decreases n - a,
    {
        a = a + 1;
    }
    proof {
        lemma_leading(line@, a as int);
    }
    let t = vstd::slice::slice_subrange(line, a, n);
    assert(t@ =~= line@.skip(a as int));
    let m = t.len();
    let mut b: usize = 0;
    while b < m && is_whitespace_exec(t[m - 1 - b])
        invariant
            0 <= b <= m == t@.len(),
            forall|j: int| m - b <= j < m ==> is_whitespace(#[trigger] t@[j]),
        decreases m - b,
    {
        b = b + 1;
    }
    proof {
        lemma_trailing(t@, b as int);
    }
    let r = vstd::slice::slice_subrange(t, 0, m - b);
    assert(r@ =~= t@.take(m - b));
    r
}

/// The number of ASCII letters and digits at the start of `s`.
pub open spec fn alnum_run(s: Seq<char>) -> nat
    decreases s.len(),
{
    if s.len() == 0 || !(is_ascii_alpha(s[0]) || is_ascii_digit(s[0])) { 0 } else { 1 + alnum_run(s.skip(1)) }
}

proof fn lemma_alnum_run(s: Seq<char>, k: int)
    requires
        0 <= k <= s.len(),
        forall|j: int| 0 <= j < k ==> is_ascii_alpha(#[trigger] s[j]) || is_ascii_digit(s[j]),
        k == s.len() || !(is_ascii_alpha(s[k]) || is_ascii_digit(s[k])),
    ensures
        alnum_run(s) == k,
    decreases k,
{
    if k > 0 {
        let t = s.skip(1);
        assert forall|j: int| 0 <= j < k - 1 implies is_ascii_alpha(#[trigger] t[j]) || is_ascii_digit(t[j]) by {
            assert(t[j] == s[j + 1]);
        }
        if k - 1 < t.len() {
            assert(t[k - 1] == s[k]);
        }
        lemma_alnum_run(t, k - 1);
    }
}

/// The data type suffixes at the start of `s` (each a dot and a letter), and the rest.
pub open spec fn types_of_text(s: Seq<char>) -> Option<(Seq<GMDataType>, Seq<char>)>
    decreases s.len(),
{
    if s.len() > 0 && s[0] == '.' {
        if s.len() < 2 {
            None
        } else {
            match data_type_of_char(s[1]) {
                None => None,
                Some(t) => match types_of_text(s.skip(2)) {
                    Some((ts, rest)) => Some((seq![t] + ts, rest)),
                    None => None,
                },
            }
        }
    } else {
        Some((Seq::empty(), s))
    }
}

/// The parts of a trimmed line: the mnemonic text, the data types and the operand text.
pub open spec fn line_parts(s: Seq<char>) -> Option<(Seq<char>, Seq<GMDataType>, Seq<char>)> {
    let k = alnum_run(s) as int;
    match types_of_text(s.skip(k)) {
        None => None,
        Some((types, s1)) => if s1.len() == 0 {
            Some((s.take(k), types, s1))
        } else if s1[0] == ' ' {
            Some((s.take(k), types, s1.skip(1)))
        } else {
            None
        },
    }
}

/// A push of a double: its operand text, which the double reader gets.
pub open spec fn double_operand(s: Seq<char>) -> Option<Seq<char>> {
    match line_parts(s) {
        Some((m, types, operand)) => match mnemonic_of_text(m) {
            Some(mn) => if push_instruction(mn, GMPushInstruction { value: GMCodeValue::Int16(0) }) is Some
                && types == seq![GMDataType::Double] {
                Some(operand)
            } else {
                None
            },
            None => None,
        },
        None => None,
    }
}

/// A push of a string: the string, which is looked up in or added to the strings.
pub open spec fn string_operand(s: Seq<char>) -> Option<Seq<char>> {
    match line_parts(s) {
        Some((m, types, operand)) => match mnemonic_of_text(m) {
            Some(mn) => if push_instruction(mn, GMPushInstruction { value: GMCodeValue::Int16(0) }) is Some
                && types == seq![GMDataType::String] {
                match literal_of_text(operand) {
                    Some((lit, _)) => Some(lit),
                    None => None,
                }
            } else {
                None
            },
            None => None,
        },
        None => None,
    }
}

/// The instruction a trimmed line of assembly stands for; `double` is what the operand of a
/// double push reads as.
pub open spec fn assembled(d: GMData, s: Seq<char>, double: Option<u64>) -> Option<GMInstruction> {
    match line_parts(s) {
        None => None,
        Some((m, types, operand)) => match mnemonic_of_text(m) {
            None => None,
            Some(mn) => match operands_of_text(d, mn, types, operand, double) {
                Some((i, rest)) => if rest.len() == 0 { Some(i) } else { None },
                None => None,
            },
        },
    }
}

/// The bounds that assembling needs of the data: every list indexable by 32 bits, and room
/// for one more string.
pub open spec fn data_fits(d: GMData) -> bool {
    &&& d.game_objects.game_objects@.len() <= u32::MAX
    &&& d.variables.variables@.len() <= u32::MAX
    &&& d.functions.functions@.len() <= u32::MAX
    &&& d.strings.strings@.len() < u32::MAX
}

/// `after` is `before` with, at most, the strings changed as a push of `lit` changes them.
pub open spec fn strings_updated(before: GMData, after: GMData, lit: Option<Seq<char>>) -> bool {
    &&& after.strings.table() == (match lit {
        Some(l) => spec_make(before.strings.table(), l).0,
        None => before.strings.table(),
    })
    &&& after.strings.is_aligned == before.strings.is_aligned
    &&& after.strings.exists == before.strings.exists
    &&& after.variables == before.variables
    &&& after.functions == before.functions
    &&& after.game_objects == before.game_objects
    &&& after.codes == before.codes
    &&& after.bytecode_version == before.bytecode_version
    &&& after.gm_version == before.gm_version
    &&& after.other == before.other
}

/// The string a push of type `t` with operand `s` looks up or adds.
pub open spec fn pushed_string(t: GMDataType, s: Seq<char>) -> Option<Seq<char>> {
    match (t, literal_of_text(s)) {
        (GMDataType::String, Some((lit, _))) => Some(lit),
        _ => None,
    }
}

/// The value of a push instruction.
pub fn parse_push<F: Fn(&str) -> Option<u64>>(
    types: &Vec<GMDataType>,
    line: &mut &[char],
    gm_data: &mut GMData,
    parse_double: &F,
) -> (r: Result<GMPushInstruction, ParseError>)
    requires
        data_fits(*old(gm_data)),
        forall|s: &str| parse_double.requires((s,)),
    ensures
        types@.len() != 1 ==> r is Err && *final(gm_data) == *old(gm_data),
        types@.len() == 1 ==> {
            &&& exists|dbl: Option<u64>|
                #![trigger push_value_of_text(*old(gm_data), types@[0], old(line)@, dbl)]
                #![trigger double_parsed(*parse_double, old(line)@, dbl)]
            {
                &&& (types@[0] == GMDataType::Double ==> double_parsed(*parse_double, old(line)@, dbl))
                &&& match push_value_of_text(*old(gm_data), types@[0], old(line)@, dbl) {
                    Some((v, rest)) => r == Ok::<GMPushInstruction, ParseError>(GMPushInstruction { value: v }) && final(line)@ == rest,
                    None => r is Err,
                }
            }
            &&& strings_updated(*old(gm_data), *final(gm_data), pushed_string(types@[0], old(line)@))
        },
{
    assert_type_count(types, 1)?;
    let value = parse_push_value(types[0], line, gm_data, parse_double)?;
    Ok(GMPushInstruction { value })
}

/// The asset reference a `pushref` word stands for.
fn asset_from_word(w: u32) -> (r: Option<GMAssetReference>)
    ensures
        r == asset_of_word(w),
{
    let index = w & 0xFF_FFFF;
    let kind = (w >> 24u32) as u8;
    match kind {
        0 => Some(GMAssetReference::Object(GMRef::new(index))),
        1 => Some(GMAssetReference::Sprite(index)),
        2 => Some(GMAssetReference::Sound(index)),
        3 => Some(GMAssetReference::Room(index)),
        4 => Some(GMAssetReference::Background(index)),
        5 => Some(GMAssetReference::Path(index)),
        6 => Some(GMAssetReference::Script(index)),
        7 => Some(GMAssetReference::Font(index)),
        8 => Some(GMAssetReference::Timeline(index)),
        9 => Some(GMAssetReference::Shader(index)),
        10 => Some(GMAssetReference::Sequence(index)),
        11 => Some(GMAssetReference::AnimCurve(index)),
        12 => Some(GMAssetReference::ParticleSystem(index)),
        13 => Some(GMAssetReference::RoomInstance(index as i32)),
        _ => None,
    }
}

/// The operand of `pushref`.
fn parse_push_reference(line: &mut &[char], gm_data: &GMData) -> (r: Result<GMAssetReference, ParseError>)
    requires
        gm_data.functions.functions@.len() <= u32::MAX,
    ensures
        match push_reference_of_text(*gm_data, old(line)@) {
            Some((a, rest)) => r == Ok::<GMAssetReference, ParseError>(a) && final(line)@ == rest,
            None => r is Err,
        },
{
    proof {
        reveal_strlit("(function)");
    }
    if consume_str(line, "(function)").is_some() {
        let f = parse_function(line, &gm_data.strings, &gm_data.functions)?;
        return Ok(GMAssetReference::Function(f));
    }
    let n = parse_int_in(line, i32::MIN as i64, i32::MAX as i64)?;
    match asset_from_word((n as i32) as u32) {
        Some(a) => Ok(a),
        None => Err(ParseError::IntegerOutOfBounds(text_of(*line))),
    }
}

/// The extended instruction of kind `k` without operand.
fn extended16_exec(k: i16) -> (r: Option<GMInstruction>)
    ensures
        r == extended16_instruction(k),
{
    match k {
        -1 => Some(GMInstruction::CheckArrayIndex),
        -2 => Some(GMInstruction::PushArrayFinal),
        -3 => Some(GMInstruction::PopArrayFinal),
        -4 => Some(GMInstruction::PushArrayContainer),
        -5 => Some(GMInstruction::SetArrayOwner),
        -6 => Some(GMInstruction::HasStaticInitialized),
        -7 => Some(GMInstruction::SetStaticInitialized),
        -8 => Some(GMInstruction::SaveArrayReference),
        -9 => Some(GMInstruction::RestoreArrayReference),
        -10 => Some(GMInstruction::IsNullishValue),
        _ => None,
    }
}

/// A push mnemonic.
pub open spec fn is_push_mnemonic(m: Mnemonic) -> bool {
    push_instruction(m, GMPushInstruction { value: GMCodeValue::Int16(0) }) is Some
}

/// The mnemonics of instructions with two data types: the arithmetic and bitwise ones and
/// `conv`.
pub open spec fn double_type_mnemonic(m: Mnemonic) -> bool {
    m is Conv || m is Mul || m is Div || m is Rem || m is Mod || m is Add || m is Sub || m is And || m is Or
        || m is Xor || m is Shl || m is Shr
}

/// The mnemonics of instructions with one data type and no operand.
pub open spec fn single_type_mnemonic(m: Mnemonic) -> bool {
    m is Neg || m is Not || m is Ret || m is Popz
}

/// The operands of the instruction named by `m`.
#[verifier::spinoff_prover]
#[verifier::rlimit(40)]
fn parse_operands<F: Fn(&str) -> Option<u64>>(
    m: Mnemonic,
    types: &Vec<GMDataType>,
    line: &mut &[char],
    gm_data: &mut GMData,
    parse_double: &F,
) -> (r: Result<GMInstruction, ParseError>)
    requires
        data_fits(*old(gm_data)),
        forall|s: &str| parse_double.requires((s,)),
    ensures
        exists|dbl: Option<u64>|
            #![trigger operands_of_text(*old(gm_data), m, types@, old(line)@, dbl)]
        {
            &&& (is_push_mnemonic(m) && types@ == seq![GMDataType::Double] ==> double_parsed(*parse_double, old(line)@, dbl))
            &&& match operands_of_text(*old(gm_data), m, types@, old(line)@, dbl) {
                Some((i, rest)) => r == Ok::<GMInstruction, ParseError>(i) && final(line)@ == rest,
                None => r is Err,
            }
        },
        strings_updated(*old(gm_data), *final(gm_data), if is_push_mnemonic(m) && types@.len() == 1 {
            pushed_string(types@[0], old(line)@)
        } else {
            None
        }),
        double_type_mnemonic(m) && types@.len() != 2
            ==> r == Err::<GMInstruction, ParseError>(ParseError::InvalidTypeCount(2, types@.len() as usize)),
        single_type_mnemonic(m) && types@.len() != 1
            ==> r == Err::<GMInstruction, ParseError>(ParseError::InvalidTypeCount(1, types@.len() as usize)),
{
    let ghost d = *gm_data;
    let ghost s = line@;
    match m {
        Mnemonic::Conv | Mnemonic::Mul | Mnemonic::Div | Mnemonic::Rem | Mnemonic::Mod | Mnemonic::Add
        | Mnemonic::Sub | Mnemonic::And | Mnemonic::Or | Mnemonic::Xor | Mnemonic::Shl | Mnemonic::Shr => {
            let x = match parse_double_type(types) {
                Ok(x) => x,
                Err(e) => {
                    assert(operands_of_text(d, m, types@, s, None) is None);
                    return Err(e);
                },
            };
            let i = match m {
                Mnemonic::Conv => GMInstruction::Convert(x),
                Mnemonic::Mul => GMInstruction::Multiply(x),
                Mnemonic::Div => GMInstruction::Divide(x),
                Mnemonic::Rem => GMInstruction::Remainder(x),
                Mnemonic::Mod => GMInstruction::Modulus(x),
                Mnemonic::Add => GMInstruction::Add(x),
                Mnemonic::Sub => GMInstruction::Subtract(x),
                Mnemonic::And => GMInstruction::And(x),
                Mnemonic::Or => GMInstruction::Or(x),
                Mnemonic::Xor => GMInstruction::Xor(x),
                Mnemonic::Shl => GMInstruction::ShiftLeft(x),
                _ => GMInstruction::ShiftRight(x),
            };
            assert(operands_of_text(d, m, types@, s, None) == Some((i, s)));
            Ok(i)
        },
        Mnemonic::Neg | Mnemonic::Not | Mnemonic::Ret | Mnemonic::Popz => {
            let x = match parse_single_type(types) {
                Ok(x) => x,
                Err(e) => {
                    assert(operands_of_text(d, m, types@, s, None) is None);
                    return Err(e);
                },
            };
            let i = match m {
                Mnemonic::Neg => GMInstruction::Negate(x),
                Mnemonic::Not => GMInstruction::Not(x),
                Mnemonic::Ret => GMInstruction::Return(x),
                _ => GMInstruction::PopDiscard(x),
            };
            assert(operands_of_text(d, m, types@, s, None) == Some((i, s)));
            Ok(i)
        },
        Mnemonic::Cmp => {
            let r = parse_comparison(types, line);
            assert(operands_of_text(d, m, types@, s, None) is Some || operands_of_text(d, m, types@, s, None) is None);
            match r {
                Ok(c) => Ok(GMInstruction::Compare(c)),
                Err(e) => Err(e),
            }
        },
        Mnemonic::Pop => {
            let r = parse_pop(types, line, gm_data);
            assert(operands_of_text(d, m, types@, s, None) is Some || operands_of_text(d, m, types@, s, None) is None);
            match r {
                Ok(p) => Ok(GMInstruction::Pop(p)),
                Err(e) => Err(e),
            }
        },
        Mnemonic::PopSwap => {
            let r = parse_pop_swap(types, line);
            assert(operands_of_text(d, m, types@, s, None) is Some || operands_of_text(d, m, types@, s, None) is None);
            match r {
                Ok(p) => Ok(GMInstruction::PopSwap(p)),
                Err(e) => Err(e),
            }
        },
        Mnemonic::Dup => {
            let r = parse_duplicate(types, line);
            assert(operands_of_text(d, m, types@, s, None) is Some || operands_of_text(d, m, types@, s, None) is None);
            match r {
                Ok(p) => Ok(GMInstruction::Duplicate(p)),
                Err(e) => Err(e),
            }
        },
        Mnemonic::DupSwap => {
            let r = parse_duplicate_swap(types, line);
            assert(operands_of_text(d, m, types@, s, None) is Some || operands_of_text(d, m, types@, s, None) is None);
            match r {
                Ok(p) => Ok(GMInstruction::DuplicateSwap(p)),
                Err(e) => Err(e),
            }
        },
        Mnemonic::Exit => {
            assert(operands_of_text(d, m, types@, s, None) == Some((GMInstruction::Exit(GMEmptyInstruction {}), s)));
            Ok(GMInstruction::Exit(GMEmptyInstruction {}))
        },
        Mnemonic::Jmp | Mnemonic::Jt | Mnemonic::Jf | Mnemonic::PushEnv | Mnemonic::PopEnv => {
            proof {
                reveal_strlit("<drop>");
            }
            if types.len() == 0 && matches!(m, Mnemonic::PopEnv) && is_drop(*line) {
                *line = vstd::slice::slice_subrange(*line, line.len(), line.len());
                assert(line@ =~= Seq::<char>::empty());
                assert(operands_of_text(d, m, types@, s, None) is Some);
                return Ok(GMInstruction::PopWithContextExit(GMPopenvExitMagicInstruction {}));
            }
            let g = match parse_goto(types, line) {
                Ok(g) => g,
                Err(e) => {
                    assert(operands_of_text(d, m, types@, s, None) is None);
                    return Err(e);
                },
            };
            let i = match m {
                Mnemonic::Jmp => GMInstruction::Branch(g),
                Mnemonic::Jt => GMInstruction::BranchIf(g),
                Mnemonic::Jf => GMInstruction::BranchUnless(g),
                Mnemonic::PushEnv => GMInstruction::PushWithContext(g),
                _ => GMInstruction::PopWithContext(g),
            };
            assert(operands_of_text(d, m, types@, s, None) == Some((i, line@)));
            Ok(i)
        },
        Mnemonic::Push | Mnemonic::PushLoc | Mnemonic::PushGlb | Mnemonic::PushBltn => {
            let r = parse_push(types, line, gm_data, parse_double);
            if types.len() != 1 {
                assert(operands_of_text(d, m, types@, s, None) is None);
                return match r {
                    Ok(_) => Err(ParseError::InvalidTypeCount(1, types.len())),
                    Err(e) => Err(e),
                };
            }
            let ghost dbl = choose|dbl: Option<u64>| {
                &&& (types@[0] == GMDataType::Double ==> double_parsed(*parse_double, s, dbl))
                &&& match push_value_of_text(d, types@[0], s, dbl) {
                    Some((v, rest)) => r == Ok::<GMPushInstruction, ParseError>(GMPushInstruction { value: v }) && line@ == rest,
                    None => r is Err,
                }
            };
            match r {
                Ok(p) => {
                    let i = match m {
                        Mnemonic::Push => GMInstruction::Push(p),
                        Mnemonic::PushLoc => GMInstruction::PushLocal(p),
                        Mnemonic::PushGlb => GMInstruction::PushGlobal(p),
                        _ => GMInstruction::PushBuiltin(p),
                    };
                    assert(operands_of_text(d, m, types@, s, dbl) == Some((i, line@)));
                    Ok(i)
                },
                Err(e) => {
                    assert(operands_of_text(d, m, types@, s, dbl) is None);
                    Err(e)
                },
            }
        },
        Mnemonic::PushIm => {
            if types.len() != 1 || !matches!(types[0], GMDataType::Int16) {
                assert(operands_of_text(d, m, types@, s, None) is None);
                return Err(ParseError::InvalidTypeCount(1, types.len()));
            }
            let n = match parse_int_in(line, i16::MIN as i64, i16::MAX as i64) {
                Ok(n) => n,
                Err(e) => {
                    assert(operands_of_text(d, m, types@, s, None) is None);
                    return Err(e);
                },
            };
            assert(operands_of_text(d, m, types@, s, None) == Some((GMInstruction::PushImmediate(n as i16), line@)));
            Ok(GMInstruction::PushImmediate(n as i16))
        },
        Mnemonic::Call => {
            let r = parse_call(types, line, gm_data);
            assert(operands_of_text(d, m, types@, s, None) is Some || operands_of_text(d, m, types@, s, None) is None);
            match r {
                Ok(c) => Ok(GMInstruction::Call(c)),
                Err(e) => Err(e),
            }
        },
        Mnemonic::CallVar => {
            let r = parse_call_var(types, line);
            assert(operands_of_text(d, m, types@, s, None) is Some || operands_of_text(d, m, types@, s, None) is None);
            match r {
                Ok(c) => Ok(GMInstruction::CallVariable(c)),
                Err(e) => Err(e),
            }
        },
        Mnemonic::Extended(k) => {
            if let Err(e) = assert_type_count(types, 1) {
                assert(operands_of_text(d, m, types@, s, None) is None);
                return Err(e);
            }
            if k != -11 {
                match extended16_exec(k) {
                    Some(i) => {
                        assert(operands_of_text(d, m, types@, s, None) == Some((i, s)));
                        Ok(i)
                    },
                    None => {
                        assert(operands_of_text(d, m, types@, s, None) is None);
                        Err(ParseError::InvalidExtendedMnemonic(text_of(*line)))
                    },
                }
            } else {
                let r = parse_push_reference(line, gm_data);
                assert(operands_of_text(d, m, types@, s, None) is Some || operands_of_text(d, m, types@, s, None) is None);
                match r {
                    Ok(a) => Ok(GMInstruction::PushReference(a)),
                    Err(e) => Err(e),
                }
            }
        },
    }
}

/// Whether the rest of the line is exactly `<drop>`.
fn is_drop(line: &[char]) -> (r: bool)
    ensures
        r == (line@ == "<drop>"@),
{
    let t = text_of(line);
    text_is(&t, "<drop>")
}

/// The text left on a line after its instruction's operands, when the line reads as an
/// instruction up to there and some text is left.
pub open spec fn leftover(d: GMData, s: Seq<char>, double: Option<u64>) -> Option<Seq<char>> {
    match line_parts(s) {
        None => None,
        Some((m, types, operand)) => match mnemonic_of_text(m) {
            None => None,
            Some(mn) => match operands_of_text(d, mn, types, operand, double) {
                Some((i, rest)) => if rest.len() == 0 { None } else { Some(rest) },
                None => None,
            },
        },
    }
}

/// The number of data types the line's mnemonic needs, when it is one with a fixed number
/// that the line does not give: `Some((needed, given))`.
pub open spec fn wrong_type_count(s: Seq<char>) -> Option<(nat, nat)> {
    match line_parts(s) {
        Some((m, types, operand)) => match mnemonic_of_text(m) {
            Some(mn) => if double_type_mnemonic(mn) && types.len() != 2 {
                Some((2nat, types.len()))
            } else if single_type_mnemonic(mn) && types.len() != 1 {
                Some((1nat, types.len()))
            } else {
                None
            },
            None => None,
        },
        None => None,
    }
}

/// Assembles one line (surrounding white space is ignored). A double operand is read by
/// `parse_double`, which gets the operand text; a string operand is looked up in, or added
/// to, the strings.
#[verifier::spinoff_prover]
#[verifier::rlimit(40)]
pub fn assemble_instruction<F: Fn(&str) -> Option<u64>>(
    line: &str,
    gm_data: &mut GMData,
    parse_double: &F,
) -> (r: Result<GMInstruction, ParseError>)
    requires
        data_fits(*old(gm_data)),
        forall|s: &str| parse_double.requires((s,)),
    ensures
        ({
            let s = trimmed(line@);
            &&& exists|dbl: Option<u64>|
                #![trigger assembled(*old(gm_data), s, dbl)]
            {
                &&& (double_operand(s) matches Some(t) ==> double_parsed(*parse_double, t, dbl))
                &&& match assembled(*old(gm_data), s, dbl) {
                    Some(i) => r == Ok::<GMInstruction, ParseError>(i),
                    None => r is Err,
                }
                &&& (leftover(*old(gm_data), s, dbl) matches Some(t)
                    ==> r matches Err(ParseError::ExpectedEOL(e)) && e@ == t)
            }
            &&& strings_updated(*old(gm_data), *final(gm_data), string_operand(s))
            &&& (wrong_type_count(s) matches Some((n, k))
                ==> r == Err::<GMInstruction, ParseError>(ParseError::InvalidTypeCount(n as usize, k as usize)))
        }),
{
    let chars = str_to_chars(line);
    let mut rest: &[char] = trim(chars.as_slice());
    let ghost s = rest@;
    let ghost d = *gm_data;
    let mut k: usize = 0;
    while k < rest.len() && (('a' <= rest[k] && rest[k] <= 'z') || ('A' <= rest[k] && rest[k] <= 'Z')
        || ('0' <= rest[k] && rest[k] <= '9'))
        invariant
            0 <= k <= rest@.len(),
            rest@ == s,
            forall|j: int| 0 <= j < k ==> is_ascii_alpha(#[trigger] s[j]) || is_ascii_digit(s[j]),
        decreases rest@.len() - k,
    {
        k = k + 1;
    }
    proof {
        lemma_alnum_run(s, k as int);
    }
    let mnemonic = text_of(vstd::slice::slice_subrange(rest, 0, k));
    rest = vstd::slice::slice_subrange(rest, k, rest.len());
    assert(mnemonic@ =~= s.take(k as int));
    assert(rest@ =~= s.skip(k as int));
    let ghost s0 = rest@;
    let mut types: Vec<GMDataType> = Vec::new();
    while rest.len() > 0 && rest[0] == '.'
        invariant
            types_of_text(s0) == (match types_of_text(rest@) {
                Some((ts, r2)) => Some((types@ + ts, r2)),
                None => None,
            }),
            s0 == s.skip(alnum_run(s) as int),
            s == trimmed(line@),
            *gm_data == d,
            d == *old(gm_data),
            mnemonic@ == s.take(alnum_run(s) as int),
        decreases rest@.len(),
    {
        let ghost before = rest@;
        let _ = consume_dot(&mut rest);
        let c = match consume_char(&mut rest) {
            Some(c) => c,
            None => {
                assert(types_of_text(s0) is None);
                assert(line_parts(s) is None);
                assert(assembled(d, s, None) is None);
                return Err(ParseError::UnexpectedEOL("data type"));
            },
        };
        let t = match data_type_from_char(c) {
            Ok(t) => t,
            Err(e) => {
                assert(types_of_text(s0) is None);
                assert(line_parts(s) is None);
                assert(assembled(d, s, None) is None);
                return Err(e);
            },
        };
        proof {
            assert(before.skip(2) =~= rest@);
            match types_of_text(rest@) {
                Some((ts, r2)) => {
                    assert(types@.push(t) + ts =~= types@ + (seq![t] + ts));
                },
                None => {},
            }
        }
        types.push(t);
    }
    assert(types@ + Seq::<GMDataType>::empty() =~= types@);
    if rest.len() > 0 {
        if rest[0] == ' ' {
            consume_char(&mut rest);
        } else {
            assert(line_parts(s) is None);
            assert(assembled(d, s, None) is None);
            return Err(ParseError::ExpectedSpace(text_of(rest)));
        }
    }
    let m = match mnemonic_from_string(&mnemonic) {
        Ok(m) => m,
        Err(e) => {
            assert(assembled(d, s, None) is None);
            return Err(e);
        },
    };
    let ghost operand = rest@;
    assert(line_parts(s) == Some((mnemonic@, types@, operand)));
    let r = parse_operands(m, &types, &mut rest, gm_data, parse_double);
    let ghost dbl = choose|dbl: Option<u64>| {
        &&& (is_push_mnemonic(m) && types@ == seq![GMDataType::Double] ==> double_parsed(*parse_double, operand, dbl))
        &&& match operands_of_text(d, m, types@, operand, dbl) {
            Some((i, rest2)) => r == Ok::<GMInstruction, ParseError>(i) && rest@ == rest2,
            None => r is Err,
        }
    };
    let instruction = match r {
        Ok(i) => i,
        Err(e) => {
            assert(assembled(d, s, dbl) is None);
            return Err(e);
        },
    };
    if rest.len() != 0 {
        assert(assembled(d, s, dbl) is None);
        return Err(ParseError::ExpectedEOL(text_of(rest)));
    }
    assert(assembled(d, s, dbl) == Some(instruction));
    Ok(instruction)
}

/// The lines of a text: the pieces between line breaks (the last one may be empty).
pub open spec fn split_lines(s: Seq<char>) -> Seq<Seq<char>>
    decreases s.len(),
{
    if s.len() == 0 {
        seq![Seq::empty()]
    } else {
        let prev = split_lines(s.drop_last());
        if s.last() == '\n' {
            prev.push(Seq::empty())
        } else {
            prev.update(prev.len() - 1, prev.last().push(s.last()))
        }
    }
}

/// The lines that hold more than white space, trimmed.
pub open spec fn nonempty_lines(ls: Seq<Seq<char>>) -> Seq<Seq<char>>
    decreases ls.len(),
{
    if ls.len() == 0 {
        Seq::empty()
    } else {
        let p = nonempty_lines(ls.drop_last());
        let t = trimmed(ls.last());
        if t.len() > 0 { p.push(t) } else { p }
    }
}

proof fn lemma_split_lines_nonempty(s: Seq<char>)
    ensures
        split_lines(s).len() >= 1,
    decreases s.len(),
{
    if s.len() > 0 {
        lemma_split_lines_nonempty(s.drop_last());
    }
}

/// Splits a text at line breaks.
fn lines_of(chars: &Vec<char>) -> (r: Vec<Vec<char>>)
    ensures
        r@.map_values(|l: Vec<char>| l@) == split_lines(chars@),
{
    let mut done: Vec<Vec<char>> = Vec::new();
    let mut cur: Vec<char> = Vec::new();
    let mut i: usize = 0;
    while i < chars.len()
        invariant
            0 <= i <= chars@.len(),
            done@.map_values(|l: Vec<char>| l@).push(cur@) == split_lines(chars@.take(i as int)),
        decreases chars@.len() - i,
    {
        let c = chars[i];
        proof {
            assert(chars@.take(i + 1).drop_last() =~= chars@.take(i as int));
            lemma_split_lines_nonempty(chars@.take(i as int));
        }
        if c == '\n' {
            let finished = cur;
            cur = Vec::new();
            done.push(finished);
            assert(done@.map_values(|l: Vec<char>| l@).push(cur@) =~= split_lines(chars@.take(i + 1)));
        } else {
            let ghost old_cur = cur@;
            cur.push(c);
            assert(done@.map_values(|l: Vec<char>| l@).push(cur@) =~= split_lines(chars@.take(i + 1)));
        }
        i = i + 1;
    }
    assert(chars@.take(i as int) =~= chars@);
    done.push(cur);
    assert(done@.map_values(|l: Vec<char>| l@) =~= split_lines(chars@));
    done
}

/// The instructions assembled from `lines` one after another, with the data going from
/// `ds[k]` to `ds[k + 1]` and line `k`'s double operand read as `dbls[k]`.
pub open spec fn lines_assembled<F: Fn(&str) -> Option<u64>>(
    lines: Seq<Seq<char>>,
    ds: Seq<GMData>,
    dbls: Seq<Option<u64>>,
    parse_double: F,
    instructions: Seq<GMInstruction>,
) -> bool {
    &&& ds.len() == lines.len() + 1
    &&& dbls.len() == lines.len()
    &&& instructions.len() == lines.len()
    &&& forall|k: int| #![trigger lines[k]] 0 <= k < lines.len() ==> {
        &&& (double_operand(lines[k]) matches Some(t) ==> double_parsed(parse_double, t, dbls[k]))
        &&& assembled(ds[k], lines[k], dbls[k]) == Some(instructions[k])
        &&& strings_updated(ds[k], ds[k + 1], string_operand(lines[k]))
    }
}

/// The non-blank lines of `assembly`, assembled one after another from `before`, give
/// `instructions` and leave `after`.
pub open spec fn code_assembled<F: Fn(&str) -> Option<u64>>(
    before: GMData,
    after: GMData,
    assembly: Seq<char>,
    parse_double: F,
    instructions: Seq<GMInstruction>,
) -> bool {
    exists|ds: Seq<GMData>, dbls: Seq<Option<u64>>|
        #![trigger lines_assembled(nonempty_lines(split_lines(assembly)), ds, dbls, parse_double, instructions)]
    {
        &&& lines_assembled(nonempty_lines(split_lines(assembly)), ds, dbls, parse_double, instructions)
        &&& ds[0] == before
        &&& ds.last() == after
    }
}

/// `line` is the first non-blank line of `assembly` that does not assemble, the lines
/// before it having assembled from `before`.
pub open spec fn code_failed<F: Fn(&str) -> Option<u64>>(
    before: GMData,
    assembly: Seq<char>,
    parse_double: F,
    line: Seq<char>,
) -> bool {
    let lines = nonempty_lines(split_lines(assembly));
    exists|k: int, ds: Seq<GMData>, dbls: Seq<Option<u64>>, v: Seq<GMInstruction>, dbl: Option<u64>| {
        &&& 0 <= k < lines.len()
        &&& line == lines[k]
        &&& lines_assembled(lines.take(k), ds, dbls, parse_double, v)
        &&& ds[0] == before
        &&& (double_operand(lines[k]) matches Some(t) ==> double_parsed(parse_double, t, dbl))
        &&& assembled(ds.last(), lines[k], dbl) is None
    }
}

/// Assembles every line that holds more than white space. On failure, gives the error and
/// the line.
pub fn assemble_code<F: Fn(&str) -> Option<u64>>(
    assembly: &str,
    gm_data: &mut GMData,
    parse_double: &F,
) -> (r: Result<Vec<GMInstruction>, (ParseError, String)>)
    requires
        old(gm_data).game_objects.game_objects@.len() <= u32::MAX,
        old(gm_data).variables.variables@.len() <= u32::MAX,
        old(gm_data).functions.functions@.len() <= u32::MAX,
        old(gm_data).strings.strings@.len() + nonempty_lines(split_lines(assembly@)).len() < u32::MAX,
        forall|s: &str| parse_double.requires((s,)),
    ensures
        match r {
            Ok(v) => code_assembled(*old(gm_data), *final(gm_data), assembly@, *parse_double, v@),
            Err((_, line)) => code_failed(*old(gm_data), assembly@, *parse_double, line@),
        },
{
    let chars = str_to_chars(assembly);
    let raw_lines = lines_of(&chars);
    let ghost all = split_lines(assembly@);
    let ghost lines = nonempty_lines(all);
    let mut instructions: Vec<GMInstruction> = Vec::new();
    let ghost mut ds: Seq<GMData> = seq![*gm_data];
    let ghost mut dbls: Seq<Option<u64>> = Seq::empty();
    let mut i: usize = 0;
    assert(all.take(0) =~= Seq::<Seq<char>>::empty());
    while i < raw_lines.len()
        invariant
            0 <= i <= raw_lines@.len(),
            raw_lines@.map_values(|l: Vec<char>| l@) == all,
            all == split_lines(assembly@),
            lines == nonempty_lines(all),
            lines_assembled(nonempty_lines(all.take(i as int)), ds, dbls, *parse_double, instructions@),
            ds[0] == *old(gm_data),
            ds.last() == *gm_data,
            gm_data.game_objects.game_objects@.len() <= u32::MAX,
            gm_data.variables.variables@.len() <= u32::MAX,
            gm_data.functions.functions@.len() <= u32::MAX,
            gm_data.strings.strings@.len() + (nonempty_lines(all).len() - nonempty_lines(all.take(i as int)).len()) < u32::MAX,
            nonempty_lines(all.take(i as int)).len() <= nonempty_lines(all).len(),
            forall|s: &str| parse_double.requires((s,)),
        decreases raw_lines@.len() - i,
    {
        let text = text_of(raw_lines[i].as_slice());
        let trimmed_line = trim(raw_lines[i].as_slice());
        proof {
            assert(all.take(i + 1).drop_last() =~= all.take(i as int));
            assert(all[i as int] == raw_lines@[i as int]@);
            lemma_nonempty_lines_prefix(all, i as int + 1);
            lemma_nonempty_prefix_general(all, i as int + 1);
        }
        if trimmed_line.len() == 0 {
            i = i + 1;
            continue;
        }
        let line_text = text_of(trimmed_line);
        let ghost before = *gm_data;
        let ghost k = nonempty_lines(all.take(i as int)).len() as int;
        proof {
            lemma_trim_idempotent(raw_lines@[i as int]@);
        }
        match assemble_instruction(line_text.as_str(), gm_data, parse_double) {
            Ok(instruction) => {
                let ghost dbl = choose|dbl: Option<u64>| {
                    &&& (double_operand(trimmed(line_text@)) matches Some(t) ==> double_parsed(*parse_double, t, dbl))
                    &&& assembled(before, trimmed(line_text@), dbl) == Some(instruction)
                };
                proof {
                    let next_lines = nonempty_lines(all.take(i + 1));
                    assert(next_lines == nonempty_lines(all.take(i as int)).push(line_text@));
                    assert(gm_data.strings.table().len() <= before.strings.table().len() + 1);
                    ds = ds.push(*gm_data);
                    dbls = dbls.push(dbl);
                    assert forall|j: int| #![trigger next_lines[j]] 0 <= j < next_lines.len() implies {
                        &&& (double_operand(next_lines[j]) matches Some(t) ==> double_parsed(*parse_double, t, dbls[j]))
                        &&& assembled(ds[j], next_lines[j], dbls[j]) == Some(instructions@.push(instruction)[j])
                        &&& strings_updated(ds[j], ds[j + 1], string_operand(next_lines[j]))
                    } by {
                        if j < next_lines.len() - 1 {
                            assert(next_lines[j] == nonempty_lines(all.take(i as int))[j]);
                        }
                    }
                }
                instructions.push(instruction);
            },
            Err(e) => {
                let ghost dbl = choose|dbl: Option<u64>| {
                    &&& (double_operand(trimmed(line_text@)) matches Some(t) ==> double_parsed(*parse_double, t, dbl))
                    &&& assembled(before, trimmed(line_text@), dbl) is None
                };
                proof {
                    lemma_nonempty_lines_grow(all, i as int);
                    assert(lines.take(k) =~= nonempty_lines(all.take(i as int)));
                    assert(lines[k] == line_text@);
                    assert(lines_assembled(lines.take(k), ds, dbls, *parse_double, instructions@));
                    assert(assembled(ds.last(), lines[k], dbl) is None);
                    assert(code_failed(*old(gm_data), assembly@, *parse_double, line_text@));
                }
                return Err((e, line_text));
            },
        }
        i = i + 1;
    }
    assert(all.take(i as int) =~= all);
    assert(lines_assembled(lines, ds, dbls, *parse_double, instructions@));
    assert(code_assembled(*old(gm_data), *gm_data, assembly@, *parse_double, instructions@));
    Ok(instructions)
}

proof fn lemma_trim_idempotent(s: Seq<char>)
    ensures
        trimmed(trimmed(s)) == trimmed(s),
{
    let a = leading_whitespace(s) as int;
    let t = s.skip(a);
    let u = t.take(t.len() - trailing_whitespace(t));
    lemma_leading_bounds(s);
    lemma_trailing_bounds(t);
    if u.len() > 0 {
        assert(u[0] == t[0]);
        lemma_leading_first(s);
        lemma_leading(u, 0);
        assert(u.skip(0) =~= u);
        lemma_trailing_last(t);
        assert(u.last() == t[t.len() - trailing_whitespace(t) - 1]);
        lemma_trailing(u, 0);
        assert(u.take(u.len() as int) =~= u);
    } else {
        assert(leading_whitespace(u) == 0);
        assert(u.skip(0) =~= u);
        assert(trailing_whitespace(u) == 0);
        assert(u.take(0) =~= u);
    }
}

proof fn lemma_leading_bounds(s: Seq<char>)
    ensures
        leading_whitespace(s) <= s.len(),
    decreases s.len(),
{
    if s.len() > 0 {
        lemma_leading_bounds(s.skip(1));
    }
}

proof fn lemma_trailing_bounds(s: Seq<char>)
    ensures
        trailing_whitespace(s) <= s.len(),
    decreases s.len(),
{
    if s.len() > 0 {
        lemma_trailing_bounds(s.drop_last());
    }
}

/// After the leading white space comes a character that is not white space.
proof fn lemma_leading_first(s: Seq<char>)
    ensures
        leading_whitespace(s) < s.len() ==> !is_whitespace(s[leading_whitespace(s) as int]),
    decreases s.len(),
{
    if s.len() > 0 && is_whitespace(s[0]) {
        lemma_leading_first(s.skip(1));
        if leading_whitespace(s) < s.len() {
            assert(s.skip(1)[leading_whitespace(s.skip(1)) as int] == s[leading_whitespace(s) as int]);
        }
    }
}

/// Before the trailing white space comes a character that is not white space.
proof fn lemma_trailing_last(s: Seq<char>)
    ensures
        trailing_whitespace(s) < s.len() ==> !is_whitespace(s[s.len() - trailing_whitespace(s) - 1]),
    decreases s.len(),
{
    if s.len() > 0 && is_whitespace(s.last()) {
        lemma_trailing_last(s.drop_last());
        if trailing_whitespace(s) < s.len() {
            let d = s.drop_last();
            assert(d[d.len() - trailing_whitespace(d) - 1] == s[s.len() - trailing_whitespace(s) - 1]);
        }
    }
}

/// The nonempty lines of a prefix, one line longer.
proof fn lemma_nonempty_lines_prefix(all: Seq<Seq<char>>, n: int)
    requires
        0 < n <= all.len(),
    ensures
        nonempty_lines(all.take(n)) == (if trimmed(all[n - 1]).len() > 0 {
            nonempty_lines(all.take(n - 1)).push(trimmed(all[n - 1]))
        } else {
            nonempty_lines(all.take(n - 1))
        }),
{
    assert(all.take(n).drop_last() =~= all.take(n - 1));
}

/// The nonempty lines of a prefix are a prefix of all the nonempty lines.
proof fn lemma_nonempty_lines_grow(all: Seq<Seq<char>>, i: int)
    requires
        0 <= i < all.len(),
        trimmed(all[i]).len() > 0,
    ensures
        nonempty_lines(all).len() > nonempty_lines(all.take(i)).len(),
        nonempty_lines(all).take(nonempty_lines(all.take(i)).len() as int) == nonempty_lines(all.take(i)),
        nonempty_lines(all)[nonempty_lines(all.take(i)).len() as int] == trimmed(all[i]),
    decreases all.len() - i,
{
    lemma_nonempty_prefix_general(all, i + 1);
    lemma_nonempty_lines_prefix(all, i + 1);
    let a = nonempty_lines(all.take(i));
    let b = nonempty_lines(all.take(i + 1));
    let c = nonempty_lines(all);
    assert(b == a.push(trimmed(all[i])));
    assert(c.take(b.len() as int) == b);
    assert(c[a.len() as int] == c.take(b.len() as int)[a.len() as int]);
    assert(c.take(a.len() as int) =~= c.take(b.len() as int).take(a.len() as int));
    assert(b.take(a.len() as int) =~= a);
}

/// The nonempty lines of a prefix are a prefix of all the nonempty lines.
proof fn lemma_nonempty_prefix_general(all: Seq<Seq<char>>, n: int)
    requires
        0 <= n <= all.len(),
    ensures
        nonempty_lines(all.take(n)).len() <= nonempty_lines(all).len(),
        nonempty_lines(all).take(nonempty_lines(all.take(n)).len() as int) == nonempty_lines(all.take(n)),
    decreases all.len() - n,
{
    if n == all.len() {
        assert(all.take(n) =~= all);
        assert(nonempty_lines(all).take(nonempty_lines(all).len() as int) =~= nonempty_lines(all));
    } else {
        lemma_nonempty_prefix_general(all, n + 1);
        lemma_nonempty_lines_prefix(all, n + 1);
        let a = nonempty_lines(all.take(n));
        let b = nonempty_lines(all.take(n + 1));
        let c = nonempty_lines(all);
        assert(c.take(a.len() as int) =~= c.take(b.len() as int).take(a.len() as int));
        assert(b.take(a.len() as int) =~= a);
    }
}

} // verus!
