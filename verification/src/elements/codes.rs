//! Code entries (chunk `CODE`).

use std::collections::HashMap;
use vstd::prelude::*;
use crate::bytes::{spec_i32_at, spec_u16_at, spec_u32_at};
use crate::instructions::{spec_decode_instruction, GMInstruction};
use crate::lists::{pointer_at, u32_list_readable};
use crate::reader::DataReader;
use crate::refs::{gm_ref, GMRef};
use crate::resources::string_at;

verus! {

broadcast use vstd::std_specs::hash::group_hash_axioms;

/// Bytecode 15+ data of a code entry.
#[derive(Clone, Copy)]
pub struct GMCodeBytecode15 {
    pub locals_count: u16,
    pub arguments_count: u16,
    pub weird_local_flag: bool,
    pub offset: u32,
    /// The entry whose instructions this one shares, if any.
    pub parent: Option<GMRef<GMCode>>,
}

/// A code entry: a named list of instructions.
pub struct GMCode {
    pub name: GMRef<String>,
    pub instructions: Vec<GMInstruction>,
    pub bytecode15_info: Option<GMCodeBytecode15>,
}

/// All code entries.
pub struct GMCodes {
    pub codes: Vec<GMCode>,
    pub exists: bool,
}

/// The instructions decoded one after another from `pos` while the position is before
/// `end`; `None` if one of them cannot be decoded.
pub open spec fn decode_range<'a>(r: DataReader<'a>, pos: u32, end: u32) -> Option<Seq<GMInstruction>>
    decreases end - pos,
{
    if pos >= end {
        Some(Seq::empty())
    } else {
        match spec_decode_instruction(r.moved(pos as int)) {
            None => None,
            Some((i, next)) => if next <= pos {
                None
            } else if next >= end {
                Some(seq![i])
            } else {
                match decode_range(r, next, end) {
                    Some(rest) => Some(seq![i] + rest),
                    None => None,
                }
            },
        }
    }
}

/// What the metadata of a code entry at `ptr` says: its name, its bytecode 15 data (without
/// a parent) and the range of its instructions; `None` if it cannot be read or a position
/// leaves the 32-bit range.
pub open spec fn code_meta<'a>(r: DataReader<'a>, ptr: u32) -> Option<(GMRef<String>, Option<(u16, u16, bool, u32)>, u32, u32)> {
    let p = ptr as int;
    let d = r.data@;
    let at = r.moved(p);
    let length = spec_u32_at(d, p + 4);
    if r.bytecode_version <= 14 {
        if !at.can_read(8) || string_at(r, p) is None || p + 8 + length > u32::MAX {
            None
        } else {
            Some((string_at(r, p)->0, None, (p + 8) as u32, (p + 8 + length) as u32))
        }
    } else {
        let raw_args = spec_u16_at(d, p + 10);
        let start = spec_i32_at(d, p + 12) + p + 12;
        if !at.can_read(20) || string_at(r, p) is None || start < i32::MIN || start > i32::MAX
            || (start as i32) as u32 + length > u32::MAX {
            None
        } else {
            let s = (start as i32) as u32;
            Some((
                string_at(r, p)->0,
                Some((spec_u16_at(d, p + 8), raw_args & 0x7FFF, raw_args & 0x8000 != 0, spec_u32_at(d, p + 16))),
                s,
                (s + length) as u32,
            ))
        }
    }
}

/// The size of a code entry's metadata.
pub open spec fn meta_size<'a>(r: DataReader<'a>) -> int {
    if r.bytecode_version <= 14 { 8 } else { 20 }
}

/// A code entry of this name and bytecode 15 data, whose instructions are still to be read.
pub open spec fn code_with_meta(c: GMCode, name: GMRef<String>, b15: Option<(u16, u16, bool, u32)>) -> bool {
    &&& c.name == name
    &&& match (c.bytecode15_info, b15) {
        (None, None) => true,
        (Some(info), Some((locals, args, flag, offset))) => {
            &&& info.locals_count == locals
            &&& info.arguments_count == args
            &&& info.weird_local_flag == flag
            &&& info.offset == offset
        },
        _ => false,
    }
}

/// Reads the metadata of the entry at the reader's position: its name, bytecode 15 data
/// and the range of its instructions.
fn read_code_meta(reader: &mut DataReader) -> (r: Result<(GMCode, u32, u32), String>)
    requires
        old(reader).wf(),
    ensures
        final(reader).wf(),
        old(reader).only_moved(*final(reader)),
        r matches Ok((c, start, end)) ==> {
            &&& code_meta(*old(reader), old(reader).cur_pos) matches Some((name, b15, s, e))
            &&& code_with_meta(c, name, b15)
            &&& c.instructions@.len() == 0
            &&& start == s
            &&& end == e
            &&& start <= end
            &&& c.bytecode15_info matches Some(info) ==> info.parent is None
            &&& *final(reader) == old(reader).moved(old(reader).cur_pos + meta_size(*old(reader)))
        },
        r is Ok <==> code_meta(*old(reader), old(reader).cur_pos) is Some,
{
    let ghost p = reader.cur_pos as int;
    let name = reader.read_gm_string()?;
    let code_length = reader.read_u32()?;
    if reader.bytecode_version <= 14 {
        let start = reader.cur_pos;
        let end = match start.checked_add(code_length) {
            Some(e) => e,
            None => return Err("Code entry extends past the 32-bit range".to_owned()),
        };
        assert(old(reader).moved(p).can_read(8));
        Ok((GMCode { name, instructions: Vec::new(), bytecode15_info: None }, start, end))
    } else {
        let locals_count = reader.read_u16()?;
        let arguments_count_raw = reader.read_u16()?;
        let arguments_count: u16 = arguments_count_raw & 0x7FFF;
        let weird_local_flag: bool = arguments_count_raw & 0x8000 != 0;
        let instructions_start_offset = reader.read_i32()?;
        let base = reader.cur_pos as i64 - 4;
        let start_wide: i64 = instructions_start_offset as i64 + base;
        if start_wide < -0x8000_0000i64 || start_wide > 0x7FFF_FFFFi64 {
            return Err("Code entry instructions start outside the 32-bit range".to_owned());
        }
        let narrowed: i32 = start_wide as i32;
        let start: u32 = #[verifier::truncate] (narrowed as u32);
        let offset = reader.read_u32()?;
        let end = match start.checked_add(code_length) {
            Some(e) => e,
            None => return Err("Code entry extends past the 32-bit range".to_owned()),
        };
        assert(old(reader).moved(p).can_read(20));
        let b15 = GMCodeBytecode15 { locals_count, arguments_count, weird_local_flag, offset, parent: None };
        Ok((GMCode { name, instructions: Vec::new(), bytecode15_info: Some(b15) }, start, end))
    }
}

/// Reads the instructions from `start` while the position is before `end`.
fn read_instructions(reader: &mut DataReader, start: u32, end: u32) -> (r: Result<Vec<GMInstruction>, String>)
    requires
        old(reader).wf(),
    ensures
        final(reader).wf(),
        old(reader).only_moved(*final(reader)),
        match r {
            Ok(v) => decode_range(*old(reader), start, end) == Some(v@),
            Err(_) => decode_range(*old(reader), start, end) is None,
        },
{
    let ghost base = *reader;
    reader.cur_pos = start;
    let mut instructions: Vec<GMInstruction> = Vec::new();
    assert(instructions@ + decode_range(base, start, end)->0 =~= decode_range(base, start, end)->0);
    while reader.cur_pos < end
        invariant
            base == *old(reader),
            reader.wf(),
            *reader == base.moved(reader.cur_pos as int),
            match decode_range(base, reader.cur_pos, end) {
                Some(rest) => decode_range(base, start, end) == Some(instructions@ + rest),
                None => decode_range(base, start, end) is None,
            },
        decreases if reader.cur_pos < end { end - reader.cur_pos } else { 0 },
    {
        let pos = reader.cur_pos;
        let instruction = GMInstruction::deserialize(reader)?;
        if reader.cur_pos <= pos {
            return Err("Instruction did not advance the reader".to_owned());
        }
        proof {
            let next = reader.cur_pos;
            if next < end {
                match decode_range(base, next, end) {
                    Some(rest) => {
                        assert(seq![instruction] + rest == decode_range(base, pos, end)->0);
                        assert(instructions@.push(instruction) + rest =~= instructions@ + (seq![instruction] + rest));
                    },
                    None => {},
                }
            } else {
                assert(instructions@.push(instruction) + Seq::<GMInstruction>::empty() =~= instructions@ + seq![instruction]);
            }
        }
        instructions.push(instruction);
    }
    assert(instructions@ + Seq::<GMInstruction>::empty() =~= instructions@);
    Ok(instructions)
}

/// Decoding a range does not depend on where the reader stands.
pub proof fn lemma_decode_range_moved<'a>(r: DataReader<'a>, c: int, pos: u32, end: u32)
    ensures
        decode_range(r.moved(c), pos, end) == decode_range(r, pos, end),
    decreases end - pos,
{
    assert(r.moved(c).moved(pos as int) == r.moved(pos as int));
    if pos < end {
        match spec_decode_instruction(r.moved(pos as int)) {
            Some((i, next)) => {
                if pos < next < end {
                    lemma_decode_range_moved(r, c, next, end);
                }
            },
            None => {},
        }
    }
}

/// Code entry `k` of `codes`, whose metadata lies at `ptr`, was read from reader `r`: a child
/// entry (one that shares the instructions of an earlier entry with the same start and a
/// nonempty range) names that entry as its parent and holds no instructions of its own; any
/// other entry holds the instructions decoded from its range.
pub open spec fn code_entry_read<'a>(r: DataReader<'a>, codes: Seq<GMCode>, ranges: Seq<(u32, u32)>, k: int, ptr: u32) -> bool {
    &&& code_meta(r, ptr) matches Some((name, b15, s, e))
    &&& code_with_meta(codes[k], name, b15)
    &&& ranges[k] == (s, e)
    &&& s <= e
    &&& match codes[k].bytecode15_info {
        Some(info) if info.parent is Some => {
            &&& s < e
            &&& codes[k].instructions@.len() == 0
            &&& exists|j: int| #![trigger ranges[j]] 0 <= j < k && info.parent == Some(gm_ref::<GMCode>(j as u32))
                && ranges[j].0 == s && ranges[j].0 < ranges[j].1
        },
        _ => decode_range(r, s, e) == Some(codes[k].instructions@),
    }
}

/// `value` is what the code chunk at reader `before` holds.
pub open spec fn codes_read<'a>(before: DataReader<'a>, after: DataReader<'a>, value: GMCodes) -> bool {
    if before.chunk.end_pos - before.chunk.start_pos == 0 {
        &&& value.codes@.len() == 0
        &&& !value.exists
        &&& after == before
    } else {
        let n = before.word() as int;
        let first = pointer_at(before, before.cur_pos as int, 0) as int;
        let ms = meta_size(before);
        &&& value.exists
        &&& u32_list_readable(before)
        &&& value.codes@.len() == n
        &&& exists|ranges: Seq<(u32, u32)>| {
            &&& ranges.len() == n
            &&& forall|k: int| 0 <= k < n ==> {
                &&& #[trigger] pointer_at(before, before.cur_pos as int, k) == first + k * ms
                &&& code_entry_read(before, value.codes@, ranges, k, pointer_at(before, before.cur_pos as int, k))
            }
        }
        &&& n > 0 ==> after == before.moved(first + n * ms)
    }
}

/// The code chunk at reader `before` can be read: it is empty, or it holds a pointer list
/// whose entries' metadata lie one after another from the first pointer, can each be read,
/// and give ranges whose instructions decode.
pub open spec fn codes_readable<'a>(before: DataReader<'a>) -> bool {
    let n = before.word() as int;
    let p = before.cur_pos as int;
    let first = pointer_at(before, p, 0) as int;
    let ms = meta_size(before);
    ||| before.chunk.end_pos - before.chunk.start_pos == 0
    ||| {
        &&& u32_list_readable(before)
        &&& forall|k: int| 0 <= k < n ==> {
            &&& #[trigger] pointer_at(before, p, k) == first + k * ms
            &&& code_meta(before, pointer_at(before, p, k)) matches Some((name, b15, s, e))
            &&& decode_range(before, s, e) is Some
        }
    }
}

/// Every range of `ranges` decodes from reader `r`.
#[verifier::opaque]
pub open spec fn ranges_decode<'a>(r: DataReader<'a>, ranges: Seq<(u32, u32)>) -> bool {
    forall|j: int| 0 <= j < ranges.len() ==> decode_range(r, (#[trigger] ranges[j]).0, ranges[j].1) is Some
}

impl GMCodes {
    /// Reads the code chunk: the pointer list, then each entry's metadata (which must lie one
    /// after another from the first pointer), then the instructions of each entry; an entry
    /// whose nonempty range starts where an earlier entry's does becomes its child.
    #[verifier::rlimit(100)]
    #[verifier::spinoff_prover]
    pub fn deserialize(reader: &mut DataReader) -> (r: Result<GMCodes, String>)
        requires
            old(reader).wf(),
        ensures
            final(reader).wf(),
            old(reader).only_moved(*final(reader)),
            r matches Ok(v) ==> codes_read(*old(reader), *final(reader), v),
            codes_readable(*old(reader)) ==> r is Ok,
    {
        if reader.get_chunk_length() == 0 {
            return Ok(GMCodes { codes: Vec::new(), exists: false });
        }
        let pointers = reader.read_u32_list()?;
        let count = pointers.len();
        if count == 0 {
            let value = GMCodes { codes: Vec::new(), exists: true };
            proof {
                let e: Seq<(u32, u32)> = Seq::empty();
                assert(e.len() == 0 && forall|k: int| 0 <= k < 0 ==> {
                    &&& #[trigger] pointer_at(*old(reader), old(reader).cur_pos as int, k) == 0
                    &&& code_entry_read(*old(reader), value.codes@, e, k, pointer_at(*old(reader), old(reader).cur_pos as int, k))
                });
            }
            return Ok(value);
        }
        let ghost base = *old(reader);
        let ghost ms = meta_size(base);
        let ghost ok = codes_readable(base);
        reader.cur_pos = pointers[0];
        let ghost first = pointers@[0] as int;
        let mut codes: Vec<GMCode> = Vec::new();
        let mut ranges: Vec<(u32, u32)> = Vec::new();
        let mut k: usize = 0;
        while k < count
            invariant
                base == *old(reader),
                ms == meta_size(base),
                ok == codes_readable(base),
                base.chunk.end_pos - base.chunk.start_pos != 0,
                count == base.word(),
                count == pointers@.len(),
                count > 0,
                first == pointers@[0],
                forall|j: int| 0 <= j < count ==> #[trigger] pointers@[j] == pointer_at(base, base.cur_pos as int, j),
                k <= count,
                reader.wf(),
                *reader == base.moved(reader.cur_pos as int),
                reader.cur_pos == first + k * ms,
                codes@.len() == k,
                ranges@.len() == k,
                forall|j: int| 0 <= j < k ==> {
                    &&& #[trigger] pointers@[j] == first + j * ms
                    &&& code_meta(base, pointers@[j]) matches Some((name, b15, s, e))
                    &&& code_with_meta(codes@[j], name, b15)
                    &&& ranges@[j] == (s, e)
                    &&& s <= e
                    &&& codes@[j].instructions@.len() == 0
                    &&& codes@[j].bytecode15_info matches Some(info) ==> info.parent is None
                },
            decreases count - k,
        {
            proof {
                if ok {
                    assert(pointers@[k as int] == pointer_at(base, base.cur_pos as int, k as int));
                    assert(pointers@[0] == pointer_at(base, base.cur_pos as int, 0));
                }
            }
            reader.assert_pos(pointers[k])?;
            let ghost at = *reader;
            proof {
                assert(code_meta(at, at.cur_pos) == code_meta(base, pointers@[k as int])) by {
                    assert(at.moved(pointers@[k as int] as int) == base.moved(pointers@[k as int] as int));
                }
            }
            let (code, start, end) = read_code_meta(reader)?;
            proof {
                assert(at == base.moved(pointers@[k as int] as int));
                assert(code_meta(at, at.cur_pos) == code_meta(base, pointers@[k as int])) by {
                    assert(at.moved(pointers@[k as int] as int) == base.moved(pointers@[k as int] as int));
                }
                assert(first + (k + 1) * ms == first + k * ms + ms) by (nonlinear_arith);
            }
            codes.push(code);
            ranges.push((start, end));
            k = k + 1;
        }
        let last_pos = reader.cur_pos;
        proof {
            assert forall|j: int| 0 <= j < count implies {
                &&& (#[trigger] codes@[j]).instructions@.len() == 0
                &&& codes@[j].bytecode15_info matches Some(info) ==> info.parent is None
            } by {
                let p = pointers@[j];
            }
            if ok {
                assert forall|j: int| 0 <= j < count implies decode_range(base, (#[trigger] ranges@[j]).0, ranges@[j].1) is Some by {
                    assert(pointers@[j] == pointer_at(base, base.cur_pos as int, j));
                }
                reveal(ranges_decode);
            }
        }
        let mut codes_by_pos: HashMap<u32, u32> = HashMap::new();
        let mut i: usize = 0;
        while i < count
            invariant
                base == *old(reader),
                ok == codes_readable(base),
                ok ==> ranges_decode(base, ranges@),
                count == pointers@.len(),
                count <= u32::MAX,
                i <= count,
                reader.wf(),
                *reader == base.moved(reader.cur_pos as int),
                codes@.len() == count,
                ranges@.len() == count,
                forall|j: int| 0 <= j < count ==> {
                    &&& code_meta(base, #[trigger] pointers@[j]) matches Some((name, b15, s, e))
                    &&& code_with_meta(codes@[j], name, b15)
                    &&& ranges@[j] == (s, e)
                    &&& s <= e
                },
                forall|j: int| i <= j < count ==> {
                    &&& (#[trigger] codes@[j]).instructions@.len() == 0
                    &&& codes@[j].bytecode15_info matches Some(info) ==> info.parent is None
                },
                forall|j: int| 0 <= j < i ==> code_entry_read(base, codes@, ranges@, j, #[trigger] pointers@[j]),
                forall|pos: u32| #[trigger] codes_by_pos@.contains_key(pos) ==> {
                    let j = codes_by_pos@[pos] as int;
                    &&& 0 <= j < i
                    &&& ranges@[j].0 == pos
                    &&& ranges@[j].0 < ranges@[j].1
                },
            decreases count - i,
        {
            let (start, end) = ranges[i];
            proof {
                let p = pointers@[i as int];
            }
            let length = end - start;
            if length > 0 {
                if let Some(parent) = codes_by_pos.get(&start) {
                    if let Some(info) = codes[i].bytecode15_info {
                        let ghost old_codes = codes@;
                        let parent_index: u32 = *parent;
                        let child = GMCode {
                            name: codes[i].name,
                            instructions: Vec::new(),
                            bytecode15_info: Some(GMCodeBytecode15 { parent: Some(GMRef::new(parent_index)), ..info }),
                        };
                        codes.set(i, child);
                        proof {
                            assert forall|j: int| 0 <= j <= i implies code_entry_read(base, codes@, ranges@, j, #[trigger] pointers@[j]) by {
                                if j < i {
                                    assert(codes@[j] == old_codes[j]);
                                } else {
                                    let pj = codes_by_pos@[start] as int;
                                    assert(ranges@[pj].0 == start);
                                }
                            }
                        }
                        i = i + 1;
                        continue;
                    }
                }
                codes_by_pos.insert(start, i as u32);
            }
            let ghost at = *reader;
            proof {
                lemma_decode_range_moved(base, at.cur_pos as int, start, end);
                if ok {
                    assert(decode_range(base, start, end) is Some) by {
                        reveal(ranges_decode);
                        assert(ranges@[i as int] == (start, end));
                    }
                }
            }
            let instructions = read_instructions(reader, start, end)?;
            let ghost old_codes = codes@;
            let root = GMCode { name: codes[i].name, instructions, bytecode15_info: codes[i].bytecode15_info };
            codes.set(i, root);
            proof {
                assert forall|j: int| 0 <= j <= i implies code_entry_read(base, codes@, ranges@, j, #[trigger] pointers@[j]) by {
                    if j < i {
                        assert(codes@[j] == old_codes[j]);
                    }
                }
            }
            i = i + 1;
        }
        reader.cur_pos = last_pos;
        proof {
            assert forall|k: int| 0 <= k < count implies {
                &&& #[trigger] pointer_at(base, base.cur_pos as int, k) == first + k * ms
                &&& code_entry_read(base, codes@, ranges@, k, pointer_at(base, base.cur_pos as int, k))
            } by {
                assert(pointers@[k] == pointer_at(base, base.cur_pos as int, k));
            }
        }
        Ok(GMCodes { codes, exists: true })
    }
}

} // verus!
