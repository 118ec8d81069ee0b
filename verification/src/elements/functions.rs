//! Functions (chunk `FUNC`) and the local variables of code entries.

use vstd::prelude::*;
use crate::bytes::{spec_i32_at, u32_from_le};
use crate::chunk::GMChunk;
use crate::chunk_table::chunk_named;
use crate::builder::{lemma_appended_extends, lemma_extends_refl, lemma_extends_trans, lemma_prefix_extends, ref_placeholder, DataBuilder};
use crate::bytes::{spec_u32_at, u32_le_bytes};
use crate::element::GMElement;
use crate::lists::{elements_written, simple_list_written, elements_end, elements_readable, list_fits, list_read};
use crate::reader::DataReader;
use crate::refs::{gm_ref, GMRef};
use crate::resources::string_at;
use crate::version::{version_at_least, version_req, GMVersion};

verus! {

/// A function, identified by its name.
pub struct GMFunction {
    pub name: GMRef<String>,
}

/// A local variable of a code entry.
pub struct GMCodeLocalVariable {
    pub index: u32,
    pub name: GMRef<String>,
}

/// The local variables of one code entry.
pub struct GMCodeLocal {
    pub name: GMRef<String>,
    pub variables: Vec<GMCodeLocalVariable>,
}

/// The local variables of all code entries (bytecode 15 until 2024.8).
pub struct GMCodeLocals {
    pub code_locals: Vec<GMCodeLocal>,
    pub exists: bool,
}

/// All functions of the game.
pub struct GMFunctions {
    pub functions: Vec<GMFunction>,
    pub code_locals: GMCodeLocals,
    /// Compiled with YYC: the chunk is empty (bytecode 15 and 16).
    pub is_yyc: bool,
    pub exists: bool,
}

/// The chain of `count` occurrences from `pos` inside chunk `code`: each occurrence holds a
/// word whose low 27 bits are the distance to the next one, which must be positive. Gives
/// the positions and the last such word's low 27 bits (`offset` when `count` is 0).
pub open spec fn occurrence_chain(data: Seq<u8>, code: GMChunk, pos: int, count: nat, offset: i32) -> Option<(Seq<u32>, i32)>
    decreases count,
{
    if count == 0 {
        Some((Seq::empty(), offset))
    } else if !(code.start_pos <= pos && pos + 4 <= code.end_pos) {
        None
    } else {
        let next = spec_i32_at(data, pos) & 0x07FF_FFFFi32;
        if next < 1 {
            None
        } else {
            match occurrence_chain(data, code, pos + next, (count - 1) as nat, next) {
                Some((rest, last)) => Some((seq![pos as u32] + rest, last)),
                None => None,
            }
        }
    }
}

/// `prefix` put before the positions of `rest`, or `None` when `rest` is.
pub open spec fn chain_prepend(prefix: Seq<u32>, rest: Option<(Seq<u32>, i32)>) -> Option<(Seq<u32>, i32)> {
    match rest {
        Some((r, last)) => Some((prefix + r, last)),
        None => None,
    }
}

/// The code chunk, when the chunk table has one that lies within the data.
pub open spec fn code_chunk<'a>(r: DataReader<'a>) -> Option<GMChunk> {
    match chunk_named(r.chunks@, "CODE"@, 0) {
        Some(c) => if c.start_pos <= c.end_pos && c.end_pos <= r.data@.len() { Some(c) } else { None },
        None => None,
    }
}

/// The occurrences of a function or variable whose chain starts at `first` and has `count`
/// entries, with the name string index that the chain's last word holds (24 bits; `first`
/// itself when the chain is empty). Before GameMaker 2.3 `first` points at the instruction,
/// four bytes before the occurrence word.
pub open spec fn spec_occurrences<'a>(r: DataReader<'a>, first: i32, count: u32) -> Option<(Seq<u32>, u32)> {
    if count < 1 {
        Some((Seq::empty(), first as u32))
    } else {
        match code_chunk(r) {
            None => None,
            Some(code) => {
                let start = if version_at_least(r.gm_version, version_req(2, 3)) { first as int } else { first + 4 };
                match occurrence_chain(r.data@, code, start, count as nat, first) {
                    Some((occ, last)) => Some((occ, (last & 0xFF_FFFFi32) as u32)),
                    None => None,
                }
            },
        }
    }
}

/// Follows an occurrence chain through the code chunk; the reader is left as it was.
pub fn parse_occurrence_chain(reader: &mut DataReader, first_occurrence_pos: i32, occurrence_count: u32) -> (r: Result<(Vec<u32>, u32), String>)
    requires
        old(reader).wf(),
    ensures
        *final(reader) == *old(reader),
        r is Ok <==> spec_occurrences(*old(reader), first_occurrence_pos, occurrence_count) is Some,
        r matches Ok((occ, id)) ==> spec_occurrences(*old(reader), first_occurrence_pos, occurrence_count) == Some((occ@, id)),
{
    if occurrence_count < 1 {
        return Ok((Vec::new(), #[verifier::truncate] (first_occurrence_pos as u32)));
    }
    let code_name = "CODE".to_owned();
    proof {
        reveal_strlit("CODE");
    }
    let code = match reader.find_chunk(&code_name) {
        Some(c) => c,
        None => {
            return Err("Chunk CODE not set while parsing occurrences".to_owned());
        },
    };
    if !(code.start_pos <= code.end_pos && code.end_pos as usize <= reader.data.len()) {
        return Err("Chunk CODE lies outside the data".to_owned());
    }
    let extra: i64 = if reader.gm_version.is_version_at_least(&GMVersion::new(2, 3, 0, 0)) { 0 } else { 4 };
    let mut pos: i64 = first_occurrence_pos as i64 + extra;
    let mut occurrences: Vec<u32> = Vec::new();
    let mut offset: i32 = first_occurrence_pos;
    let mut k: u32 = 0;
    let ghost full = occurrence_chain(reader.data@, code, pos as int, occurrence_count as nat, first_occurrence_pos);
    proof {
        assert(code_chunk(*old(reader)) == Some(code));
        assert(spec_occurrences(*old(reader), first_occurrence_pos, occurrence_count) == match full {
            Some((occ, last)) => Some((occ, #[verifier::truncate] ((last & 0xFF_FFFFi32) as u32))),
            None => None,
        });
        match full {
            Some((o, l)) => {
                assert(Seq::<u32>::empty() + o =~= o);
            },
            None => {},
        }
    }
    while k < occurrence_count
        invariant
            *reader == *old(reader),
            spec_occurrences(*old(reader), first_occurrence_pos, occurrence_count) == match full {
                Some((occ, last)) => Some((occ, #[verifier::truncate] ((last & 0xFF_FFFFi32) as u32))),
                None => None,
            },
            code.start_pos <= code.end_pos <= reader.data@.len(),
            k <= occurrence_count,
            pos <= u32::MAX + 0x0800_0000,
            full == chain_prepend(occurrences@, occurrence_chain(reader.data@, code, pos as int, (occurrence_count - k) as nat, offset)),
        decreases occurrence_count - k,
    {
        if pos < code.start_pos as i64 || pos + 4 > code.end_pos as i64 {
            return Err("Occurrence position lies outside the code chunk".to_owned());
        }
        let raw = #[verifier::truncate] (u32_from_le(reader.data, pos as usize) as i32);
        let next = raw & 0x07FF_FFFF;
        assert(next <= 0x07FF_FFFF) by (bit_vector)
            requires
                next == raw & 0x07FF_FFFF,
        ;
        if next < 1 {
            return Err("Next occurrence offset is not positive".to_owned());
        }
        proof {
            let rest = occurrence_chain(reader.data@, code, pos + next, (occurrence_count - k - 1) as nat, next);
            match rest {
                Some((r, l)) => {
                    assert(occurrences@ + (seq![pos as u32] + r) =~= occurrences@.push(pos as u32) + r);
                },
                None => {},
            }
        }
        occurrences.push(pos as u32);
        offset = next;
        pos = pos + next as i64;
        k = k + 1;
    }
    proof {
        assert(occurrences@ + Seq::<u32>::empty() =~= occurrences@);
    }
    Ok((occurrences, #[verifier::truncate] ((offset & 0xFF_FFFF) as u32)))
}

impl GMElement for GMCodeLocalVariable {
    open spec fn readable<'a>(before: DataReader<'a>) -> bool {
        let p = before.cur_pos as int;
        before.can_read(8) && string_at(before, p + 4) is Some
    }

    open spec fn read_end<'a>(before: DataReader<'a>) -> int {
        before.cur_pos + 8
    }

    open spec fn writable(&self, before: DataBuilder) -> bool {
        before.bytes@.len() + 4 <= u32::MAX
    }

    open spec fn written(&self, before: DataBuilder, after: DataBuilder) -> bool {
        after.bytes@ == before.bytes@ + u32_le_bytes(self.index) + ref_placeholder()
    }

    open spec fn deserialized<'a>(before: DataReader<'a>, after: DataReader<'a>, value: GMCodeLocalVariable) -> bool {
        let p = before.cur_pos as int;
        &&& before.can_read(8)
        &&& after == before.moved(p + 8)
        &&& value.index == spec_u32_at(before.data@, p)
        &&& string_at(before, p + 4) == Some(value.name)
    }

    fn deserialize(reader: &mut DataReader) -> (r: Result<GMCodeLocalVariable, String>) {
        let index = reader.read_u32()?;
        let name = reader.read_gm_string()?;
        Ok(GMCodeLocalVariable { index, name })
    }

    fn serialize(&self, builder: &mut DataBuilder) -> (r: Result<(), String>) {
        builder.write_u32(self.index);
        let ghost mid = *builder;
        proof {
            lemma_prefix_extends(*old(builder), mid);
        }
        let res = builder.write_gm_string(&self.name);
        proof {
            lemma_extends_trans(*old(builder), mid, *builder);
        }
        res
    }
}

impl GMElement for GMCodeLocal {
    open spec fn readable<'a>(before: DataReader<'a>) -> bool {
        let p = before.cur_pos as int;
        let n = spec_u32_at(before.data@, p);
        &&& before.can_read(8)
        &&& string_at(before, p + 4) is Some
        &&& list_fits::<GMCodeLocalVariable>(n as int)
        &&& elements_readable::<GMCodeLocalVariable>(before.moved(p + 8), n as nat)
    }

    open spec fn read_end<'a>(before: DataReader<'a>) -> int {
        let p = before.cur_pos as int;
        elements_end::<GMCodeLocalVariable>(before.moved(p + 8), spec_u32_at(before.data@, p) as nat)
    }

    /// The count, the name and eight bytes per local variable fit below 2^32.
    open spec fn writable(&self, before: DataBuilder) -> bool {
        before.bytes@.len() + 8 + 8 * self.variables@.len() <= u32::MAX
    }

    open spec fn written(&self, before: DataBuilder, after: DataBuilder) -> bool {
        exists|b: DataBuilder| {
            &&& b.bytes@ == before.bytes@ + u32_le_bytes(self.variables@.len() as u32) + ref_placeholder()
            &&& #[trigger] elements_written(self.variables@, b, after)
        }
    }

    open spec fn deserialized<'a>(before: DataReader<'a>, after: DataReader<'a>, value: GMCodeLocal) -> bool {
        let p = before.cur_pos as int;
        &&& before.can_read(8)
        &&& value.variables@.len() == spec_u32_at(before.data@, p)
        &&& string_at(before, p + 4) == Some(value.name)
        &&& list_read(before.moved(p + 8), after, value.variables@)
    }

    fn deserialize(reader: &mut DataReader) -> (r: Result<GMCodeLocal, String>) {
        let count = reader.read_usize()?;
        let name = reader.read_gm_string()?;
        let variables: Vec<GMCodeLocalVariable> = reader.read_elements(count)?;
        Ok(GMCodeLocal { name, variables })
    }

    fn serialize(&self, builder: &mut DataBuilder) -> (r: Result<(), String>) {
        let res = builder.write_usize(self.variables.len());
        if res.is_err() {
            proof {
                lemma_extends_refl(*builder);
            }
            return res;
        }
        let ghost b1 = *builder;
        proof {
            lemma_prefix_extends(*old(builder), b1);
        }
        builder.write_gm_string(&self.name)?;
        let ghost b2 = *builder;
        proof {
            lemma_extends_trans(*old(builder), b1, b2);
        }
        let mut i: usize = 0;
        assert(self.variables@.take(0) =~= Seq::<GMCodeLocalVariable>::empty());
        while i < self.variables.len()
            invariant
                i <= self.variables@.len(),
                builder.extends(old(builder)),
                elements_written(self.variables@.take(i as int), b2, *builder),
                builder.bytes@.len() == b2.bytes@.len() + 8 * i,
                b2.bytes@.len() == old(builder).bytes@.len() + 8,
            decreases self.variables@.len() - i,
        {
            let ghost before = *builder;
            let res = self.variables[i].serialize(builder);
            proof {
                lemma_extends_trans(*old(builder), before, *builder);
            }
            res?;
            proof {
                let next = self.variables@.take(i + 1);
                assert(next.drop_last() =~= self.variables@.take(i as int));
                assert(next.len() != 0 && next.last() == self.variables@[i as int]);
                assert(elements_written(next, b2, *builder));
            }
            i = i + 1;
        }
        assert(self.variables@.take(self.variables@.len() as int) =~= self.variables@);
        Ok(())
    }
}

/// Whether code entries list their local variables: bytecode 15 and later, before
/// GameMaker 2024.8.
pub open spec fn has_code_locals(bytecode_version: u8, gm_version: GMVersion) -> bool {
    bytecode_version > 14 && !version_at_least(gm_version, version_req(2024, 8))
}

/// `v` is what reading the local variable lists moved `before` to `after` gave.
pub open spec fn code_locals_read<'a>(before: DataReader<'a>, after: DataReader<'a>, v: GMCodeLocals) -> bool {
    if !has_code_locals(before.bytecode_version, before.gm_version) {
        !v.exists && v.code_locals@.len() == 0 && after == before
    } else {
        &&& v.exists
        &&& before.can_read(4)
        &&& v.code_locals@.len() == before.word()
        &&& list_read(before.moved(before.cur_pos + 4), after, v.code_locals@)
    }
}

impl GMCodeLocals {
    /// No local variable lists.
    pub fn empty() -> (r: GMCodeLocals)
        ensures
            r.code_locals@.len() == 0,
            !r.exists,
    {
        GMCodeLocals { code_locals: Vec::new(), exists: false }
    }

    /// Reads the local variable lists of all code entries (a list with a 32-bit count), where
    /// the versions have them.
    pub fn deserialize(reader: &mut DataReader) -> (r: Result<GMCodeLocals, String>)
        requires
            old(reader).wf(),
        ensures
            final(reader).wf(),
            final(reader).data == old(reader).data,
            old(reader).only_moved(*final(reader)),
            !has_code_locals(old(reader).bytecode_version, old(reader).gm_version) ==> r is Ok,
            has_code_locals(old(reader).bytecode_version, old(reader).gm_version) && !old(reader).can_read(4) ==> r is Err,
            r matches Ok(v) ==> code_locals_read(*old(reader), *final(reader), v),
    {
        if reader.bytecode_version <= 14 || reader.gm_version.is_version_at_least(&GMVersion::new(2024, 8, 0, 0)) {
            return Ok(GMCodeLocals::empty());
        }
        let code_locals: Vec<GMCodeLocal> = reader.read_simple_list()?;
        Ok(GMCodeLocals { code_locals, exists: true })
    }

    /// Writes the local variable lists, if they exist.
    pub fn serialize(&self, builder: &mut DataBuilder) -> (r: Result<(), String>)
        ensures
            final(builder).extends(old(builder)),
            !self.exists ==> r is Ok && *final(builder) == *old(builder),
            self.exists && r is Ok ==> simple_list_written(self.code_locals@, *old(builder), *final(builder)),
            self.exists && self.code_locals@.len() > u32::MAX ==> r is Err,
    {
        if !self.exists {
            proof {
                lemma_extends_refl(*builder);
            }
            return Ok(());
        }
        builder.write_simple_list(&self.code_locals)
    }
}

/// The occurrences `occ` from index `j` on entered into `m`, each mapped to `index`; `None`
/// when one of them is there already.
pub open spec fn insert_occurrences(m: Map<u32, u32>, occ: Seq<u32>, index: u32, j: int) -> Option<Map<u32, u32>>
    decreases occ.len() - j,
{
    if j < 0 || j >= occ.len() {
        Some(m)
    } else if m.contains_key(occ[j]) {
        None
    } else {
        insert_occurrences(m.insert(occ[j], index), occ, index, j + 1)
    }
}

/// The function records from index `i` up to `count`, the record of function `i` at
/// `base + 12 * i`: the position of its name, its occurrence count and its first
/// occurrence. Each name must be a string read so far, each occurrence chain must be
/// followed through the code and end with the name's index, and each occurrence is entered
/// into `m`, mapped to the function's index. Gives the functions and the map after them.
pub open spec fn functions_from<'a>(r: DataReader<'a>, base: int, i: int, count: int, m: Map<u32, u32>) -> Option<(Seq<GMFunction>, Map<u32, u32>)>
    decreases count - i,
{
    if i < 0 || i >= count {
        Some((Seq::empty(), m))
    } else {
        let p = base + 12 * i;
        if !(r.chunk.start_pos <= p && p + 12 <= r.chunk.end_pos) {
            None
        } else {
            match string_at(r, p) {
                None => None,
                Some(name) => match spec_occurrences(r, spec_i32_at(r.data@, p + 8), spec_u32_at(r.data@, p + 4)) {
                    None => None,
                    Some((occ, id)) => if name.index != id {
                        None
                    } else {
                        match insert_occurrences(m, occ, i as u32, 0) {
                            None => None,
                            Some(m2) => match functions_from(r, base, i + 1, count, m2) {
                                Some((fs, m3)) => Some((seq![GMFunction { name }] + fs, m3)),
                                None => None,
                            },
                        }
                    },
                },
            }
        }
    }
}

/// `prefix` put before the functions of `rest`, or `None` when `rest` is.
pub open spec fn functions_prepend(prefix: Seq<GMFunction>, rest: Option<(Seq<GMFunction>, Map<u32, u32>)>) -> Option<(Seq<GMFunction>, Map<u32, u32>)> {
    match rest {
        Some((fs, m)) => Some((prefix + fs, m)),
        None => None,
    }
}

/// Where the function records start and how many there are: before bytecode 15 the
/// records fill the chunk, 12 bytes each; later a 32-bit count precedes them.
pub open spec fn function_records<'a>(r: DataReader<'a>) -> Option<(int, int)> {
    if r.bytecode_version <= 14 {
        Some((r.cur_pos as int, (r.chunk.end_pos - r.chunk.start_pos) / 12))
    } else if r.can_read(4) {
        Some((r.cur_pos + 4, r.word() as int))
    } else {
        None
    }
}

impl<'a> DataReader<'a> {
    /// `after` differs from this reader in its position and its function occurrences at most.
    pub open spec fn same_but_functions(&self, after: DataReader<'a>) -> bool {
        &&& after.data == self.data
        &&& after.chunk_padding == self.chunk_padding
        &&& after.endianness == self.endianness
        &&& after.chunks == self.chunks
        &&& after.chunk == self.chunk
        &&& after.bytecode_version == self.bytecode_version
        &&& after.gm_version == self.gm_version
        &&& after.general_info_exists == self.general_info_exists
        &&& after.string_occurrences == self.string_occurrences
        &&& after.texture_page_item_occurrences == self.texture_page_item_occurrences
        &&& after.variable_occurrences == self.variable_occurrences
    }

    /// Enters `position` into the function occurrence map, mapped to `index`; gives the index
    /// it was mapped to before.
    pub fn insert_function_occurrence(&mut self, position: u32, index: u32) -> (r: Option<u32>)
        ensures
            old(self).same_but_functions(*final(self)),
            final(self).cur_pos == old(self).cur_pos,
            final(self).function_occurrences@ == old(self).function_occurrences@.insert(position, index),
            r == (if old(self).function_occurrences@.contains_key(position) {
                Some(old(self).function_occurrences@[position])
            } else {
                None::<u32>
            }),
    {
        self.function_occurrences.insert(position, index)
    }
}

impl GMFunctions {
    /// Whether the data file has a functions chunk.
    pub fn chunk_exists(&self) -> (r: bool)
        ensures
            r == self.exists,
    {
        self.exists
    }

    /// No functions chunk.
    pub fn empty() -> (r: GMFunctions)
        ensures
            r.functions@.len() == 0,
            !r.exists,
            !r.is_yyc,
            !r.code_locals.exists,
            r.code_locals.code_locals@.len() == 0,
    {
        GMFunctions { functions: Vec::new(), code_locals: GMCodeLocals::empty(), is_yyc: false, exists: false }
    }

    /// Reads the functions chunk: the function records, whose occurrence chains are
    /// followed through the code and entered into the reader's function occurrence map, then
    /// the code entries' local variables. An empty chunk from bytecode 15 on is a YYC game.
    pub fn deserialize(reader: &mut DataReader) -> (r: Result<GMFunctions, String>)
        requires
            old(reader).wf(),
        ensures
            final(reader).wf(),
            final(reader).data == old(reader).data,
            old(reader).same_but_functions(*final(reader)),
            old(reader).chunk.end_pos == old(reader).chunk.start_pos && old(reader).bytecode_version >= 15 ==> {
                &&& r matches Ok(v) && v.exists && v.is_yyc && v.functions@.len() == 0 && !v.code_locals.exists
                &&& *final(reader) == *old(reader)
            },
            !(old(reader).chunk.end_pos == old(reader).chunk.start_pos && old(reader).bytecode_version >= 15) ==> {
                &&& (match function_records(*old(reader)) {
                    Some((base, count)) => functions_from(*old(reader), base, 0, count, old(reader).function_occurrences@) is None,
                    None => true,
                }) ==> r is Err
                &&& r matches Ok(v) ==> {
                    let (base, count) = function_records(*old(reader))->Some_0;
                    let (fs, m) = functions_from(*old(reader), base, 0, count, old(reader).function_occurrences@)->Some_0;
                    &&& function_records(*old(reader)) is Some
                    &&& functions_from(*old(reader), base, 0, count, old(reader).function_occurrences@) is Some
                    &&& v.exists && !v.is_yyc
                    &&& v.functions@ == fs
                    &&& final(reader).function_occurrences@ == m
                    &&& code_locals_read(
                        DataReader {
                            cur_pos: (base + 12 * count) as u32,
                            function_occurrences: final(reader).function_occurrences,
                            ..*old(reader)
                        },
                        *final(reader),
                        v.code_locals,
                    )
                }
            },
    {
        if reader.get_chunk_length() == 0 && reader.bytecode_version >= 15 {
            return Ok(GMFunctions {
                functions: Vec::new(),
                code_locals: GMCodeLocals { code_locals: Vec::new(), exists: false },
                is_yyc: true,
                exists: true,
            });
        }
        let count: u32 = if reader.bytecode_version <= 14 {
            reader.get_chunk_length() / 12
        } else {
            reader.read_u32()?
        };
        let ghost base = reader.cur_pos as int;
        let ghost start = *old(reader);
        let ghost full = functions_from(start, base, 0, count as int, start.function_occurrences@);
        proof {
            assert(function_records(start) == Some((base, count as int)));
            match full {
                Some((fs, m)) => {
                    assert(Seq::<GMFunction>::empty() + fs =~= fs);
                },
                None => {},
            }
        }
        let mut functions: Vec<GMFunction> = Vec::new();
        let mut i: u32 = 0;
        while i < count
            invariant
                reader.wf(),
                i <= count,
                reader.cur_pos == base + 12 * i,
                start == *old(reader),
                !(start.chunk.end_pos == start.chunk.start_pos && start.bytecode_version >= 15),
                start.same_but_functions(*reader),
                full == functions_prepend(functions@, functions_from(start, base, i as int, count as int, reader.function_occurrences@)),
            decreases count - i,
        {
            let ghost p = reader.cur_pos as int;
            let ghost m0 = reader.function_occurrences@;
            if reader.cur_pos < reader.chunk.start_pos || reader.cur_pos as u64 + 12 > reader.chunk.end_pos as u64 {
                return Err("Function record lies outside the chunk".to_owned());
            }
            let name = reader.read_gm_string()?;
            let occurrence_count = reader.read_u32()?;
            let first_occurrence = reader.read_i32()?;
            proof {
                assert(string_at(start, p) == Some(name));
                assert(occurrence_count == spec_u32_at(start.data@, p + 4));
                assert(first_occurrence == spec_i32_at(start.data@, p + 8));
                assert(spec_occurrences(*reader, first_occurrence, occurrence_count) == spec_occurrences(start, first_occurrence, occurrence_count));
            }
            let (occurrences, name_id) = parse_occurrence_chain(reader, first_occurrence, occurrence_count)?;
            if name.index != name_id {
                return Err("A function's occurrences name another string than the function".to_owned());
            }
            let ghost rest_from = |mm: Map<u32, u32>| functions_from(start, base, i + 1, count as int, mm);
            let mut j: usize = 0;
            while j < occurrences.len()
                invariant
                    reader.wf(),
                    j <= occurrences@.len(),
                    start == *old(reader),
                !(start.chunk.end_pos == start.chunk.start_pos && start.bytecode_version >= 15),
                start.same_but_functions(*reader),
                    reader.cur_pos == p + 12,
                    insert_occurrences(m0, occurrences@, i, 0) == insert_occurrences(reader.function_occurrences@, occurrences@, i, j as int),
                decreases occurrences@.len() - j,
            {
                let position = occurrences[j];
                let previous = reader.insert_function_occurrence(position, i);
                if previous.is_some() {
                    return Err("Conflicting occurrence positions while parsing functions".to_owned());
                }
                j = j + 1;
            }
            functions.push(GMFunction { name });
            proof {
                let rest = functions_from(start, base, i + 1, count as int, reader.function_occurrences@);
                match rest {
                    Some((fs, m)) => {
                        assert(functions@.drop_last() + (seq![GMFunction { name }] + fs) =~= functions@ + fs);
                    },
                    None => {},
                }
            }
            i = i + 1;
        }
        let code_locals = GMCodeLocals::deserialize(reader)?;
        proof {
            assert(functions@ + Seq::<GMFunction>::empty() =~= functions@);
        }
        Ok(GMFunctions { functions, code_locals, is_yyc: false, exists: true })
    }
}

/// The word that points at a function's first occurrence: -1 when there is none; from
/// GameMaker 2.3 on the occurrence's own word, four bytes after the instruction.
pub open spec fn first_occurrence_word(occ: Seq<usize>, at_least_2_3: bool) -> int {
    if occ.len() == 0 {
        -1
    } else if at_least_2_3 {
        occ[0] + 4
    } else {
        occ[0] as int
    }
}

/// A function record as written: a name placeholder, the occurrence count and the first
/// occurrence.
pub open spec fn function_record_bytes(count: int, first: int) -> Seq<u8> {
    u32_le_bytes(0xDEADC0DEu32) + u32_le_bytes(count as u32) + u32_le_bytes(first as i32 as u32)
}

impl GMFunctions {
    /// Writes the functions chunk: from bytecode 15 on the count, then a record per
    /// function, whose occurrences are those that writing the code gathered, then (from
    /// bytecode 15 until 2024.8) the local variable lists. Nothing for a YYC game.
    pub fn serialize(&self, builder: &mut DataBuilder) -> (r: Result<(), String>)
        ensures
            final(builder).extends(old(builder)),
            !self.exists || self.is_yyc ==> r is Ok && *final(builder) == *old(builder),
            self.exists && !self.is_yyc && self.functions@.len() > old(builder).function_occurrences@.len() ==> r is Err,
            r is Ok && self.exists && !self.is_yyc ==> {
                let header = if old(builder).bytecode_version >= 15 { 4int } else { 0int };
                let start = old(builder).bytes@.len() + header;
                let new_style = version_at_least(old(builder).gm_version, version_req(2, 3));
                &&& old(builder).bytecode_version >= 15 ==> final(builder).bytes@.subrange(
                    old(builder).bytes@.len() as int, start) == u32_le_bytes(self.functions@.len() as u32)
                &&& forall|i: int| 0 <= i < self.functions@.len() ==> final(builder).bytes@.subrange(start + 12 * i, start + 12 * i + 12)
                    == #[trigger] function_record_bytes(
                        old(builder).function_occurrences@[i]@.len() as int,
                        first_occurrence_word(old(builder).function_occurrences@[i]@, new_style),
                    )
                &&& has_code_locals(old(builder).bytecode_version, old(builder).gm_version) ==> self.code_locals.exists
            },
    {
        proof {
            lemma_extends_refl(*builder);
        }
        if !self.exists || self.is_yyc {
            return Ok(());
        }
        if builder.bytecode_version >= 15 {
            let res = builder.write_usize(self.functions.len());
            if res.is_err() {
                return res;
            }
            proof {
                lemma_appended_extends(*old(builder), *builder, u32_le_bytes(self.functions@.len() as u32));
            }
        }
        let ghost start = builder.bytes@.len() as int;
        let ghost b0 = *builder;
        proof {
            lemma_extends_refl(b0);
        }
        let new_style = builder.is_gm_version_at_least(&GMVersion::new(2, 3, 0, 0));
        let mut i: usize = 0;
        while i < self.functions.len()
            invariant
                i <= self.functions@.len(),
                i <= old(builder).function_occurrences@.len(),
                self.exists && !self.is_yyc,
                builder.extends(old(builder)),
                builder.extends(&b0),
                builder.function_occurrences@ == old(builder).function_occurrences@,
                builder.bytes@.len() == start + 12 * i,
                start == old(builder).bytes@.len() + (if old(builder).bytecode_version >= 15 { 4int } else { 0int }),
                new_style == version_at_least(old(builder).gm_version, version_req(2, 3)),
                old(builder).bytecode_version >= 15 ==> builder.bytes@.subrange(
                    old(builder).bytes@.len() as int, start) == u32_le_bytes(self.functions@.len() as u32),
                forall|k: int| 0 <= k < i ==> builder.bytes@.subrange(start + 12 * k, start + 12 * k + 12)
                    == #[trigger] function_record_bytes(
                        old(builder).function_occurrences@[k]@.len() as int,
                        first_occurrence_word(old(builder).function_occurrences@[k]@, new_style),
                    ),
            decreases self.functions@.len() - i,
        {
            if i >= builder.function_occurrences.len() {
                return Err("Could not resolve the occurrences of a function".to_owned());
            }
            let count = builder.function_occurrences[i].len();
            if count > 0xFFFF_FFFF {
                return Err("Too many occurrences of a function".to_owned());
            }
            let first: i32 = if count == 0 {
                -1
            } else {
                let o = builder.function_occurrences[i][0];
                let shift: usize = if new_style { 4 } else { 0 };
                if o > 0x7FFF_FFFF - shift {
                    return Err("Function occurrence position does not fit in 32 bits".to_owned());
                }
                (o + shift) as i32
            };
            assert(first as int == first_occurrence_word(old(builder).function_occurrences@[i as int]@, new_style));
            assert(count == old(builder).function_occurrences@[i as int]@.len());
            let ghost before = *builder;
            let res = builder.write_gm_string(&self.functions[i].name);
            if res.is_err() {
                return res;
            }
            let ghost b1 = *builder;
            builder.write_u32(count as u32);
            let ghost b2 = *builder;
            builder.write_i32(first);
            proof {
                lemma_appended_extends(b1, b2, u32_le_bytes(count as u32));
                lemma_appended_extends(b2, *builder, u32_le_bytes(first as u32));
                lemma_extends_trans(before, b1, b2);
                lemma_extends_trans(before, b2, *builder);
                lemma_extends_trans(*old(builder), before, *builder);
                lemma_extends_trans(b0, before, *builder);
                assert(builder.bytes@ == before.bytes@ + function_record_bytes(count as int, first as int));
                assert forall|k: int| 0 <= k < i + 1 implies builder.bytes@.subrange(start + 12 * k, start + 12 * k + 12)
                    == #[trigger] function_record_bytes(
                        old(builder).function_occurrences@[k]@.len() as int,
                        first_occurrence_word(old(builder).function_occurrences@[k]@, new_style),
                    ) by {
                    if k < i {
                        assert(builder.bytes@.subrange(start + 12 * k, start + 12 * k + 12)
                            =~= before.bytes@.subrange(start + 12 * k, start + 12 * k + 12));
                    } else {
                        assert(builder.bytes@.subrange(start + 12 * k, start + 12 * k + 12)
                            =~= function_record_bytes(count as int, first as int));
                    }
                }
                if old(builder).bytecode_version >= 15 {
                    assert(builder.bytes@.subrange(old(builder).bytes@.len() as int, start)
                        =~= before.bytes@.subrange(old(builder).bytes@.len() as int, start));
                }
            }
            i = i + 1;
        }
        if builder.bytecode_version >= 15 && !builder.is_gm_version_at_least(&GMVersion::new(2024, 8, 0, 0)) {
            if !self.code_locals.exists {
                return Err("Code locals do not exist in bytecode version 15+".to_owned());
            }
            let ghost before = *builder;
            let res = self.code_locals.serialize(builder);
            proof {
                lemma_extends_trans(*old(builder), before, *builder);
                assert forall|k: int| 0 <= k < self.functions@.len() implies builder.bytes@.subrange(start + 12 * k, start + 12 * k + 12)
                    == #[trigger] function_record_bytes(
                        old(builder).function_occurrences@[k]@.len() as int,
                        first_occurrence_word(old(builder).function_occurrences@[k]@, new_style),
                    ) by {
                    assert(builder.bytes@.subrange(start + 12 * k, start + 12 * k + 12)
                        =~= before.bytes@.subrange(start + 12 * k, start + 12 * k + 12));
                }
                if old(builder).bytecode_version >= 15 {
                    assert(builder.bytes@.subrange(old(builder).bytes@.len() as int, start)
                        =~= before.bytes@.subrange(old(builder).bytes@.len() as int, start));
                }
            }
            return res;
        }
        Ok(())
    }
}

} // verus!
