//! Variables (chunk `VARI`).

use vstd::prelude::*;
use crate::builder::{lemma_appended_extends, lemma_extends_refl, lemma_extends_trans, lemma_grew_extends, DataBuilder};
use crate::bytes::{spec_i32_at, spec_u32_at, u32_le_bytes};
use crate::code::{build_instance_type, instance_type_of_code, parse_instance_type, GMInstanceType, GMVariableType};
use crate::elements::functions::{insert_occurrences, parse_occurrence_chain, spec_occurrences};
use crate::reader::DataReader;
use crate::refs::GMRef;
use crate::resources::string_at;

verus! {

/// Bytecode 15+ data of a variable.
pub struct GMVariableB15Data {
    pub instance_type: GMInstanceType,
    pub variable_id: i32,
}

/// A variable of the game.
pub struct GMVariable {
    pub name: GMRef<String>,
    pub b15_data: Option<GMVariableB15Data>,
}

/// The variable counts that bytecode 15+ keeps before the variables.
pub struct GMVariablesScuffed {
    pub var_count1: usize,
    pub var_count2: usize,
    pub max_local_var_count: usize,
}

/// All variables of the game: global, local and instance ones mixed.
pub struct GMVariables {
    pub variables: Vec<GMVariable>,
    pub scuffed: Option<GMVariablesScuffed>,
    /// Compiled with YYC: the chunk is empty.
    pub yyc: bool,
    pub exists: bool,
}

/// A variable record: its name, its bytecode 15 data where the bytecode has it, the
/// occurrence count (negative counts as none) and the position of the first occurrence.
pub open spec fn variable_record<'a>(r: DataReader<'a>, p: int) -> Option<(GMVariable, u32, u32)> {
    let b15 = r.bytecode_version >= 15;
    let tail = if b15 { p + 12 } else { p + 4 };
    match string_at(r, p) {
        None => None,
        Some(name) => {
            let b15_data = if b15 {
                match instance_type_of_code(spec_i32_at(r.data@, p + 4) as i16, GMVariableType::Normal) {
                    Some(t) => Some(Some(GMVariableB15Data { instance_type: t, variable_id: spec_i32_at(r.data@, p + 8) })),
                    None => None,
                }
            } else {
                Some(None)
            };
            match b15_data {
                None => None,
                Some(b) => {
                    let count = spec_i32_at(r.data@, tail);
                    Some((GMVariable { name, b15_data: b }, if count < 0 { 0u32 } else { count as u32 }, spec_u32_at(r.data@, tail + 4)))
                },
            }
        },
    }
}

/// The size of a variable record.
pub open spec fn variable_record_len(bytecode_version: u8) -> int {
    if bytecode_version >= 15 { 20 } else { 12 }
}

/// The variable records from `p` on, as long as a whole record fits before the chunk's end.
pub open spec fn variable_records<'a>(r: DataReader<'a>, p: int) -> Option<Seq<(GMVariable, u32, u32)>>
    decreases r.chunk.end_pos - p,
{
    let n = variable_record_len(r.bytecode_version);
    if p + n > r.chunk.end_pos {
        Some(Seq::empty())
    } else if p < r.chunk.start_pos {
        None
    } else {
        match variable_record(r, p) {
            None => None,
            Some(v) => match variable_records(r, p + n) {
                Some(rest) => Some(seq![v] + rest),
                None => None,
            },
        }
    }
}

/// `prefix` put before the records of `rest`, or `None` when `rest` is.
pub open spec fn records_prepend(prefix: Seq<(GMVariable, u32, u32)>, rest: Option<Seq<(GMVariable, u32, u32)>>) -> Option<Seq<(GMVariable, u32, u32)>> {
    match rest {
        Some(r) => Some(prefix + r),
        None => None,
    }
}

/// The occurrences of the variables from index `k` on entered into `m`, each mapped to
/// its variable's index. Each chain must be followed through the code and, unless it ends
/// with -1 (an unused variable), end with the index of the variable's name.
pub open spec fn variable_occurrences_from<'a>(r: DataReader<'a>, recs: Seq<(GMVariable, u32, u32)>, k: int, m: Map<u32, u32>) -> Option<Map<u32, u32>>
    decreases recs.len() - k,
{
    if k < 0 || k >= recs.len() {
        Some(m)
    } else {
        match spec_occurrences(r, recs[k].2 as i32, recs[k].1) {
            None => None,
            Some((occ, id)) => if id != u32::MAX && recs[k].0.name.index != id {
                None
            } else {
                match insert_occurrences(m, occ, k as u32, 0) {
                    None => None,
                    Some(m2) => variable_occurrences_from(r, recs, k + 1, m2),
                }
            },
        }
    }
}

impl<'a> DataReader<'a> {
    /// `after` differs from this reader in its position and its variable occurrences at most.
    pub open spec fn same_but_variables(&self, after: DataReader<'a>) -> bool {
        &&& after.data == self.data
        &&& after.chunk_padding == self.chunk_padding
        &&& after.endianness == self.endianness
        &&& after.chunks == self.chunks
        &&& after.chunk == self.chunk
        &&& after.bytecode_version == self.bytecode_version
        &&& after.gm_version == self.gm_version
        &&& after.general_info_exists == self.general_info_exists
        &&& after.string_occurrences == self.string_occurrences
        &&& after.texture_page_item_occurrences == self.texture_page_item_occurrences
        &&& after.function_occurrences == self.function_occurrences
    }

    /// Enters `position` into the variable occurrence map, mapped to `index`; gives the index
    /// it was mapped to before.
    pub fn insert_variable_occurrence(&mut self, position: u32, index: u32) -> (r: Option<u32>)
        ensures
            old(self).same_but_variables(*final(self)),
            final(self).cur_pos == old(self).cur_pos,
            final(self).variable_occurrences@ == old(self).variable_occurrences@.insert(position, index),
            r == (if old(self).variable_occurrences@.contains_key(position) {
                Some(old(self).variable_occurrences@[position])
            } else {
                None::<u32>
            }),
    {
        self.variable_occurrences.insert(position, index)
    }
}

impl GMVariables {
    /// Whether the data file has a variables chunk.
    pub fn chunk_exists(&self) -> (r: bool)
        ensures
            r == self.exists,
    {
        self.exists
    }

    /// No variables chunk.
    pub fn empty() -> (r: GMVariables)
        ensures
            r.variables@.len() == 0,
            r.scuffed is None,
            !r.yyc,
            !r.exists,
    {
        GMVariables { variables: Vec::new(), scuffed: None, yyc: false, exists: false }
    }

    /// Reads the variables chunk: from bytecode 15 on three counts, then variable records
    /// as long as whole ones fit; then each variable's occurrence chain is followed through
    /// the code and entered into the reader's variable occurrence map. An empty chunk is a
    /// YYC game.
    pub fn deserialize(reader: &mut DataReader) -> (r: Result<GMVariables, String>)
        requires
            old(reader).wf(),
        ensures
            final(reader).wf(),
            old(reader).same_but_variables(*final(reader)),
            old(reader).chunk.end_pos == old(reader).chunk.start_pos ==> {
                &&& r matches Ok(v) && v.exists && v.yyc && v.variables@.len() == 0 && v.scuffed is None
                &&& *final(reader) == *old(reader)
            },
            old(reader).chunk.end_pos != old(reader).chunk.start_pos ==> {
                let b15 = old(reader).bytecode_version >= 15;
                let p = old(reader).cur_pos as int;
                let base = if b15 { p + 12 } else { p };
                let recs = variable_records(*old(reader), base);
                &&& (b15 && !old(reader).can_read(12)) ==> r is Err
                &&& recs is None ==> r is Err
                &&& (recs matches Some(rs) && variable_occurrences_from(*old(reader), rs, 0, old(reader).variable_occurrences@) is None) ==> r is Err
                &&& r matches Ok(v) ==> {
                    &&& !b15 || old(reader).can_read(12)
                    &&& recs is Some
                    &&& v.exists && !v.yyc
                    &&& v.variables@.len() == recs->Some_0.len()
                    &&& forall|k: int| 0 <= k < v.variables@.len() ==> #[trigger] v.variables@[k] == recs->Some_0[k].0
                    &&& v.scuffed == (if b15 {
                        Some(GMVariablesScuffed {
                            var_count1: spec_u32_at(old(reader).data@, p) as usize,
                            var_count2: spec_u32_at(old(reader).data@, p + 4) as usize,
                            max_local_var_count: spec_u32_at(old(reader).data@, p + 8) as usize,
                        })
                    } else {
                        None
                    })
                    &&& variable_occurrences_from(*old(reader), recs->Some_0, 0, old(reader).variable_occurrences@)
                        == Some(final(reader).variable_occurrences@)
                }
            },
    {
        if reader.get_chunk_length() == 0 {
            return Ok(GMVariables { variables: Vec::new(), scuffed: None, yyc: true, exists: true });
        }
        let ghost start = *old(reader);
        let scuffed = if reader.bytecode_version >= 15 {
            let var_count1 = reader.read_usize()?;
            let var_count2 = reader.read_usize()?;
            let max_local_var_count = reader.read_usize()?;
            Some(GMVariablesScuffed { var_count1, var_count2, max_local_var_count })
        } else {
            None
        };
        let record_len: u32 = if reader.bytecode_version >= 15 { 20 } else { 12 };
        let ghost base = reader.cur_pos as int;
        let ghost recs = variable_records(start, base);
        proof {
            match recs {
                Some(rs) => {
                    assert(Seq::<(GMVariable, u32, u32)>::empty() + rs =~= rs);
                },
                None => {},
            }
        }
        let mut variables: Vec<GMVariable> = Vec::new();
        let mut infos: Vec<(u32, u32)> = Vec::new();
        let ghost mut done: Seq<(GMVariable, u32, u32)> = Seq::empty();
        while reader.cur_pos as u64 + record_len as u64 <= reader.chunk.end_pos as u64
            invariant
                reader.wf(),
                start == *old(reader),
                start.chunk.end_pos != start.chunk.start_pos,
                record_len == variable_record_len(start.bytecode_version),
                reader.cur_pos >= base,
                *reader == start.moved(reader.cur_pos as int),
                recs == records_prepend(done, variable_records(start, reader.cur_pos as int)),
                variables@.len() == done.len(),
                infos@.len() == done.len(),
                forall|k: int| 0 <= k < done.len() ==> #[trigger] done[k] == (variables@[k], infos@[k].0, infos@[k].1),
            decreases reader.chunk.end_pos - reader.cur_pos,
        {
            let ghost p = reader.cur_pos as int;
            let name = reader.read_gm_string()?;
            let b15_data = if reader.bytecode_version >= 15 {
                let raw = reader.read_i32()?;
                let instance_type = parse_instance_type(#[verifier::truncate] (raw as i16), GMVariableType::Normal)?;
                let variable_id = reader.read_i32()?;
                Some(GMVariableB15Data { instance_type, variable_id })
            } else {
                None
            };
            let raw_count = reader.read_i32()?;
            let count: u32 = if raw_count < 0 { 0 } else { raw_count as u32 };
            let first = reader.read_u32()?;
            let variable = GMVariable { name, b15_data };
            proof {
                assert(variable_record(start, p) == Some((variable, count, first)));
                let rest = variable_records(start, p + record_len);
                match rest {
                    Some(rs) => {
                        assert(done + (seq![(variable, count, first)] + rs) =~= done.push((variable, count, first)) + rs);
                    },
                    None => {},
                }
                done = done.push((variable, count, first));
            }
            variables.push(variable);
            infos.push((count, first));
        }
        proof {
            assert(variable_records(start, reader.cur_pos as int) == Some(Seq::<(GMVariable, u32, u32)>::empty()));
            assert(done + Seq::<(GMVariable, u32, u32)>::empty() =~= done);
        }
        let ghost end_reader = *reader;
        let mut i: usize = 0;
        while i < infos.len()
            invariant
                reader.wf(),
                start == *old(reader),
                start.chunk.end_pos != start.chunk.start_pos,
                recs == Some(done),
                infos@.len() == done.len(),
                variables@.len() == done.len(),
                forall|k: int| 0 <= k < done.len() ==> #[trigger] done[k] == (variables@[k], infos@[k].0, infos@[k].1),
                i <= infos@.len(),
                end_reader.same_but_variables(*reader),
                reader.cur_pos == end_reader.cur_pos,
                end_reader == start.moved(end_reader.cur_pos as int),
                variable_occurrences_from(start, done, 0, start.variable_occurrences@)
                    == variable_occurrences_from(start, done, i as int, reader.variable_occurrences@),
            decreases infos@.len() - i,
        {
            let (count, first) = infos[i];
            proof {
                assert(spec_occurrences(*reader, first as i32, count) == spec_occurrences(start, first as i32, count));
            }
            let (occurrences, name_id) = parse_occurrence_chain(reader, first as i32, count)?;
            if name_id != 0xFFFF_FFFF && variables[i].name.index != name_id {
                return Err("A variable's occurrences name another string than the variable".to_owned());
            }
            let ghost m0 = reader.variable_occurrences@;
            let mut j: usize = 0;
            while j < occurrences.len()
                invariant
                    reader.wf(),
                    start == *old(reader),
                    start.chunk.end_pos != start.chunk.start_pos,
                    end_reader == start.moved(end_reader.cur_pos as int),
                    j <= occurrences@.len(),
                    end_reader.same_but_variables(*reader),
                    reader.cur_pos == end_reader.cur_pos,
                    insert_occurrences(m0, occurrences@, i as u32, 0)
                        == insert_occurrences(reader.variable_occurrences@, occurrences@, i as u32, j as int),
                decreases occurrences@.len() - j,
            {
                let previous = reader.insert_variable_occurrence(occurrences[j], i as u32);
                if previous.is_some() {
                    return Err("Conflicting occurrence positions while parsing variables".to_owned());
                }
                j = j + 1;
            }
            i = i + 1;
        }
        proof {
            assert forall|k: int| 0 <= k < variables@.len() implies #[trigger] variables@[k] == recs->Some_0[k].0 by {
                assert(done[k] == (variables@[k], infos@[k].0, infos@[k].1));
            }
        }
        Ok(GMVariables { variables, scuffed, yyc: false, exists: true })
    }
}

/// The word that points at a variable's first occurrence: -1 when there is none.
pub open spec fn first_variable_occurrence(occ: Seq<(usize, GMVariableType)>) -> int {
    if occ.len() == 0 { -1 } else { occ[0].0 as int }
}

/// A variable record as written: a name placeholder, the bytecode 15 data where the
/// bytecode has it, the occurrence count and the first occurrence.
pub open spec fn variable_record_bytes(v: GMVariable, b15: bool, count: int, first: int) -> Seq<u8> {
    let extra = if b15 {
        let d = v.b15_data->Some_0;
        u32_le_bytes(crate::code::instance_type_code(d.instance_type) as i32 as u32) + u32_le_bytes(d.variable_id as u32)
    } else {
        Seq::empty()
    };
    u32_le_bytes(0xDEADC0DEu32) + extra + u32_le_bytes(count as u32) + u32_le_bytes(first as i32 as u32)
}

impl GMVariables {
    /// Writes the variables chunk: from bytecode 15 on the three counts, then a record per
    /// variable, whose occurrences are those that writing the code gathered. Nothing for a
    /// YYC game.
    pub fn serialize(&self, builder: &mut DataBuilder) -> (r: Result<(), String>)
        ensures
            final(builder).extends(old(builder)),
            !self.exists || self.yyc ==> r is Ok && *final(builder) == *old(builder),
            self.exists && !self.yyc && old(builder).bytecode_version >= 15 && self.scuffed is None ==> r is Err,
            self.exists && !self.yyc && self.variables@.len() > old(builder).variable_occurrences@.len() ==> r is Err,
            r is Ok && self.exists && !self.yyc ==> {
                let b15 = old(builder).bytecode_version >= 15;
                let n = variable_record_len(old(builder).bytecode_version);
                let start = old(builder).bytes@.len() + if b15 { 12int } else { 0int };
                &&& b15 ==> final(builder).bytes@.subrange(old(builder).bytes@.len() as int, start)
                    == u32_le_bytes(self.scuffed->Some_0.var_count1 as u32)
                    + u32_le_bytes(self.scuffed->Some_0.var_count2 as u32)
                    + u32_le_bytes(self.scuffed->Some_0.max_local_var_count as u32)
                &&& forall|i: int| 0 <= i < self.variables@.len() ==> final(builder).bytes@.subrange(start + n * i, start + n * i + n)
                    == #[trigger] variable_record_bytes(
                        self.variables@[i],
                        b15,
                        old(builder).variable_occurrences@[i]@.len() as int,
                        first_variable_occurrence(old(builder).variable_occurrences@[i]@),
                    )
            },
    {
        proof {
            lemma_extends_refl(*builder);
        }
        if !self.exists || self.yyc {
            return Ok(());
        }
        let b15 = builder.bytecode_version >= 15;
        if b15 {
            match &self.scuffed {
                Some(sc) => {
                    if sc.var_count1 > 0xFFFF_FFFF || sc.var_count2 > 0xFFFF_FFFF || sc.max_local_var_count > 0xFFFF_FFFF {
                        return Err("Variable count does not fit in 32 bits".to_owned());
                    }
                    builder.write_u32(sc.var_count1 as u32);
                    builder.write_u32(sc.var_count2 as u32);
                    builder.write_u32(sc.max_local_var_count as u32);
                    proof {
                        assert(builder.bytes@ =~= old(builder).bytes@ + (u32_le_bytes(sc.var_count1 as u32)
                            + u32_le_bytes(sc.var_count2 as u32) + u32_le_bytes(sc.max_local_var_count as u32)));
                        lemma_appended_extends(*old(builder), *builder, u32_le_bytes(sc.var_count1 as u32)
                            + u32_le_bytes(sc.var_count2 as u32) + u32_le_bytes(sc.max_local_var_count as u32));
                    }
                },
                None => {
                    return Err("Bytecode 15 variable counts are required but missing".to_owned());
                },
            }
        }
        let ghost start = builder.bytes@.len() as int;
        let ghost b0 = *builder;
        let ghost n = variable_record_len(old(builder).bytecode_version);
        proof {
            lemma_extends_refl(b0);
        }
        let mut i: usize = 0;
        while i < self.variables.len()
            invariant
                i <= self.variables@.len(),
                i <= old(builder).variable_occurrences@.len(),
                self.exists && !self.yyc,
                b15 == (old(builder).bytecode_version >= 15),
                n == variable_record_len(old(builder).bytecode_version),
                builder.extends(old(builder)),
                builder.extends(&b0),
                builder.bytecode_version == old(builder).bytecode_version,
                builder.variable_occurrences@ == old(builder).variable_occurrences@,
                builder.bytes@.len() == start + n * i,
                start == old(builder).bytes@.len() + if b15 { 12int } else { 0int },
                b15 ==> builder.bytes@.subrange(old(builder).bytes@.len() as int, start)
                    == u32_le_bytes(self.scuffed->Some_0.var_count1 as u32)
                    + u32_le_bytes(self.scuffed->Some_0.var_count2 as u32)
                    + u32_le_bytes(self.scuffed->Some_0.max_local_var_count as u32),
                forall|k: int| 0 <= k < i ==> builder.bytes@.subrange(start + n * k, start + n * k + n)
                    == #[trigger] variable_record_bytes(
                        self.variables@[k],
                        b15,
                        old(builder).variable_occurrences@[k]@.len() as int,
                        first_variable_occurrence(old(builder).variable_occurrences@[k]@),
                    ),
            decreases self.variables@.len() - i,
        {
            if i >= builder.variable_occurrences.len() {
                return Err("Could not resolve the occurrences of a variable".to_owned());
            }
            let count = builder.variable_occurrences[i].len();
            if count > 0xFFFF_FFFF {
                return Err("Too many occurrences of a variable".to_owned());
            }
            let first: i32 = if count == 0 {
                -1
            } else {
                let o = builder.variable_occurrences[i][0].0;
                if o > 0x7FFF_FFFF {
                    return Err("Variable occurrence position does not fit in 32 bits".to_owned());
                }
                o as i32
            };
            let variable = &self.variables[i];
            if b15 && variable.b15_data.is_none() {
                return Err("Bytecode 15 variable data is required but missing".to_owned());
            }
            let ghost before = *builder;
            let res = builder.write_gm_string(&variable.name);
            if res.is_err() {
                return res;
            }
            if b15 {
                match &variable.b15_data {
                    Some(d) => {
                        builder.write_i32(build_instance_type(&d.instance_type) as i32);
                        builder.write_i32(d.variable_id);
                    },
                    None => {},
                }
            }
            builder.write_u32(count as u32);
            builder.write_i32(first);
            proof {
                let rec = variable_record_bytes(*variable, b15, count as int, first as int);
                assert(builder.bytes@ =~= before.bytes@ + rec);
                lemma_grew_extends(before, *builder, rec);
                lemma_extends_trans(*old(builder), before, *builder);
                lemma_extends_trans(b0, before, *builder);
                assert forall|k: int| 0 <= k < i + 1 implies builder.bytes@.subrange(start + n * k, start + n * k + n)
                    == #[trigger] variable_record_bytes(
                        self.variables@[k],
                        b15,
                        old(builder).variable_occurrences@[k]@.len() as int,
                        first_variable_occurrence(old(builder).variable_occurrences@[k]@),
                    ) by {
                    if k < i {
                        assert(builder.bytes@.subrange(start + n * k, start + n * k + n)
                            =~= before.bytes@.subrange(start + n * k, start + n * k + n));
                    } else {
                        assert(builder.bytes@.subrange(start + n * k, start + n * k + n) =~= rec);
                    }
                }
                if b15 {
                    assert(builder.bytes@.subrange(old(builder).bytes@.len() as int, start)
                        =~= before.bytes@.subrange(old(builder).bytes@.len() as int, start));
                }
            }
            i = i + 1;
        }
        Ok(())
    }
}

} // verus!
