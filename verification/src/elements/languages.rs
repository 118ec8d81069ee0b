//! Language info (chunk `LANG`): the text of each localized entry in each language.

use vstd::prelude::*;
use crate::builder::{lemma_extends_refl, lemma_extends_trans, lemma_prefix_extends, ref_placeholder, DataBuilder};
use crate::bytes::u32_le_bytes;
use crate::lists::placeholders;
use crate::bytes::spec_u32_at;
use crate::element::{GMChunkElement, GMElement};
use crate::reader::DataReader;
use crate::refs::GMRef;
use crate::resources::string_at;

verus! {

/// The languages of a data file and the ids of the entries they translate.
pub struct GMLanguageInfo {
    pub unknown1: u32,
    pub languages: Vec<GMLanguageData>,
    pub entry_ids: Vec<GMRef<String>>,
    pub exists: bool,
}

/// A language: its name, region, and the text of every entry.
pub struct GMLanguageData {
    pub name: GMRef<String>,
    pub region: GMRef<String>,
    pub entries: Vec<GMRef<String>>,
}

/// `values` are the `count` strings whose position words start at `pos`.
pub open spec fn strings_at<'a>(r: DataReader<'a>, pos: int, values: Seq<GMRef<String>>) -> bool {
    forall|k: int| 0 <= k < values.len() ==> string_at(r, pos + 4 * k) == Some(#[trigger] values[k])
}

/// The `count` position words from `pos` each name a string read so far.
pub open spec fn strings_readable<'a>(r: DataReader<'a>, pos: int, count: int) -> bool {
    forall|k: int| 0 <= k < count ==> (#[trigger] string_at(r, pos + 4 * k)) is Some
}

/// Where language `j` starts, given the chunk's start and its entry count.
pub open spec fn language_pos(start: int, entries: int, j: int) -> int {
    start + 12 + 4 * entries + j * (8 + 4 * entries)
}

impl GMChunkElement for GMLanguageInfo {
    fn empty() -> (r: GMLanguageInfo)
        ensures
            !r.exists,
            r.languages@.len() == 0 && r.entry_ids@.len() == 0,
    {
        GMLanguageInfo { unknown1: 0, languages: Vec::new(), entry_ids: Vec::new(), exists: false }
    }

    fn chunk_exists(&self) -> (r: bool)
        ensures
            r == self.exists,
    {
        self.exists
    }
}

/// Reads `count` string references one after another.
fn read_strings(reader: &mut DataReader, count: u32) -> (r: Result<Vec<GMRef<String>>, String>)
    requires
        old(reader).wf(),
    ensures
        final(reader).wf(),
        final(reader).data == old(reader).data,
        old(reader).only_moved(*final(reader)),
        r matches Ok(v) ==> {
            &&& v@.len() == count
            &&& (count == 0 || old(reader).can_read(4 * count as int))
            &&& *final(reader) == old(reader).moved(old(reader).cur_pos + 4 * count)
            &&& strings_at(*old(reader), old(reader).cur_pos as int, v@)
        },
        (count == 0 || old(reader).can_read(4 * count as int))
            && strings_readable(*old(reader), old(reader).cur_pos as int, count as int) ==> r is Ok,
{
    let mut values: Vec<GMRef<String>> = Vec::new();
    let mut i: u32 = 0;
    let ghost fits = (count == 0 || old(reader).can_read(4 * count as int))
        && strings_readable(*old(reader), old(reader).cur_pos as int, count as int);
    while i < count
        invariant
            i <= count,
            fits == ((count == 0 || old(reader).can_read(4 * count as int))
                && strings_readable(*old(reader), old(reader).cur_pos as int, count as int)),
            reader.wf(),
            values@.len() == i,
            i == 0 || old(reader).can_read(4 * i as int),
            *reader == old(reader).moved(old(reader).cur_pos + 4 * i),
            strings_at(*old(reader), old(reader).cur_pos as int, values@),
        decreases count - i,
    {
        proof {
            if fits {
                assert(string_at(*old(reader), old(reader).cur_pos + 4 * i) is Some);
            }
        }
        let s = reader.read_gm_string()?;
        values.push(s);
        i = i + 1;
    }
    Ok(values)
}

/// The bytes written for the languages: per language, placeholders for its name, its region
/// and each of its entries.
pub open spec fn languages_bytes(ls: Seq<GMLanguageData>) -> Seq<u8>
    decreases ls.len(),
{
    if ls.len() == 0 {
        Seq::empty()
    } else {
        languages_bytes(ls.drop_last()) + ref_placeholder() + ref_placeholder() + placeholders(ls.last().entries@.len())
    }
}

/// The number of bytes written for the languages.
pub open spec fn languages_size(ls: Seq<GMLanguageData>) -> nat
    decreases ls.len(),
{
    if ls.len() == 0 { 0 } else { languages_size(ls.drop_last()) + 8 + 4 * ls.last().entries@.len() }
}

proof fn lemma_placeholders_len(n: nat)
    ensures
        placeholders(n).len() == 4 * n,
    decreases n,
{
    if n > 0 {
        lemma_placeholders_len((n - 1) as nat);
    }
}

proof fn lemma_languages_size_bound(ls: Seq<GMLanguageData>)
    ensures
        languages_size(ls) >= 8 * ls.len(),
    decreases ls.len(),
{
    if ls.len() > 0 {
        lemma_languages_size_bound(ls.drop_last());
    }
}

proof fn lemma_languages_len(ls: Seq<GMLanguageData>)
    ensures
        languages_bytes(ls).len() == languages_size(ls),
    decreases ls.len(),
{
    if ls.len() > 0 {
        lemma_languages_len(ls.drop_last());
        lemma_placeholders_len(ls.last().entries@.len());
    }
}

proof fn lemma_languages_prefix(ls: Seq<GMLanguageData>, j: int)
    requires
        0 <= j <= ls.len(),
    ensures
        languages_size(ls.take(j)) <= languages_size(ls),
    decreases ls.len() - j,
{
    if j < ls.len() {
        lemma_languages_prefix(ls, j + 1);
        assert(ls.take(j + 1).drop_last() =~= ls.take(j));
    } else {
        assert(ls.take(j) =~= ls);
    }
}

/// Writes a placeholder for each string reference of `refs`.
fn write_string_refs(builder: &mut DataBuilder, refs: &Vec<GMRef<String>>) -> (r: Result<(), String>)
    ensures
        final(builder).extends(old(builder)),
        r is Ok ==> final(builder).bytes@ == old(builder).bytes@ + placeholders(refs@.len()),
        old(builder).bytes@.len() + 4 * refs@.len() <= u32::MAX ==> r is Ok,
{
    proof {
        lemma_extends_refl(*builder);
    }
    let mut i: usize = 0;
    while i < refs.len()
        invariant
            i <= refs@.len(),
            builder.extends(old(builder)),
            builder.bytes@ == old(builder).bytes@ + placeholders(i as nat),
        decreases refs@.len() - i,
    {
        let ghost before = *builder;
        proof {
            lemma_placeholders_len(i as nat);
        }
        let res = builder.write_gm_string(&refs[i]);
        proof {
            lemma_extends_trans(*old(builder), before, *builder);
        }
        res?;
        proof {
            assert(builder.bytes@ =~= old(builder).bytes@ + placeholders((i + 1) as nat));
        }
        i = i + 1;
    }
    Ok(())
}

impl GMElement for GMLanguageInfo {
    open spec fn readable<'a>(before: DataReader<'a>) -> bool {
        let p = before.cur_pos as int;
        let d = before.data@;
        let n = spec_u32_at(d, p + 4) as int;
        let e = spec_u32_at(d, p + 8) as int;
        &&& before.can_read(12)
        &&& before.can_read(language_pos(0, e, n))
        &&& strings_readable(before, p + 12, e)
        &&& forall|j: int| 0 <= j < n ==> {
            let base = #[trigger] language_pos(p, e, j);
            &&& string_at(before, base) is Some
            &&& string_at(before, base + 4) is Some
            &&& strings_readable(before, base + 8, e)
        }
    }

    open spec fn read_end<'a>(before: DataReader<'a>) -> int {
        let p = before.cur_pos as int;
        let d = before.data@;
        p + language_pos(0, spec_u32_at(d, p + 8) as int, spec_u32_at(d, p + 4) as int)
    }

    /// The three counts and every string reference fit below 2^32.
    open spec fn writable(&self, before: DataBuilder) -> bool {
        before.bytes@.len() + 12 + 4 * self.entry_ids@.len() + languages_size(self.languages@) <= u32::MAX
    }

    /// The unknown value, the counts of languages and entries, a placeholder per entry id,
    /// then per language placeholders for its name, region and entries.
    open spec fn written(&self, before: DataBuilder, after: DataBuilder) -> bool {
        after.bytes@ == before.bytes@ + u32_le_bytes(self.unknown1) + u32_le_bytes(self.languages@.len() as u32)
            + u32_le_bytes(self.entry_ids@.len() as u32) + placeholders(self.entry_ids@.len())
            + languages_bytes(self.languages@)
    }

    open spec fn deserialized<'a>(before: DataReader<'a>, after: DataReader<'a>, value: GMLanguageInfo) -> bool {
        let p = before.cur_pos as int;
        let e = value.entry_ids@.len() as int;
        let n = value.languages@.len() as int;
        &&& value.exists
        &&& before.can_read(language_pos(0, e, n))
        &&& after == before.moved(p + language_pos(0, e, n))
        &&& value.unknown1 == spec_u32_at(before.data@, p)
        &&& n == spec_u32_at(before.data@, p + 4)
        &&& e == spec_u32_at(before.data@, p + 8)
        &&& strings_at(before, p + 12, value.entry_ids@)
        &&& forall|j: int| 0 <= j < n ==> {
            let base = language_pos(p, e, j);
            let l = #[trigger] value.languages@[j];
            &&& string_at(before, base) == Some(l.name)
            &&& string_at(before, base + 4) == Some(l.region)
            &&& l.entries@.len() == e
            &&& strings_at(before, base + 8, l.entries@)
        }
    }

    fn deserialize(reader: &mut DataReader) -> (r: Result<GMLanguageInfo, String>) {
        let ghost start = *reader;
        let ghost ok = Self::readable(start);
        let unknown1 = reader.read_u32()?;
        let language_count = reader.read_u32()?;
        let entry_count = reader.read_u32()?;
        proof {
            if ok {
                let n = language_count as int;
                let ee = entry_count as int;
                assert(language_pos(0, ee, n) >= 12 + 4 * ee) by (nonlinear_arith)
                    requires n >= 0, ee >= 0;
                assert forall|k: int| 0 <= k < ee implies (#[trigger] string_at(*reader, start.cur_pos + 12 + 4 * k)) is Some by {
                    assert(string_at(start, start.cur_pos + 12 + 4 * k) is Some);
                }
            }
        }
        let entry_ids = read_strings(reader, entry_count)?;
        let ghost p = start.cur_pos as int;
        let ghost e = entry_count as int;
        let mut languages: Vec<GMLanguageData> = Vec::new();
        let mut j: u32 = 0;
        proof {
            assert(language_pos(p, e, 0) == p + 12 + 4 * e) by (nonlinear_arith);
        }
        while j < language_count
            invariant
                j <= language_count,
                reader.wf(),
                reader.data == start.data,
                start == *old(reader),
                start.can_read(language_pos(0, e, j as int)),
                *reader == start.moved(language_pos(p, e, j as int)),
                p == start.cur_pos,
                e == entry_count,
                ok == Self::readable(start),
                ok ==> language_count == spec_u32_at(start.data@, p + 4) && e == spec_u32_at(start.data@, p + 8),
                languages@.len() == j,
                language_pos(p, e, j as int) == p + language_pos(0, e, j as int),
                forall|k: int| 0 <= k < j ==> {
                    let base = language_pos(p, e, k);
                    let l = #[trigger] languages@[k];
                    &&& string_at(start, base) == Some(l.name)
                    &&& string_at(start, base + 4) == Some(l.region)
                    &&& l.entries@.len() == e
                    &&& strings_at(start, base + 8, l.entries@)
                },
            decreases language_count - j,
        {
            proof {
                if ok {
                    let base = language_pos(p, e, j as int);
                    assert(string_at(start, base) is Some);
                    assert(language_pos(0, e, j + 1) <= language_pos(0, e, language_count as int)) by (nonlinear_arith)
                        requires j < language_count, e >= 0;
                    assert(language_pos(0, e, j + 1) == language_pos(0, e, j as int) + 8 + 4 * e) by (nonlinear_arith);
                    assert forall|k: int| 0 <= k < e implies (#[trigger] string_at(start.moved(base + 8), base + 8 + 4 * k)) is Some by {
                        assert(string_at(start, base + 8 + 4 * k) is Some);
                    }
                }
            }
            let name = reader.read_gm_string()?;
            let region = reader.read_gm_string()?;
            let entries = read_strings(reader, entry_count)?;
            languages.push(GMLanguageData { name, region, entries });
            proof {
                assert(language_pos(p, e, j + 1) == language_pos(p, e, j as int) + 8 + 4 * e) by (nonlinear_arith);
                assert(language_pos(0, e, j + 1) == language_pos(0, e, j as int) + 8 + 4 * e) by (nonlinear_arith);
            }
            j = j + 1;
        }
        Ok(GMLanguageInfo { unknown1, languages, entry_ids, exists: true })
    }

    fn serialize(&self, builder: &mut DataBuilder) -> (r: Result<(), String>) {
        builder.write_u32(self.unknown1);
        let ghost b1 = *builder;
        proof {
            lemma_prefix_extends(*old(builder), b1);
            lemma_languages_size_bound(self.languages@);
        }
        if let Err(e) = builder.write_usize(self.languages.len()) {
            return Err(e);
        }
        let ghost b15 = *builder;
        proof {
            lemma_prefix_extends(*old(builder), b15);
        }
        if let Err(e) = builder.write_usize(self.entry_ids.len()) {
            return Err(e);
        }
        let ghost b2 = *builder;
        proof {
            lemma_prefix_extends(*old(builder), b2);
        }
        let ghost hdr = old(builder).bytes@ + u32_le_bytes(self.unknown1) + u32_le_bytes(self.languages@.len() as u32)
            + u32_le_bytes(self.entry_ids@.len() as u32);
        assert(b2.bytes@ =~= hdr);
        let res = write_string_refs(builder, &self.entry_ids);
        proof {
            lemma_extends_trans(*old(builder), b2, *builder);
        }
        res?;
        let ghost b_ids = *builder;
        proof {
            lemma_placeholders_len(self.entry_ids@.len());
        }
        let ghost ls = self.languages@;
        let mut j: usize = 0;
        while j < self.languages.len()
            invariant
                j <= ls.len(),
                ls == self.languages@,
                builder.extends(old(builder)),
                b_ids.extends(old(builder)),
                builder.bytes@ == b_ids.bytes@ + languages_bytes(ls.take(j as int)),
                self.writable(*old(builder)) ==> b_ids.bytes@.len() + languages_size(ls) <= u32::MAX,
            decreases ls.len() - j,
        {
            let language = &self.languages[j];
            let ghost b3 = *builder;
            proof {
                lemma_languages_len(ls.take(j as int));
                lemma_languages_prefix(ls, j + 1);
                assert(ls.take(j + 1).drop_last() =~= ls.take(j as int));
                lemma_placeholders_len(language.entries@.len());
            }
            let res = builder.write_gm_string(&language.name);
            proof {
                lemma_extends_trans(*old(builder), b3, *builder);
            }
            res?;
            let ghost b4 = *builder;
            let res = builder.write_gm_string(&language.region);
            proof {
                lemma_extends_trans(*old(builder), b4, *builder);
            }
            res?;
            let ghost b5 = *builder;
            let res = write_string_refs(builder, &language.entries);
            proof {
                lemma_extends_trans(*old(builder), b5, *builder);
            }
            res?;
            proof {
                assert(builder.bytes@ =~= b_ids.bytes@ + languages_bytes(ls.take(j + 1)));
            }
            j = j + 1;
        }
        proof {
            assert(ls.take(ls.len() as int) =~= ls);
            assert(builder.bytes@ =~= old(builder).bytes@ + u32_le_bytes(self.unknown1) + u32_le_bytes(self.languages@.len() as u32)
                + u32_le_bytes(self.entry_ids@.len() as u32) + placeholders(self.entry_ids@.len())
                + languages_bytes(self.languages@));
        }
        Ok(())
    }
}

} // verus!
