//! The string table (chunk `STRG`).

use std::collections::HashMap;
use vstd::prelude::*;
use vstd::utf8::{decode_utf8, valid_utf8};
use crate::bytes::spec_u32_at;
use crate::lists::{pointer_at, u32_list_readable};
use crate::reader::{align_pad, DataReader};
use crate::refs::{gm_ref, GMRef};

verus! {

/// The strings of a data file; everything else refers to them by index.
pub struct GMStrings {
    pub strings: Vec<String>,
    /// Whether every string starts on a 4-byte boundary.
    pub is_aligned: bool,
    pub exists: bool,
}

/// The characters of each string in a list.
pub open spec fn string_table(strings: Seq<String>) -> Seq<Seq<char>> {
    strings.map_values(|s: String| s@)
}

/// The index of the first entry of `t` equal to `s`.
pub open spec fn first_index(t: Seq<Seq<char>>, s: Seq<char>) -> Option<int>
    decreases t.len(),
{
    if t.len() == 0 {
        None
    } else {
        match first_index(t.drop_last(), s) {
            Some(i) => Some(i),
            None => if t.last() == s {
                Some(t.len() - 1)
            } else {
                None
            },
        }
    }
}

/// The table after `make(s)`, and the index it returns: the first equal entry, or a new
/// entry at the end.
pub open spec fn spec_make(t: Seq<Seq<char>>, s: Seq<char>) -> (Seq<Seq<char>>, int) {
    match first_index(t, s) {
        Some(i) => (t, i),
        None => (t.push(s), t.len() as int),
    }
}

/// `first_index` finds the first equal entry, and there is none when it finds nothing.
pub proof fn lemma_first_index(t: Seq<Seq<char>>, s: Seq<char>)
    ensures
        match first_index(t, s) {
            Some(i) => 0 <= i < t.len() && t[i] == s && forall|j: int| 0 <= j < i ==> t[j] != s,
            None => forall|j: int| 0 <= j < t.len() ==> t[j] != s,
        },
    decreases t.len(),
{
    if t.len() > 0 {
        let d = t.drop_last();
        lemma_first_index(d, s);
        assert forall|j: int| 0 <= j < d.len() implies d[j] == t[j] by {}
    }
}

/// A prefix of a table has the same first equal entry when it holds one.
proof fn lemma_first_index_take(t: Seq<Seq<char>>, s: Seq<char>, n: int)
    requires
        0 <= n < t.len(),
        first_index(t.take(n), s) is None,
    ensures
        first_index(t.take(n + 1), s) == (if t[n] == s { Some(n) } else { None::<int> }),
{
    assert(t.take(n + 1).drop_last() =~= t.take(n));
}

/// After `make(s)`, the returned entry is `s`, and a second `make(s)` changes nothing and
/// returns the same index.
pub proof fn law_make_idempotent(t: Seq<Seq<char>>, s: Seq<char>)
    ensures
        ({
            let (t1, i) = spec_make(t, s);
            &&& 0 <= i < t1.len()
            &&& t1[i] == s
            &&& spec_make(t1, s) == (t1, i)
        }),
{
    lemma_first_index(t, s);
    match first_index(t, s) {
        Some(i) => {},
        None => {
            let t1 = t.push(s);
            assert(t1.drop_last() =~= t);
        },
    }
}

/// `predicate` may answer `b` for a string with the characters `t`.
pub open spec fn answered<P: Fn(&str) -> bool>(predicate: P, t: Seq<char>, b: bool) -> bool {
    exists|s: &str| s@ == t && predicate.ensures((s,), b)
}

impl GMStrings {
    /// The characters of each string.
    pub open spec fn table(&self) -> Seq<Seq<char>> {
        string_table(self.strings@)
    }

    /// The first string equal to `target`, if any.
    pub fn find(&self, target: &str) -> (r: Option<GMRef<String>>)
        requires
            self.strings@.len() <= u32::MAX,
        ensures
            r == (match first_index(self.table(), target@) {
                Some(i) => Some(gm_ref::<String>(i as u32)),
                None => None,
            }),
    {
        let t = target.to_owned();
        let mut i: usize = 0;
        while i < self.strings.len()
            invariant
                0 <= i <= self.strings@.len() <= u32::MAX,
                t@ == target@,
                first_index(self.table().take(i as int), target@) is None,
            decreases self.strings@.len() - i,
        {
            proof {
                lemma_first_index_take(self.table(), target@, i as int);
            }
            if self.strings[i].eq(&t) {
                assert(self.table().take(i + 1) =~= self.table().take(i + 1));
                proof {
                    lemma_first_index_prefix(self.table(), target@, i as int + 1);
                }
                return Some(GMRef::new(i as u32));
            }
            i = i + 1;
        }
        assert(self.table().take(i as int) =~= self.table());
        None
    }

    /// The first string for which `predicate` answered `true`; it answered `false` for
    /// every string before it (or for all, when the result is `None`).
    pub fn find_by<P: Fn(&str) -> bool>(&self, predicate: P) -> (r: Option<GMRef<String>>)
        requires
            self.strings@.len() <= u32::MAX,
            forall|s: &str| predicate.requires((s,)),
        ensures
            match r {
                Some(x) => {
                    &&& x.index < self.strings@.len()
                    &&& x == gm_ref::<String>(x.index)
                    &&& answered(predicate, self.table()[x.index as int], true)
                    &&& forall|j: int| 0 <= j < x.index ==> answered(predicate, #[trigger] self.table()[j], false)
                },
                None => forall|j: int| 0 <= j < self.strings@.len() ==> answered(predicate, #[trigger] self.table()[j], false),
            },
    {
        let mut i: usize = 0;
        while i < self.strings.len()
            invariant
                0 <= i <= self.strings@.len() <= u32::MAX,
                forall|s: &str| predicate.requires((s,)),
                forall|j: int| 0 <= j < i ==> answered(predicate, #[trigger] self.table()[j], false),
            decreases self.strings@.len() - i,
        {
            let s = self.strings[i].as_str();
            let b = predicate(s);
            assert(s@ == self.table()[i as int]);
            if b {
                assert(answered(predicate, self.table()[i as int], true));
                assert((i as u32) as int == i);
                return Some(GMRef::new(i as u32));
            }
            assert(answered(predicate, self.table()[i as int], false));
            i = i + 1;
        }
        None
    }

    /// Adds `string` as a new entry, even when an equal one exists; returns its index.
    pub fn make_unique(&mut self, string: String) -> (r: GMRef<String>)
        requires
            old(self).strings@.len() < u32::MAX,
        ensures
            final(self).strings@ == old(self).strings@.push(string),
            final(self).is_aligned == old(self).is_aligned,
            final(self).exists == old(self).exists,
            r == gm_ref::<String>(old(self).strings@.len() as u32),
    {
        let index = self.strings.len();
        self.strings.push(string);
        GMRef::new(index as u32)
    }

    /// The index of a string equal to `target`: the first existing one, else a new entry.
    pub fn make(&mut self, target: &str) -> (r: GMRef<String>)
        requires
            old(self).strings@.len() < u32::MAX,
        ensures
            (final(self).table(), r.index as int) == spec_make(old(self).table(), target@),
            final(self).is_aligned == old(self).is_aligned,
            final(self).exists == old(self).exists,
            first_index(old(self).table(), target@) is Some ==> final(self).strings@ == old(self).strings@,
    {
        proof {
            lemma_first_index(self.table(), target@);
        }
        if let Some(string_ref) = self.find(target) {
            return string_ref;
        }
        let s = target.to_owned();
        let r = self.make_unique(s);
        assert(self.table() =~= old(self).table().push(target@));
        r
    }
}

/// A table's first equal entry within a prefix is its first equal entry overall.
proof fn lemma_first_index_prefix(t: Seq<Seq<char>>, s: Seq<char>, n: int)
    requires
        0 <= n <= t.len(),
        first_index(t.take(n), s) is Some,
    ensures
        first_index(t, s) == first_index(t.take(n), s),
    decreases t.len() - n,
{
    if n < t.len() {
        assert(t.take(n + 1).drop_last() =~= t.take(n));
        lemma_first_index_prefix(t, s, n + 1);
    } else {
        assert(t.take(n) =~= t);
    }
}

impl GMRef<String> {
    /// The referenced string for display; a placeholder when the index is out of bounds.
    pub fn display<'a>(&self, gm_strings: &'a GMStrings) -> (r: &'a str)
        ensures
            r@ == (if self.index < gm_strings.strings@.len() {
                gm_strings.strings@[self.index as int]@
            } else {
                "<invalid string reference>"@
            }),
    {
        match self.resolve(&gm_strings.strings) {
            Ok(s) => s.as_str(),
            Err(_) => "<invalid string reference>",
        }
    }
}

/// The padding of `k` bytes at `pos` can be read and is all zero.
pub open spec fn zero_padding<'a>(r: DataReader<'a>, pos: int, k: int) -> bool {
    &&& r.moved(pos).can_read(k)
    &&& forall|i: int| 0 <= i < k ==> #[trigger] r.data@[pos + i] == 0
}

/// The string entry at `pointer` (aligned to 4 bytes first when `aligned`): a 32-bit byte
/// length, the UTF-8 characters and a zero byte. Gives the characters and the position
/// after the zero byte.
pub open spec fn spec_string_entry<'a>(r: DataReader<'a>, pointer: u32, aligned: bool) -> Option<(Seq<char>, u32)> {
    let k = if aligned { align_pad(pointer as int, 4) } else { 0 };
    let q = pointer + k;
    if !zero_padding(r, pointer as int, k) || !r.moved(q).can_read(4) {
        None
    } else {
        let len = spec_u32_at(r.data@, q);
        let b = r.moved(q + 4);
        if !b.can_read(len as int) || !valid_utf8(b.ahead(len as int)) {
            None
        } else {
            let c = q + 4 + len;
            if !r.moved(c).can_read(1) || r.data@[c] != 0 {
                None
            } else {
                Some((decode_utf8(b.ahead(len as int)), (c + 1) as u32))
            }
        }
    }
}

/// The string indices by the position of their characters: each pointer plus 4; a later
/// entry wins over an earlier one at the same position.
pub open spec fn string_occurrence_map(pointers: Seq<u32>) -> Map<u32, u32>
    decreases pointers.len(),
{
    if pointers.len() == 0 {
        Map::empty()
    } else {
        string_occurrence_map(pointers.drop_last()).insert(
            (pointers.last() + 4) as u32,
            (pointers.len() - 1) as u32,
        )
    }
}

/// Every pointer is a multiple of 4.
pub open spec fn all_aligned(pointers: Seq<u32>) -> bool {
    forall|k: int| 0 <= k < pointers.len() ==> #[trigger] pointers[k] % 4 == 0
}

/// The pointers of the list whose count is at the reader's position.
pub open spec fn listed_pointers<'a>(r: DataReader<'a>) -> Seq<u32> {
    Seq::new(r.word() as nat, |k: int| pointer_at(r, r.cur_pos as int, k))
}

/// The string table at the reader's position can be read: its pointer list, every entry
/// (with room for the position after its length), and the padding to 128 bytes after the
/// last entry.
pub open spec fn string_table_readable<'a>(r: DataReader<'a>) -> bool {
    let ps = listed_pointers(r);
    let n = ps.len() as int;
    let aligned = all_aligned(ps);
    &&& u32_list_readable(r)
    &&& forall|k: int| 0 <= k < n ==> #[trigger] ps[k] + 4 <= u32::MAX
        && spec_string_entry(r, ps[k], aligned) is Some
    &&& {
        let end = if n == 0 {
            r.cur_pos + 4
        } else {
            spec_string_entry(r, ps[n - 1], aligned).unwrap().1 as int
        };
        zero_padding(r, end, align_pad(end, 0x80))
    }
}

impl GMStrings {
    /// Reads the string table: a pointer list, then each string; records where each
    /// string's characters start, then reads the padding to a multiple of 128 bytes.
    #[verifier::rlimit(100)]
    #[verifier::spinoff_prover]
    pub fn deserialize(reader: &mut DataReader) -> (r: Result<GMStrings, String>)
        requires
            old(reader).wf(),
        ensures
            final(reader).wf(),
            final(reader).data == old(reader).data,
            r is Ok <==> string_table_readable(*old(reader)),
            r is Ok ==> *final(reader) == (DataReader {
                cur_pos: final(reader).cur_pos,
                string_occurrences: final(reader).string_occurrences,
                ..*old(reader)
            }),
            r matches Ok(t) ==> {
                let n = t.strings@.len();
                let pointers = Seq::new(n, |k: int| pointer_at(*old(reader), old(reader).cur_pos as int, k));
                &&& old(reader).can_read(4 + 4 * n as int)
                &&& n == old(reader).word()
                &&& t.exists
                &&& t.is_aligned == all_aligned(pointers)
                &&& forall|k: int| 0 <= k < n ==> pointers[k] + 4 <= u32::MAX && (#[trigger] spec_string_entry(*old(reader), pointers[k], t.is_aligned)) is Some
                    && spec_string_entry(*old(reader), pointers[k], t.is_aligned).unwrap().0 == t.strings@[k]@
                &&& final(reader).string_occurrences@ == string_occurrence_map(pointers)
            },
    {
        let pointers = reader.read_u32_list()?;
        let ghost listed = *reader;
        assert(pointers@ =~= listed_pointers(*old(reader)));
        assert forall|x: int| #[trigger] listed.moved(x) == old(reader).moved(x) by {}
        let count = pointers.len();
        let mut is_aligned = true;
        let mut i: usize = 0;
        while i < count
            invariant
                0 <= i <= count == pointers@.len(),
                is_aligned == all_aligned(pointers@.take(i as int)),
            decreases count - i,
        {
            if pointers[i] % 4 != 0 {
                is_aligned = false;
            }
            proof {
                let a = pointers@.take(i as int);
                let b = pointers@.take(i + 1);
                assert forall|k: int| 0 <= k < i implies b[k] == a[k] by {}
                assert(b[i as int] == pointers@[i as int]);
                if all_aligned(b) {
                    assert forall|k: int| 0 <= k < a.len() implies #[trigger] a[k] % 4 == 0 by {
                        assert(b[k] % 4 == 0);
                    }
                }
            }
            i = i + 1;
        }
        assert(pointers@.take(count as int) =~= pointers@);
        let mut strings: Vec<String> = Vec::new();
        let mut occurrences: HashMap<u32, u32> = HashMap::new();
        let mut i: usize = 0;
        while i < count
            invariant
                0 <= i <= count == pointers@.len() <= u32::MAX,
                reader.wf(),
                listed.data == old(reader).data,
                *reader == listed.moved(reader.cur_pos as int),
                is_aligned == all_aligned(pointers@),
                strings@.len() == i,
                forall|k: int| 0 <= k < i ==> pointers@[k] + 4 <= u32::MAX && (#[trigger] spec_string_entry(listed, pointers@[k], is_aligned)) is Some
                    && spec_string_entry(listed, pointers@[k], is_aligned).unwrap().0 == strings@[k]@,
                occurrences@ == string_occurrence_map(pointers@.take(i as int)),
                pointers@ == listed_pointers(*old(reader)),
                forall|x: int| #[trigger] listed.moved(x) == old(reader).moved(x),
                i > 0 ==> reader.cur_pos == spec_string_entry(listed, pointers@[i - 1], is_aligned).unwrap().1,
                i == 0 ==> reader.cur_pos == old(reader).cur_pos + 4 + 4 * count,
            decreases count - i,
        {
            let pointer = pointers[i];
            reader.cur_pos = pointer;
            if is_aligned {
                reader.align(4)?;
            }
            let string_length = reader.read_u32()?;
            let string = reader.read_literal_string(string_length)?;
            let byte = reader.read_u8()?;
            if byte != 0 {
                return Err("Nonzero null terminator byte after string".to_owned());
            }
            if pointer > u32::MAX - 4 {
                return Err("String pointer out of range".to_owned());
            }
            strings.push(string);
            occurrences.insert(pointer + 4, i as u32);
            proof {
                assert(pointers@.take(i + 1).drop_last() =~= pointers@.take(i as int));
            }
            i = i + 1;
        }
        assert(pointers@.take(count as int) =~= pointers@);
        proof {
            let n = count as nat;
            let ps = Seq::new(n, |k: int| pointer_at(*old(reader), old(reader).cur_pos as int, k));
            assert(ps =~= pointers@);
            assert forall|k: int| 0 <= k < n implies spec_string_entry(*old(reader), #[trigger] pointers@[k], is_aligned)
                == spec_string_entry(listed, pointers@[k], is_aligned) by {
                lemma_entry_moved(*old(reader), listed.cur_pos as int, pointers@[k], is_aligned);
            }
        }
        reader.align(0x80)?;
        reader.string_occurrences = occurrences;
        Ok(GMStrings { strings, is_aligned, exists: true })
    }
}

/// The entry at a pointer does not depend on where the reader was.
proof fn lemma_entry_moved<'a>(r: DataReader<'a>, pos: int, pointer: u32, aligned: bool)
    ensures
        spec_string_entry(r.moved(pos), pointer, aligned) == spec_string_entry(r, pointer, aligned),
{
    assert forall|x: int| #[trigger] r.moved(pos).moved(x) == r.moved(x) by {}
}

/// The index of the first entry of `names` equal to `target`, provided every entry before it
/// resolves; `Err(j)` when entry `j` does not resolve first, `Ok(None)` when none matches.
pub open spec fn first_named(names: Seq<Option<Seq<char>>>, target: Seq<char>) -> Result<Option<int>, int>
    decreases names.len(),
{
    if names.len() == 0 {
        Ok(None)
    } else {
        match first_named(names.drop_last(), target) {
            Ok(None) => match names.last() {
                None => Err(names.len() - 1),
                Some(n) => if n == target { Ok(Some(names.len() - 1)) } else { Ok(None) },
            },
            other => other,
        }
    }
}

pub proof fn lemma_first_named_prefix(names: Seq<Option<Seq<char>>>, target: Seq<char>, n: int)
    requires
        0 <= n <= names.len(),
        first_named(names.take(n), target) != Ok::<Option<int>, int>(None),
    ensures
        first_named(names, target) == first_named(names.take(n), target),
    decreases names.len() - n,
{
    if n < names.len() {
        assert(names.take(n + 1).drop_last() =~= names.take(n));
        lemma_first_named_prefix(names, target, n + 1);
    } else {
        assert(names.take(n) =~= names);
    }
}

} // verus!
