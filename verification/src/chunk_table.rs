//! The chunk table of a data file: the root chunk `FORM` (or `MROF` when big-endian) and
//! the named chunks inside it.

use vstd::prelude::*;
use vstd::utf8::{codepoint_width_1, decode_utf8, pop_first_scalar, valid_utf8};
use crate::bytes::{spec_u32_at, u32_from_le};
use crate::chunk::GMChunk;
use crate::reader::{DataReader, Endianness};
use crate::element::{GMChunkElement, GMElement};
use crate::trusted::utf8_decode;
use crate::version::{GMVersion, LTSBranch};

verus! {

/// A byte that may stand in a chunk name: an ASCII capital letter or digit.
pub open spec fn chunk_name_byte(b: u8) -> bool {
    (0x41 <= b <= 0x5A) || (0x30 <= b <= 0x39)
}

/// The four bytes of a chunk name as stored, in reading order for the given byte order
/// (reversed when big-endian).
pub open spec fn chunk_name_bytes(raw: Seq<u8>, pos: int, e: Endianness) -> Seq<u8> {
    let b = raw.subrange(pos, pos + 4);
    if e == Endianness::Big { b.reverse() } else { b }
}

/// The 32-bit word of a chunk name, by which names are told apart.
pub open spec fn name_word(raw: Seq<u8>, pos: int) -> u32 {
    spec_u32_at(raw, pos)
}

/// One entry of the chunk table: the name's 32-bit word, the name, the first and the
/// past-the-end position of the chunk's bytes, and whether the chunk ends the data.
pub type ChunkEntry = (u32, Seq<char>, u32, u32, bool);

/// The chunks from `pos` to the end of `raw`: each a name, a 32-bit length and that many
/// bytes; the table ends when eight bytes or fewer are left. `None` when a name has other
/// bytes than capitals and digits, or a chunk ends past the data.
pub open spec fn chunks_from(raw: Seq<u8>, pos: int, e: Endianness) -> Option<Seq<ChunkEntry>>
    decreases raw.len() - pos,
{
    if pos + 8 >= raw.len() || pos < 0 {
        Some(Seq::empty())
    } else {
        let name = chunk_name_bytes(raw, pos, e);
        let end = pos + 8 + spec_u32_at(raw, pos + 4);
        if !(forall|i: int| 0 <= i < 4 ==> #[trigger] chunk_name_byte(raw[pos + i])) || end > raw.len() {
            None
        } else {
            match chunks_from(raw, end, e) {
                Some(rest) => Some(seq![(name_word(raw, pos), decode_utf8(name), (pos + 8) as u32, end as u32, end == raw.len())] + rest),
                None => None,
            }
        }
    }
}

/// `prefix` put before the chunks of `rest`, or `None` when `rest` is.
pub open spec fn prepend(prefix: Seq<ChunkEntry>, rest: Option<Seq<ChunkEntry>>) -> Option<Seq<ChunkEntry>> {
    match rest {
        Some(r) => Some(prefix + r),
        None => None,
    }
}

/// No two chunks share a name.
pub open spec fn distinct_names(cs: Seq<ChunkEntry>) -> bool {
    forall|i: int, j: int| 0 <= i < j < cs.len() ==> #[trigger] cs[i].0 != #[trigger] cs[j].0
}

/// The table with byte order `e` and chunks `cs`, when they are there and their names are distinct.
pub open spec fn checked_table(e: Endianness, cs: Option<Seq<ChunkEntry>>) -> Option<(Endianness, Seq<ChunkEntry>)> {
    match cs {
        Some(cs) => if distinct_names(cs) { Some((e, cs)) } else { None },
        None => None,
    }
}

/// The byte order and chunks of a data file: it must start with `FORM` (little-endian) or
/// `MROF` (big-endian) and a length that covers exactly the rest of the data, be shorter
/// than 2^31 - 1 bytes, and hold chunks with distinct names.
pub open spec fn chunk_table(raw: Seq<u8>) -> Option<(Endianness, Seq<(u32, Seq<char>, u32, u32, bool)>)> {
    if raw.len() >= 0x7FFF_FFFF || raw.len() < 8 {
        None
    } else {
        let head = raw.subrange(0, 4);
        let e = if head == seq![0x46u8, 0x4Fu8, 0x52u8, 0x4Du8] {
            Some(Endianness::Little)
        } else if head == seq![0x4Du8, 0x52u8, 0x4Fu8, 0x46u8] {
            Some(Endianness::Big)
        } else {
            None
        };
        match e {
            None => None,
            Some(e) => if spec_u32_at(raw, 4) + 8 != raw.len() {
                None
            } else {
                checked_table(e, chunks_from(raw, 8, e))
            },
        }
    }
}

/// Bytes below 0x80 are valid UTF-8, one character each.
pub proof fn lemma_ascii_utf8(bytes: Seq<u8>)
    requires
        forall|i: int| 0 <= i < bytes.len() ==> #[trigger] bytes[i] < 0x80,
    ensures
        valid_utf8(bytes),
        decode_utf8(bytes) == bytes.map_values(|b: u8| b as char),
    decreases bytes.len(),
{
    if bytes.len() > 0 {
        let b = bytes[0];
        assert(b < 0x80);
        assert(codepoint_width_1(b) == b as u32) by (bit_vector)
            requires
                b < 0x80u8,
        ;
        let rest = bytes.subrange(1, bytes.len() as int);
        assert forall|i: int| 0 <= i < rest.len() implies #[trigger] rest[i] < 0x80 by {
            assert(rest[i] == bytes[i + 1]);
        }
        lemma_ascii_utf8(rest);
        assert(pop_first_scalar(bytes) =~= rest);
        assert(decode_utf8(bytes) =~= bytes.map_values(|b: u8| b as char));
    }
}

impl<'a> DataReader<'a> {
    /// Reads a chunk name: four capitals or digits, reversed when the data is big-endian.
    pub fn read_chunk_name(&mut self) -> (r: Result<String, String>)
        requires
            old(self).wf(),
        ensures
            final(self).wf(),
            old(self).only_moved(*final(self)),
            r is Ok <==> old(self).can_read(4) && forall|i: int| 0 <= i < 4
                ==> #[trigger] chunk_name_byte(old(self).data@[old(self).cur_pos + i]),
            r matches Ok(s) ==> {
                &&& s@ == decode_utf8(chunk_name_bytes(old(self).data@, old(self).cur_pos as int, old(self).endianness))
                &&& *final(self) == old(self).moved(old(self).cur_pos + 4)
            },
    {
        let bytes = self.read_bytes_dyn(4)?;
        let mut i: usize = 0;
        while i < 4
            invariant
                bytes@ == old(self).ahead(4),
                old(self).can_read(4),
                self.wf(),
                *self == old(self).moved(old(self).cur_pos + 4),
                bytes@.len() == 4,
                i <= 4,
                forall|j: int| 0 <= j < i ==> #[trigger] chunk_name_byte(bytes@[j]),
            decreases 4 - i,
        {
            let b = bytes[i];
            if !((0x41 <= b && b <= 0x5A) || (0x30 <= b && b <= 0x39)) {
                assert(bytes@[i as int] == old(self).data@[old(self).cur_pos + i]);
                assert(!chunk_name_byte(old(self).data@[old(self).cur_pos + i]));
                return Err("Chunk name contains invalid characters".to_owned());
            }
            i = i + 1;
        }
        let ordered: [u8; 4] = if matches!(self.endianness, Endianness::Big) {
            [bytes[3], bytes[2], bytes[1], bytes[0]]
        } else {
            [bytes[0], bytes[1], bytes[2], bytes[3]]
        };
        proof {
            let b = old(self).data@.subrange(old(self).cur_pos as int, old(self).cur_pos + 4);
            assert(bytes@ =~= b);
            assert forall|k: int| 0 <= k < 4 implies #[trigger] ordered@[k] < 0x80 by {
                if old(self).endianness == Endianness::Big {
                    assert(chunk_name_byte(bytes@[3 - k]));
                } else {
                    assert(chunk_name_byte(bytes@[k]));
                }
            }
            lemma_ascii_utf8(ordered@);
            if old(self).endianness == Endianness::Big {
                assert(ordered@ =~= b.reverse());
            } else {
                assert(ordered@ =~= b);
            }
        }
        match utf8_decode(&ordered) {
            Some(s) => Ok(s),
            None => Err("Chunk name is not UTF-8".to_owned()),
        }
    }
}

/// `c` is the chunk that the table entry `t` describes.
pub open spec fn chunk_matches(c: GMChunk, t: ChunkEntry) -> bool {
    &&& c.name@ == t.1
    &&& c.start_pos == t.2
    &&& c.end_pos == t.3
    &&& c.is_last_chunk == t.4
}

/// Reads the root chunk and the table of chunks of a data file: its byte order and its
/// chunks, in file order.
pub fn parse_chunk_table(raw: &[u8]) -> (r: Result<(Endianness, Vec<GMChunk>), String>)
    ensures
        r is Ok <==> chunk_table(raw@) is Some,
        r matches Ok((e, chunks)) ==> {
            let t = chunk_table(raw@)->Some_0;
            &&& e == t.0
            &&& chunks@.len() == t.1.len()
            &&& forall|i: int| 0 <= i < chunks@.len() ==> chunk_matches(#[trigger] chunks@[i], t.1[i])
        },
{
    if raw.len() >= 0x7FFF_FFFF {
        return Err("Data file is bigger than 2,147,483,647 bytes".to_owned());
    }
    let mut reader = DataReader::new(raw);
    let root = reader.read_chunk_name();
    if root.is_err() {
        proof {
            if raw@.len() >= 4 {
                assert(!chunk_name_byte(raw@[0]) || !chunk_name_byte(raw@[1]) || !chunk_name_byte(raw@[2])
                    || !chunk_name_byte(raw@[3]));
                assert(raw@.subrange(0, 4)[0] == raw@[0]);
                assert(raw@.subrange(0, 4)[1] == raw@[1]);
                assert(raw@.subrange(0, 4)[2] == raw@[2]);
                assert(raw@.subrange(0, 4)[3] == raw@[3]);
            }
        }
        return Err("Invalid data file: it does not start with a chunk name".to_owned());
    }
    let e = if raw[0] == 0x46 && raw[1] == 0x4F && raw[2] == 0x52 && raw[3] == 0x4D {
        Endianness::Little
    } else if raw[0] == 0x4D && raw[1] == 0x52 && raw[2] == 0x4F && raw[3] == 0x46 {
        Endianness::Big
    } else {
        proof {
            assert(raw@.subrange(0, 4) != seq![0x46u8, 0x4Fu8, 0x52u8, 0x4Du8]) by {
                if raw@.subrange(0, 4) == seq![0x46u8, 0x4Fu8, 0x52u8, 0x4Du8] {
                    assert(raw@.subrange(0, 4)[0] == raw@[0]);
                    assert(raw@.subrange(0, 4)[1] == raw@[1]);
                    assert(raw@.subrange(0, 4)[2] == raw@[2]);
                    assert(raw@.subrange(0, 4)[3] == raw@[3]);
                }
            }
            assert(raw@.subrange(0, 4) != seq![0x4Du8, 0x52u8, 0x4Fu8, 0x46u8]) by {
                if raw@.subrange(0, 4) == seq![0x4Du8, 0x52u8, 0x4Fu8, 0x46u8] {
                    assert(raw@.subrange(0, 4)[0] == raw@[0]);
                    assert(raw@.subrange(0, 4)[1] == raw@[1]);
                    assert(raw@.subrange(0, 4)[2] == raw@[2]);
                    assert(raw@.subrange(0, 4)[3] == raw@[3]);
                }
            }
        }
        return Err("Invalid data file: expected the root chunk to be 'FORM'".to_owned());
    };
    proof {
        if e == Endianness::Little {
            assert(raw@.subrange(0, 4) =~= seq![0x46u8, 0x4Fu8, 0x52u8, 0x4Du8]);
        } else {
            assert(raw@.subrange(0, 4) =~= seq![0x4Du8, 0x52u8, 0x4Fu8, 0x46u8]);
            assert(raw@.subrange(0, 4) != seq![0x46u8, 0x4Fu8, 0x52u8, 0x4Du8]) by {
                assert(raw@.subrange(0, 4)[0] != 0x46u8);
            }
        }
    }
    let form_len = reader.read_u32()?;
    if form_len as u64 + 8 != raw.len() as u64 {
        return Err("The root chunk's length does not match the data's length".to_owned());
    }
    reader.endianness = e;
    proof {
        let head = raw@.subrange(0, 4);
        assert(form_len == spec_u32_at(raw@, 4));
        if e == Endianness::Little {
            assert(head == seq![0x46u8, 0x4Fu8, 0x52u8, 0x4Du8]);
        } else {
            assert(head != seq![0x46u8, 0x4Fu8, 0x52u8, 0x4Du8]);
            assert(head == seq![0x4Du8, 0x52u8, 0x4Fu8, 0x46u8]);
        }
        assert(raw@.len() >= 8);
        assert(raw@.len() < 0x7FFF_FFFF);
        assert(spec_u32_at(raw@, 4) + 8 == raw@.len());
    }
    let mut chunks: Vec<GMChunk> = Vec::new();
    let mut words: Vec<u32> = Vec::new();
    let ghost mut acc: Seq<ChunkEntry> = Seq::empty();
    proof {
        assert(Seq::<ChunkEntry>::empty() + chunks_from(raw@, 8, e)->Some_0 =~= chunks_from(raw@, 8, e)->Some_0);
    }
    while (reader.cur_pos as usize) + 8 < raw.len()
        invariant
            reader.data == raw,
            reader.wf(),
            reader.chunk.start_pos == 0,
            reader.chunk.end_pos == raw@.len(),
            reader.endianness == e,
            reader.cur_pos <= raw@.len(),
            raw@.len() < 0x7FFF_FFFF,
            spec_u32_at(raw@, 4) + 8 == raw@.len(),
            chunk_table(raw@) == checked_table(e, chunks_from(raw@, 8, e)),
            chunks_from(raw@, 8, e) == prepend(acc, chunks_from(raw@, reader.cur_pos as int, e)),
            chunks@.len() == acc.len(),
            words@.len() == acc.len(),
            forall|i: int| 0 <= i < acc.len() ==> #[trigger] words@[i] == acc[i].0,
            forall|i: int| 0 <= i < acc.len() ==> chunk_matches(#[trigger] chunks@[i], acc[i]),
            forall|i: int, j: int| 0 <= i < j < acc.len() ==> #[trigger] acc[i].0 != #[trigger] acc[j].0,
        decreases raw@.len() - reader.cur_pos,
    {
        let pos = reader.cur_pos;
        let word = u32_from_le(raw, pos as usize);
        let name = match reader.read_chunk_name() {
            Ok(n) => n,
            Err(msg) => {
                return Err(msg);
            },
        };
        let len = reader.read_u32()?;
        let start = reader.cur_pos;
        if len as u64 + start as u64 > raw.len() as u64 {
            return Err("Trying to read a chunk out of data bounds".to_owned());
        }
        let end = start + len;
        let ghost entry: ChunkEntry = (word, name@, start, end, end == raw@.len());
        let ghost rest = chunks_from(raw@, end as int, e);
        proof {
            assert(chunks_from(raw@, pos as int, e) == prepend(seq![entry], rest));
        }
        let mut k: usize = 0;
        while k < words.len()
            invariant
                k <= words@.len(),
                words@.len() == acc.len(),
                forall|i: int| 0 <= i < acc.len() ==> #[trigger] words@[i] == acc[i].0,
                forall|i: int| 0 <= i < k ==> #[trigger] acc[i].0 != word,
                entry.0 == word,
                chunk_table(raw@) == checked_table(e, chunks_from(raw@, 8, e)),
                chunks_from(raw@, 8, e) == prepend(acc, prepend(seq![entry], rest)),
            decreases words@.len() - k,
        {
            if words[k] == word {
                proof {
                    match rest {
                        Some(r) => {
                            let cs = acc + (seq![entry] + r);
                            assert(chunks_from(raw@, 8, e) == Some(cs));
                            assert(cs[k as int].0 == cs[acc.len() as int].0);
                            assert(!distinct_names(cs));
                        },
                        None => {},
                    }
                }
                return Err("A chunk is defined multiple times".to_owned());
            }
            k = k + 1;
        }
        reader.cur_pos = end;
        let last = end as usize == raw.len();
        chunks.push(GMChunk { name, start_pos: start, end_pos: end, is_last_chunk: last });
        words.push(word);
        proof {
            match rest {
                Some(r) => {
                    assert(acc + (seq![entry] + r) =~= acc.push(entry) + r);
                },
                None => {},
            }
            acc = acc.push(entry);
        }
    }
    proof {
        assert(chunks_from(raw@, reader.cur_pos as int, e) == Some(Seq::<ChunkEntry>::empty()));
        assert(acc + Seq::<ChunkEntry>::empty() =~= acc);
        assert(distinct_names(acc));
        assert(chunk_table(raw@) == Some((e, acc)));
    }
    Ok((e, chunks))
}

/// The first chunk from index `i` on whose name is `name`.
pub open spec fn chunk_named(chunks: Seq<GMChunk>, name: Seq<char>, i: int) -> Option<GMChunk>
    decreases chunks.len() - i,
{
    if i < 0 || i >= chunks.len() {
        None
    } else if chunks[i].name@ == name {
        Some(chunks[i])
    } else {
        chunk_named(chunks, name, i + 1)
    }
}

impl<'a> DataReader<'a> {
    /// The chunk of the chunk table named `name`.
    pub fn find_chunk(&self, name: &String) -> (r: Option<GMChunk>)
        ensures
            r == chunk_named(self.chunks@, name@, 0),
    {
        let mut i: usize = 0;
        while i < self.chunks.len()
            invariant
                i <= self.chunks@.len(),
                chunk_named(self.chunks@, name@, 0) == chunk_named(self.chunks@, name@, i as int),
            decreases self.chunks@.len() - i,
        {
            if self.chunks[i].name == *name {
                return Some(self.chunks[i].clone());
            }
            i = i + 1;
        }
        None
    }
}

/// The index of the first chunk from index `i` on whose name is `name`.
pub open spec fn first_chunk_index(chunks: Seq<GMChunk>, name: Seq<char>, i: int) -> Option<int>
    decreases chunks.len() - i,
{
    if i < 0 || i >= chunks.len() {
        None
    } else if chunks[i].name@ == name {
        Some(i)
    } else {
        first_chunk_index(chunks, name, i + 1)
    }
}

/// The chunk named `name` is the one at its first index.
pub proof fn lemma_chunk_named_index(chunks: Seq<GMChunk>, name: Seq<char>, i: int)
    ensures
        chunk_named(chunks, name, i) == match first_chunk_index(chunks, name, i) {
            Some(k) => Some(chunks[k]),
            None => None,
        },
        first_chunk_index(chunks, name, i) matches Some(k) ==> i <= k < chunks.len() && chunks[k].name@ == name,
    decreases chunks.len() - i,
{
    if 0 <= i < chunks.len() && chunks[i].name@ != name {
        lemma_chunk_named_index(chunks, name, i + 1);
    }
}

/// Whether the GameMaker version pads chunks: GameMaker Studio 2 and 1.9999 on.
pub open spec fn padding_eligible(v: GMVersion) -> bool {
    v.major >= 2 || (v.major == 1 && v.minor >= 9999)
}

/// Where the padding after a chunk's content ends, read from `pos` on: zero bytes up to a
/// multiple of the reader's padding. A nonzero byte ends it early and sets the padding to
/// 4 where it stands on a multiple of 4, else to 1. Gives the position and the padding;
/// `None` when the bytes run past the chunk.
pub open spec fn padding_end<'a>(r: DataReader<'a>, pos: int) -> Option<(int, u32)>
    decreases r.chunk.end_pos - pos,
{
    if r.chunk_padding == 0 || pos % (r.chunk_padding as int) == 0 {
        Some((pos, r.chunk_padding))
    } else if !(r.chunk.start_pos <= pos && pos + 1 <= r.chunk.end_pos) {
        None
    } else if r.data@[pos] != 0 {
        Some((pos, if pos % 4 == 0 { 4u32 } else { 1u32 }))
    } else {
        padding_end(r, pos + 1)
    }
}

/// The GameMaker version stored in chunk `GEN8`, 44 bytes after its start.
pub open spec fn gen8_version<'a>(r: DataReader<'a>) -> Option<GMVersion> {
    match chunk_named(r.chunks@, "GEN8"@, 0) {
        None => None,
        Some(c) => {
            let p = c.start_pos + 44;
            if c.start_pos <= c.end_pos && c.end_pos <= r.data@.len() && p + 16 <= c.end_pos {
                Some(GMVersion {
                    major: spec_u32_at(r.data@, p),
                    minor: spec_u32_at(r.data@, p + 4),
                    release: spec_u32_at(r.data@, p + 8),
                    build: spec_u32_at(r.data@, p + 12),
                    branch: LTSBranch::PreLTS,
                })
            } else {
                None
            }
        },
    }
}

/// The version that decides the padding: the general info's once it is read, else the one
/// in chunk `GEN8`.
pub open spec fn padding_version<'a>(r: DataReader<'a>) -> Option<GMVersion> {
    if r.general_info_exists { Some(r.gm_version) } else { gen8_version(r) }
}

/// The reader with the chunk table `chunks`.
pub open spec fn with_chunks<'a>(r: DataReader<'a>, chunks: Vec<GMChunk>) -> DataReader<'a> {
    DataReader { chunks, ..r }
}

/// The reader that starts reading `chunk`.
pub open spec fn entered<'a>(r: DataReader<'a>, chunk: GMChunk) -> DataReader<'a> {
    DataReader { cur_pos: chunk.start_pos, chunk, ..r }
}

/// Where the padding after a chunk's content ends when the reader stands at `r`: nowhere
/// further for the last chunk or a version without padding; `None` if it cannot be read.
pub open spec fn chunk_padding_end<'a>(r: DataReader<'a>) -> Option<int> {
    if r.chunk.is_last_chunk {
        Some(r.cur_pos as int)
    } else {
        match padding_version(r) {
            None => None,
            Some(v) => if !padding_eligible(v) {
                Some(r.cur_pos as int)
            } else {
                match padding_end(r, r.cur_pos as int) {
                    None => None,
                    Some((p, pad)) => Some(p),
                }
            },
        }
    }
}

/// `chunk` can be read from `r` as a `T`: it lies within the data, its content can be read,
/// and the padding after the content ends at the chunk's end.
pub open spec fn chunk_readable<'a, T: GMElement>(r: DataReader<'a>, chunk: GMChunk) -> bool {
    let start = entered(r, chunk);
    &&& chunk.start_pos <= chunk.end_pos
    &&& chunk.end_pos <= r.data@.len()
    &&& T::readable(start)
    &&& chunk_padding_end(start.moved(T::read_end(start))) == Some(chunk.end_pos as int)
}

impl<'a> DataReader<'a> {
    /// The index of the chunk of the chunk table named `name`.
    pub fn chunk_index(&self, name: &String) -> (r: Option<usize>)
        ensures
            r matches Some(i) ==> first_chunk_index(self.chunks@, name@, 0) == Some(i as int),
            r is None ==> first_chunk_index(self.chunks@, name@, 0) is None,
    {
        let mut i: usize = 0;
        while i < self.chunks.len()
            invariant
                i <= self.chunks@.len(),
                first_chunk_index(self.chunks@, name@, 0) == first_chunk_index(self.chunks@, name@, i as int),
            decreases self.chunks@.len() - i,
        {
            if self.chunks[i].name == *name {
                return Some(i);
            }
            i = i + 1;
        }
        None
    }

    /// Reads the GameMaker version from chunk `GEN8` before the general info is read; the
    /// reader is left as it was.
    pub fn unstable_get_gm_version(&mut self) -> (r: Result<GMVersion, String>)
        ensures
            *final(self) == *old(self),
            r is Ok <==> gen8_version(*old(self)) is Some,
            r matches Ok(v) ==> gen8_version(*old(self)) == Some(v),
    {
        let name = "GEN8".to_owned();
        proof {
            reveal_strlit("GEN8");
        }
        let chunk = match self.find_chunk(&name) {
            Some(c) => c,
            None => {
                return Err("Chunk GEN8 does not exist".to_owned());
            },
        };
        if !(chunk.start_pos <= chunk.end_pos && chunk.end_pos as usize <= self.data.len()
            && chunk.start_pos as u64 + 60 <= chunk.end_pos as u64) {
            return Err("Chunk GEN8 is too short to hold the GameMaker version".to_owned());
        }
        let p = (chunk.start_pos + 44) as usize;
        let major = u32_from_le(self.data, p);
        let minor = u32_from_le(self.data, p + 4);
        let release = u32_from_le(self.data, p + 8);
        let build = u32_from_le(self.data, p + 12);
        Ok(GMVersion::new(major, minor, release, build))
    }

    /// Reads the padding after a chunk's content, where the version pads chunks and the
    /// chunk is not the last one.
    pub fn read_chunk_padding(&mut self) -> (r: Result<(), String>)
        requires
            old(self).wf(),
            old(self).chunk_padding != 0,
        ensures
            final(self).wf(),
            *final(self) == (DataReader { cur_pos: final(self).cur_pos, chunk_padding: final(self).chunk_padding, ..*old(self) }),
            final(self).chunk_padding != 0,
            old(self).chunk.is_last_chunk ==> r is Ok && *final(self) == *old(self),
            !old(self).chunk.is_last_chunk ==> match padding_version(*old(self)) {
                None => r is Err,
                Some(v) => if !padding_eligible(v) {
                    r is Ok && *final(self) == *old(self)
                } else {
                    match padding_end(*old(self), old(self).cur_pos as int) {
                        None => r is Err,
                        Some((p, pad)) => r is Ok && final(self).cur_pos == p && final(self).chunk_padding == pad,
                    }
                },
            },
    {
        if self.chunk.is_last_chunk {
            return Ok(());
        }
        let ver = if self.general_info_exists {
            self.gm_version
        } else {
            self.unstable_get_gm_version()?
        };
        if !(ver.major >= 2 || (ver.major == 1 && ver.minor >= 9999)) {
            return Ok(());
        }
        while self.cur_pos % self.chunk_padding != 0
            invariant
                self.wf(),
                self.chunk_padding == old(self).chunk_padding,
                old(self).chunk_padding != 0,
                !old(self).chunk.is_last_chunk,
                padding_version(*old(self)) == Some(ver),
                padding_eligible(ver),
                *self == old(self).moved(self.cur_pos as int),
                padding_end(*old(self), old(self).cur_pos as int) == padding_end(*old(self), self.cur_pos as int),
            decreases self.chunk.end_pos - self.cur_pos,
        {
            let ghost pos = self.cur_pos as int;
            let byte = self.read_u8()?;
            if byte != 0 {
                self.cur_pos = self.cur_pos - 1;
                self.chunk_padding = if self.cur_pos % 4 == 0 { 4 } else { 1 };
                return Ok(());
            }
        }
        Ok(())
    }

    /// Reads `chunk` as a `T`, then its padding; the reader must end at the chunk's end.
    pub fn read_chunk<T: GMElement>(&mut self, chunk: GMChunk) -> (r: Result<T, String>)
        requires
            old(self).wf(),
            old(self).chunk_padding != 0,
        ensures
            final(self).wf(),
            final(self).chunk_padding != 0,
            *final(self) == (DataReader {
                cur_pos: final(self).cur_pos,
                chunk_padding: final(self).chunk_padding,
                chunk: final(self).chunk,
                ..*old(self)
            }),
            r matches Ok(v) ==> {
                &&& final(self).chunk == chunk
                &&& final(self).cur_pos == chunk.end_pos
                &&& exists|mid: DataReader<'a>| T::deserialized(entered(*old(self), chunk), mid, v)
            },
            chunk_readable::<T>(*old(self), chunk) ==> r is Ok,
    {
        if !(chunk.start_pos <= chunk.end_pos && chunk.end_pos as usize <= self.data.len()) {
            return Err("Chunk lies outside the data".to_owned());
        }
        self.cur_pos = chunk.start_pos;
        self.chunk = chunk;
        let ghost start = *self;
        assert(start == entered(*old(self), chunk));
        let element = T::deserialize(self)?;
        let ghost mid = *self;
        self.read_chunk_padding()?;
        if self.cur_pos != self.chunk.end_pos {
            return Err("Misaligned chunk: the reader did not end at the chunk's end".to_owned());
        }
        assert(T::deserialized(entered(*old(self), chunk), mid, element));
        Ok(element)
    }

    /// Reads the chunk named `chunk_name`, which must exist, and takes it off the chunk
    /// table once it is read.
    pub fn read_chunk_required<T: GMChunkElement>(&mut self, chunk_name: &String) -> (r: Result<T, String>)
        requires
            old(self).wf(),
            old(self).chunk_padding != 0,
        ensures
            final(self).wf(),
            final(self).chunk_padding != 0,
            final(self).data == old(self).data,
            first_chunk_index(old(self).chunks@, chunk_name@, 0) is None ==> r is Err && *final(self) == *old(self),
            r matches Ok(v) ==> {
                let i = first_chunk_index(old(self).chunks@, chunk_name@, 0)->Some_0;
                let c = old(self).chunks@[i];
                &&& first_chunk_index(old(self).chunks@, chunk_name@, 0) is Some
                &&& final(self).chunks@ == old(self).chunks@.remove(i)
                &&& final(self).chunk == c
                &&& final(self).cur_pos == c.end_pos
                &&& exists|mid: DataReader<'a>| T::deserialized(entered(*old(self), c), mid, v)
            },
            first_chunk_index(old(self).chunks@, chunk_name@, 0) matches Some(i)
                && chunk_readable::<T>(*old(self), old(self).chunks@[i]) ==> r is Ok,
    {
        let i = match self.chunk_index(chunk_name) {
            Some(i) => i,
            None => {
                return Err("Required chunk not found in the chunk table".to_owned());
            },
        };
        proof {
            lemma_chunk_named_index(old(self).chunks@, chunk_name@, 0);
        }
        let chunk = self.chunks[i].clone();
        let element: T = self.read_chunk(chunk)?;
        self.chunks.remove(i);
        Ok(element)
    }

    /// Reads the chunk named `chunk_name` if the chunk table has it, taking it off the
    /// table; gives the empty value otherwise.
    pub fn read_chunk_optional<T: GMChunkElement>(&mut self, chunk_name: &String) -> (r: Result<T, String>)
        requires
            old(self).wf(),
            old(self).chunk_padding != 0,
        ensures
            final(self).wf(),
            final(self).chunk_padding != 0,
            final(self).data == old(self).data,
            first_chunk_index(old(self).chunks@, chunk_name@, 0) is None ==> r is Ok && *final(self) == *old(self),
            first_chunk_index(old(self).chunks@, chunk_name@, 0) is Some ==> (r matches Ok(v) ==> {
                let i = first_chunk_index(old(self).chunks@, chunk_name@, 0)->Some_0;
                let c = old(self).chunks@[i];
                &&& final(self).chunks@ == old(self).chunks@.remove(i)
                &&& final(self).chunk == c
                &&& final(self).cur_pos == c.end_pos
                &&& exists|mid: DataReader<'a>| #[trigger] T::deserialized(entered(with_chunks(*old(self), final(self).chunks), c), mid, v)
            }),
    {
        let i = match self.chunk_index(chunk_name) {
            Some(i) => i,
            None => {
                return Ok(T::empty());
            },
        };
        proof {
            lemma_chunk_named_index(old(self).chunks@, chunk_name@, 0);
        }
        let chunk = self.chunks.remove(i);
        self.read_chunk(chunk)
    }
}

} // verus!
