//! The data reader: bounded, position-tracking reads of the raw data file.

use std::collections::HashMap;
use vstd::prelude::*;
use vstd::utf8::{decode_utf8, valid_utf8};
use crate::bytes::{spec_i16_at, spec_i32_at, spec_i64_at, spec_u16_at, spec_u32_at, spec_u64_at, u16_from_le, u32_from_le, u64_from_le};
use crate::chunk::GMChunk;
use crate::refs::GMRef;
use crate::trusted::utf8_decode;
use crate::version::GMVersion;

verus! {

broadcast use vstd::std_specs::hash::group_hash_axioms;

/// The byte order of the data file.
#[derive(Clone, Copy, Debug, PartialEq, Eq, Structural)]
pub enum Endianness {
    Little,
    Big,
}

/// Resource numbers at or above this are rejected as implausible.
pub const RESOURCE_FAILSAFE_COUNT: u32 = 500000;

/// Reads the data file chunk by chunk. Every read is bounded by the current chunk.
pub struct DataReader<'a> {
    /// The raw data being parsed.
    pub data: &'a [u8],
    /// The absolute read position.
    pub cur_pos: u32,
    /// How many bytes of padding follow each chunk (16, 4 or 1).
    pub chunk_padding: u32,
    pub endianness: Endianness,
    /// All chunks of the file that have not been read yet, with distinct names.
    pub chunks: Vec<GMChunk>,
    /// The chunk being parsed; reads must stay within its bounds.
    pub chunk: GMChunk,
    pub bytecode_version: u8,
    pub gm_version: GMVersion,
    /// Whether the general info (chunk `GEN8`) has been read, so that `gm_version` holds
    /// the game's version.
    pub general_info_exists: bool,
    /// Absolute position of a string's character data -> string index.
    pub string_occurrences: HashMap<u32, u32>,
    /// Absolute position of a texture page item -> its index.
    pub texture_page_item_occurrences: HashMap<u32, u32>,
    /// Absolute position of a variable occurrence in code -> variable index.
    pub variable_occurrences: HashMap<u32, u32>,
    /// Absolute position of a function occurrence in code -> function index.
    pub function_occurrences: HashMap<u32, u32>,
}

impl<'a> DataReader<'a> {
    /// The current chunk lies within the data.
    pub open spec fn wf(&self) -> bool {
        &&& self.chunk.start_pos <= self.chunk.end_pos
        &&& self.chunk.end_pos <= self.data@.len()
    }

    /// `n` bytes can be read at the current position without leaving the chunk.
    pub open spec fn can_read(&self, n: int) -> bool {
        &&& self.chunk.start_pos <= self.cur_pos
        &&& self.cur_pos + n <= self.chunk.end_pos
    }

    /// This reader with the position set to `pos`.
    pub open spec fn moved(&self, pos: int) -> DataReader<'a> {
        DataReader { cur_pos: pos as u32, ..*self }
    }

    /// `after` is this reader after an attempt to read `n` bytes that succeeded iff `ok`.
    pub open spec fn steps(&self, after: DataReader<'a>, n: int, ok: bool) -> bool {
        if self.can_read(n) {
            ok && after == self.moved(self.cur_pos + n)
        } else {
            !ok && after == *self
        }
    }

    /// `after` differs from this reader in its position at most.
    pub open spec fn only_moved(&self, after: DataReader<'a>) -> bool {
        after == self.moved(after.cur_pos as int)
    }

    /// The bytes of the `n` byte read at the current position.
    pub open spec fn ahead(&self, n: int) -> Seq<u8> {
        self.data@.subrange(self.cur_pos as int, self.cur_pos + n)
    }

    /// A reader for `data`, positioned at 0 inside a `FORM` chunk spanning the whole data.
    pub fn new(data: &'a [u8]) -> (r: DataReader<'a>)
        requires
            data@.len() <= u32::MAX,
        ensures
            r.wf(),
            r.data == data,
            r.cur_pos == 0,
            r.chunk.start_pos == 0,
            r.chunk.end_pos == data@.len(),
            r.chunk.name@ == "FORM"@,
            r.chunk.is_last_chunk,
            r.chunk_padding == 16,
            r.endianness == Endianness::Little,
            !r.general_info_exists,
            r.chunks@.len() == 0,
            r.string_occurrences@ == Map::<u32, u32>::empty(),
            r.texture_page_item_occurrences@ == Map::<u32, u32>::empty(),
            r.variable_occurrences@ == Map::<u32, u32>::empty(),
            r.function_occurrences@ == Map::<u32, u32>::empty(),
    {
        DataReader {
            data,
            cur_pos: 0,
            chunk_padding: 16,
            endianness: Endianness::Little,
            chunks: Vec::new(),
            chunk: GMChunk {
                name: "FORM".to_owned(),
                start_pos: 0,
                end_pos: data.len() as u32,
                is_last_chunk: true,
            },
            bytecode_version: 0,
            gm_version: GMVersion::new(0, 0, 0, 0),
            general_info_exists: false,
            string_occurrences: HashMap::new(),
            texture_page_item_occurrences: HashMap::new(),
            variable_occurrences: HashMap::new(),
            function_occurrences: HashMap::new(),
        }
    }

    /// Reads `count` bytes and advances; fails when they would leave the current chunk.
    pub fn read_bytes_dyn(&mut self, count: u32) -> (r: Result<&'a [u8], String>)
        requires
            old(self).wf(),
        ensures
            final(self).wf(),
            old(self).steps(*final(self), count as int, r is Ok),
            r matches Ok(s) ==> s@ == old(self).ahead(count as int),
    {
        if self.cur_pos < self.chunk.start_pos {
            return Err("Trying to read bytes out of lower chunk bounds".to_owned());
        }
        if self.cur_pos as u64 + count as u64 > self.chunk.end_pos as u64 {
            return Err("Trying to read bytes out of upper chunk bounds".to_owned());
        }
        let start = self.cur_pos as usize;
        let end = start + count as usize;
        let slice = vstd::slice::slice_subrange(self.data, start, end);
        self.cur_pos = self.cur_pos + count;
        Ok(slice)
    }

    pub fn read_u8(&mut self) -> (r: Result<u8, String>)
        requires
            old(self).wf(),
        ensures
            final(self).wf(),
            old(self).steps(*final(self), 1, r is Ok),
            r matches Ok(v) ==> v == old(self).data@[old(self).cur_pos as int],
    {
        let b = self.read_bytes_dyn(1)?;
        Ok(b[0])
    }

    pub fn read_i8(&mut self) -> (r: Result<i8, String>)
        requires
            old(self).wf(),
        ensures
            final(self).wf(),
            old(self).steps(*final(self), 1, r is Ok),
            r matches Ok(v) ==> v == old(self).data@[old(self).cur_pos as int] as i8,
    {
        let b = self.read_bytes_dyn(1)?;
        Ok(b[0] as i8)
    }

    pub fn read_u16(&mut self) -> (r: Result<u16, String>)
        requires
            old(self).wf(),
        ensures
            final(self).wf(),
            old(self).steps(*final(self), 2, r is Ok),
            r matches Ok(v) ==> v == spec_u16_at(old(self).data@, old(self).cur_pos as int),
    {
        let b = self.read_bytes_dyn(2)?;
        let v = u16_from_le(b, 0);
        Ok(v)
    }

    pub fn read_i16(&mut self) -> (r: Result<i16, String>)
        requires
            old(self).wf(),
        ensures
            final(self).wf(),
            old(self).steps(*final(self), 2, r is Ok),
            r matches Ok(v) ==> v == spec_i16_at(old(self).data@, old(self).cur_pos as int),
    {
        let v = self.read_u16()?;
        Ok(v as i16)
    }

    pub fn read_u32(&mut self) -> (r: Result<u32, String>)
        requires
            old(self).wf(),
        ensures
            final(self).wf(),
            old(self).steps(*final(self), 4, r is Ok),
            r matches Ok(v) ==> v == spec_u32_at(old(self).data@, old(self).cur_pos as int),
    {
        let b = self.read_bytes_dyn(4)?;
        let v = u32_from_le(b, 0);
        Ok(v)
    }

    pub fn read_i32(&mut self) -> (r: Result<i32, String>)
        requires
            old(self).wf(),
        ensures
            final(self).wf(),
            old(self).steps(*final(self), 4, r is Ok),
            r matches Ok(v) ==> v == spec_i32_at(old(self).data@, old(self).cur_pos as int),
    {
        let v = self.read_u32()?;
        Ok(v as i32)
    }

    pub fn read_u64(&mut self) -> (r: Result<u64, String>)
        requires
            old(self).wf(),
        ensures
            final(self).wf(),
            old(self).steps(*final(self), 8, r is Ok),
            r matches Ok(v) ==> v == spec_u64_at(old(self).data@, old(self).cur_pos as int),
    {
        let b = self.read_bytes_dyn(8)?;
        let v = u64_from_le(b, 0);
        Ok(v)
    }

    pub fn read_i64(&mut self) -> (r: Result<i64, String>)
        requires
            old(self).wf(),
        ensures
            final(self).wf(),
            old(self).steps(*final(self), 8, r is Ok),
            r matches Ok(v) ==> v == spec_i64_at(old(self).data@, old(self).cur_pos as int),
    {
        let v = self.read_u64()?;
        Ok(v as i64)
    }

    /// Reads a 32-bit count or size.
    pub fn read_usize(&mut self) -> (r: Result<usize, String>)
        requires
            old(self).wf(),
        ensures
            final(self).wf(),
            old(self).steps(*final(self), 4, r is Ok),
            r matches Ok(v) ==> v == spec_u32_at(old(self).data@, old(self).cur_pos as int),
    {
        let v = self.read_u32()?;
        Ok(v as usize)
    }

    /// Reads 16 bytes.
    pub fn read_bytes16(&mut self) -> (r: Result<[u8; 16], String>)
        requires
            old(self).wf(),
        ensures
            final(self).wf(),
            final(self).data == old(self).data,
            r is Ok <==> old(self).can_read(16),
            old(self).only_moved(*final(self)),
            r matches Ok(a) ==> a@ == old(self).ahead(16) && *final(self) == old(self).moved(old(self).cur_pos + 16),
    {
        let s = self.read_bytes_dyn(16)?;
        let a: [u8; 16] = [s[0], s[1], s[2], s[3], s[4], s[5], s[6], s[7], s[8], s[9], s[10], s[11], s[12], s[13], s[14], s[15]];
        assert(a@ =~= s@);
        Ok(a)
    }

    /// Reads a 32-bit boolean; only 0 and 1 are accepted.
    pub fn read_bool32(&mut self) -> (r: Result<bool, String>)
        requires
            old(self).wf(),
        ensures
            final(self).wf(),
            ({
                let raw = spec_u32_at(old(self).data@, old(self).cur_pos as int);
                &&& r is Ok <==> old(self).can_read(4) && (raw == 0 || raw == 1)
                &&& r matches Ok(b) ==> b == (raw == 1)
                &&& if old(self).can_read(4) {
                    *final(self) == old(self).moved(old(self).cur_pos + 4)
                } else {
                    *final(self) == *old(self)
                }
            }),
    {
        let number = self.read_u32()?;
        if number == 0 {
            Ok(false)
        } else if number == 1 {
            Ok(true)
        } else {
            Err("Read invalid boolean value".to_owned())
        }
    }

    /// Reads `length` bytes as a UTF-8 string.
    pub fn read_literal_string(&mut self, length: u32) -> (r: Result<String, String>)
        requires
            old(self).wf(),
        ensures
            final(self).wf(),
            r is Ok <==> old(self).can_read(length as int) && valid_utf8(old(self).ahead(length as int)),
            r matches Ok(s) ==> s@ == decode_utf8(old(self).ahead(length as int)),
            if old(self).can_read(length as int) {
                *final(self) == old(self).moved(old(self).cur_pos + length)
            } else {
                *final(self) == *old(self)
            },
    {
        let bytes = self.read_bytes_dyn(length)?;
        match utf8_decode(bytes) {
            Some(s) => Ok(s),
            None => Err("Invalid UTF-8 in literal string".to_owned()),
        }
    }

    /// The length of the chunk being parsed.
    pub fn get_chunk_length(&self) -> (r: u32)
        requires
            self.wf(),
        ensures
            r == self.chunk.end_pos - self.chunk.start_pos,
    {
        self.chunk.end_pos - self.chunk.start_pos
    }

    /// Ensures the reader is at `position`.
    pub fn assert_pos(&self, position: u32) -> (r: Result<(), String>)
        ensures
            r is Ok <==> self.cur_pos == position,
    {
        if self.cur_pos != position {
            if position == 0 {
                return Err("Pointer is zero; null pointers are not supported".to_owned());
            }
            return Err("Pointer misaligned: reader is not at the expected position".to_owned());
        }
        Ok(())
    }

    /// Sets the position relative to the start of the current chunk.
    pub fn set_rel_cur_pos(&mut self, relative_position: u32) -> (r: Result<(), String>)
        requires
            old(self).wf(),
        ensures
            final(self).wf(),
            r is Ok <==> old(self).chunk.start_pos + relative_position <= old(self).chunk.end_pos,
            r is Ok ==> *final(self) == old(self).moved(
                old(self).chunk.start_pos + relative_position,
            ),
            r is Err ==> *final(self) == *old(self),
    {
        if self.chunk.start_pos as u64 + relative_position as u64 > self.chunk.end_pos as u64 {
            return Err("Relative reader position out of chunk bounds".to_owned());
        }
        self.cur_pos = self.chunk.start_pos + relative_position;
        Ok(())
    }

    /// The position relative to the start of the current chunk.
    pub fn get_rel_cur_pos(&self) -> (r: u32)
        requires
            self.cur_pos >= self.chunk.start_pos,
        ensures
            r == self.cur_pos - self.chunk.start_pos,
    {
        self.cur_pos - self.chunk.start_pos
    }
}

/// The number of bytes needed to move `pos` up to a multiple of `alignment`.
pub open spec fn align_pad(pos: int, alignment: int) -> int {
    if pos % alignment == 0 {
        0
    } else {
        alignment - pos % alignment
    }
}

impl<'a> DataReader<'a> {
    /// The padding up to the next multiple of `alignment` lies in the chunk and is zero.
    pub open spec fn zero_padded(&self, alignment: int) -> bool {
        let k = align_pad(self.cur_pos as int, alignment);
        k == 0 || {
            &&& self.can_read(k)
            &&& forall|i: int| 0 <= i < k ==> #[trigger] self.data@[self.cur_pos + i] == 0
        }
    }

    /// This reader moved past the padding up to the next multiple of `alignment`.
    pub open spec fn aligned(&self, alignment: int) -> DataReader<'a> {
        self.moved(self.cur_pos + align_pad(self.cur_pos as int, alignment))
    }

    /// Reads zero bytes until the position is a multiple of `alignment`; reads nothing (and
    /// succeeds) where it already is one, and fails on a nonzero padding byte or when the
    /// padding leaves the chunk.
    pub fn align(&mut self, alignment: u32) -> (r: Result<(), String>)
        requires
            old(self).wf(),
            alignment > 0,
        ensures
            final(self).wf(),
            final(self).data == old(self).data,
            final(self).chunk == old(self).chunk,
            old(self).only_moved(*final(self)),
            ({
                let k = align_pad(old(self).cur_pos as int, alignment as int);
                &&& r is Ok <==> k == 0 || (old(self).can_read(k) && (forall|i: int|
                    0 <= i < k ==> #[trigger] old(self).data@[old(self).cur_pos + i] == 0))
                &&& r is Ok ==> *final(self) == old(self).moved(old(self).cur_pos + k)
            }),
    {
        let ghost start = self.cur_pos as int;
        let rem = self.cur_pos % alignment;
        let k: u32 = if rem == 0 {
            0
        } else {
            alignment - rem
        };
        if k == 0 {
            return Ok(());
        }
        if self.cur_pos < self.chunk.start_pos || self.cur_pos as u64 + k as u64
            > self.chunk.end_pos as u64 {
            return Err("Trying to read alignment padding out of chunk bounds".to_owned());
        }
        let mut i: u32 = 0;
        while i < k
            invariant
                0 <= i <= k,
                self.wf(),
                k == align_pad(start, alignment as int),
                old(self).can_read(k as int),
                old(self).cur_pos == start,
                *self == old(self).moved(start + i),
                forall|j: int| 0 <= j < i ==> #[trigger] old(self).data@[start + j] == 0,
            decreases k - i,
        {
            let byte = self.read_u8()?;
            if byte != 0 {
                return Err("Invalid nonzero padding byte while aligning".to_owned());
            }
            i = i + 1;
        }
        Ok(())
    }
}

} // verus!
