//! Elements that can be read from and written to a data file.

use vstd::prelude::*;
use crate::builder::{lemma_appended_extends, DataBuilder};
use crate::bytes::{spec_i16_at, spec_i32_at, spec_i64_at, spec_u16_at, spec_u32_at, spec_u64_at, u16_le_bytes, u32_le_bytes, u64_le_bytes};
use crate::reader::DataReader;

verus! {

/// A value with a binary form in the data file.
pub trait GMElement: Sized {
    /// `value` was read by moving from `before` to `after`.
    spec fn deserialized<'a>(before: DataReader<'a>, after: DataReader<'a>, value: Self) -> bool;

    /// The bytes at the reader's position hold a value, so that reading it succeeds.
    spec fn readable<'a>(before: DataReader<'a>) -> bool;

    /// Where the reader stands after reading the value, when it is readable.
    spec fn read_end<'a>(before: DataReader<'a>) -> int;

    /// Reads a value at the reader's position.
    fn deserialize(reader: &mut DataReader) -> (r: Result<Self, String>)
        requires
            old(reader).wf(),
        ensures
            final(reader).wf(),
            final(reader).data == old(reader).data,
            old(reader).only_moved(*final(reader)),
            r matches Ok(v) ==> Self::deserialized(*old(reader), *final(reader), v),
            Self::readable(*old(reader)) ==> r is Ok && final(reader).cur_pos == Self::read_end(*old(reader)),
    ;

    /// Writing the value at the end of `before` succeeds.
    spec fn writable(&self, before: DataBuilder) -> bool;

    /// `after` is `before` with the value written at its end.
    spec fn written(&self, before: DataBuilder, after: DataBuilder) -> bool;

    /// Writes the value at the builder's end.
    fn serialize(&self, builder: &mut DataBuilder) -> (r: Result<(), String>)
        ensures
            final(builder).extends(old(builder)),
            self.writable(*old(builder)) ==> r is Ok,
            r is Ok ==> self.written(*old(builder), *final(builder)),
    ;

    /// Reads the padding before an element of a pointer list; the elements of this library
    /// have none.
    fn deserialize_pre_padding(reader: &mut DataReader) -> (r: Result<(), String>)
        requires
            old(reader).wf(),
        ensures
            final(reader).wf(),
            final(reader).data == old(reader).data,
            old(reader).only_moved(*final(reader)),
            r is Ok && *final(reader) == *old(reader),
    {
        Ok(())
    }

    /// Reads the padding after an element of a pointer list; the elements of this library
    /// have none.
    fn deserialize_post_padding(reader: &mut DataReader, is_last: bool) -> (r: Result<(), String>)
        requires
            old(reader).wf(),
        ensures
            final(reader).wf(),
            final(reader).data == old(reader).data,
            old(reader).only_moved(*final(reader)),
            r is Ok && *final(reader) == *old(reader),
    {
        Ok(())
    }
}

/// A chunk of the data file, which a data file may lack.
pub trait GMChunkElement: GMElement {
    /// The value that stands for a chunk the data file lacks.
    fn empty() -> Self;

    /// Whether the data file has this chunk.
    fn chunk_exists(&self) -> (r: bool);
}

/// `after` is `before` moved past `n` bytes that could be read.
pub open spec fn moved_past<'a>(before: DataReader<'a>, after: DataReader<'a>, n: int) -> bool {
    before.can_read(n) && after == before.moved(before.cur_pos + n)
}

impl GMElement for u8 {
    open spec fn readable<'a>(before: DataReader<'a>) -> bool {
        before.can_read(1)
    }

    open spec fn read_end<'a>(before: DataReader<'a>) -> int {
        before.cur_pos + 1
    }

    open spec fn writable(&self, before: DataBuilder) -> bool {
        true
    }

    open spec fn written(&self, before: DataBuilder, after: DataBuilder) -> bool {
        after.appended(&before, seq![*self])
    }

    open spec fn deserialized<'a>(before: DataReader<'a>, after: DataReader<'a>, value: u8) -> bool {
        moved_past(before, after, 1) && value == before.data@[before.cur_pos as int]
    }

    fn deserialize(reader: &mut DataReader) -> (r: Result<u8, String>) {
        reader.read_u8()
    }

    fn serialize(&self, builder: &mut DataBuilder) -> (r: Result<(), String>)
        ensures
            r is Ok && final(builder).appended(old(builder), seq![*self]),
    {
        builder.write_u8(*self);
        proof {
            lemma_appended_extends(*old(builder), *builder, seq![*self]);
        }
        Ok(())
    }
}

impl GMElement for i8 {
    open spec fn readable<'a>(before: DataReader<'a>) -> bool {
        before.can_read(1)
    }

    open spec fn read_end<'a>(before: DataReader<'a>) -> int {
        before.cur_pos + 1
    }

    open spec fn writable(&self, before: DataBuilder) -> bool {
        true
    }

    open spec fn written(&self, before: DataBuilder, after: DataBuilder) -> bool {
        after.appended(&before, seq![*self as u8])
    }

    open spec fn deserialized<'a>(before: DataReader<'a>, after: DataReader<'a>, value: i8) -> bool {
        moved_past(before, after, 1) && value == before.data@[before.cur_pos as int] as i8
    }

    fn deserialize(reader: &mut DataReader) -> (r: Result<i8, String>) {
        reader.read_i8()
    }

    fn serialize(&self, builder: &mut DataBuilder) -> (r: Result<(), String>)
        ensures
            r is Ok && final(builder).appended(old(builder), seq![*self as u8]),
    {
        builder.write_i8(*self);
        proof {
            lemma_appended_extends(*old(builder), *builder, seq![*self as u8]);
        }
        Ok(())
    }
}

impl GMElement for u16 {
    open spec fn readable<'a>(before: DataReader<'a>) -> bool {
        before.can_read(2)
    }

    open spec fn read_end<'a>(before: DataReader<'a>) -> int {
        before.cur_pos + 2
    }

    open spec fn writable(&self, before: DataBuilder) -> bool {
        true
    }

    open spec fn written(&self, before: DataBuilder, after: DataBuilder) -> bool {
        after.appended(&before, u16_le_bytes(*self))
    }

    open spec fn deserialized<'a>(before: DataReader<'a>, after: DataReader<'a>, value: u16) -> bool {
        moved_past(before, after, 2) && value == spec_u16_at(before.data@, before.cur_pos as int)
    }

    fn deserialize(reader: &mut DataReader) -> (r: Result<u16, String>) {
        reader.read_u16()
    }

    fn serialize(&self, builder: &mut DataBuilder) -> (r: Result<(), String>)
        ensures
            r is Ok && final(builder).appended(old(builder), u16_le_bytes(*self)),
    {
        builder.write_u16(*self);
        proof {
            lemma_appended_extends(*old(builder), *builder, u16_le_bytes(*self));
        }
        Ok(())
    }
}

impl GMElement for i16 {
    open spec fn readable<'a>(before: DataReader<'a>) -> bool {
        before.can_read(2)
    }

    open spec fn read_end<'a>(before: DataReader<'a>) -> int {
        before.cur_pos + 2
    }

    open spec fn writable(&self, before: DataBuilder) -> bool {
        true
    }

    open spec fn written(&self, before: DataBuilder, after: DataBuilder) -> bool {
        after.appended(&before, u16_le_bytes(*self as u16))
    }

    open spec fn deserialized<'a>(before: DataReader<'a>, after: DataReader<'a>, value: i16) -> bool {
        moved_past(before, after, 2) && value == spec_i16_at(before.data@, before.cur_pos as int)
    }

    fn deserialize(reader: &mut DataReader) -> (r: Result<i16, String>) {
        reader.read_i16()
    }

    fn serialize(&self, builder: &mut DataBuilder) -> (r: Result<(), String>)
        ensures
            r is Ok && final(builder).appended(old(builder), u16_le_bytes(*self as u16)),
    {
        builder.write_i16(*self);
        proof {
            lemma_appended_extends(*old(builder), *builder, u16_le_bytes(*self as u16));
        }
        Ok(())
    }
}

impl GMElement for u32 {
    open spec fn readable<'a>(before: DataReader<'a>) -> bool {
        before.can_read(4)
    }

    open spec fn read_end<'a>(before: DataReader<'a>) -> int {
        before.cur_pos + 4
    }

    open spec fn writable(&self, before: DataBuilder) -> bool {
        true
    }

    open spec fn written(&self, before: DataBuilder, after: DataBuilder) -> bool {
        after.appended(&before, u32_le_bytes(*self))
    }

    open spec fn deserialized<'a>(before: DataReader<'a>, after: DataReader<'a>, value: u32) -> bool {
        moved_past(before, after, 4) && value == spec_u32_at(before.data@, before.cur_pos as int)
    }

    fn deserialize(reader: &mut DataReader) -> (r: Result<u32, String>) {
        reader.read_u32()
    }

    fn serialize(&self, builder: &mut DataBuilder) -> (r: Result<(), String>)
        ensures
            r is Ok && final(builder).appended(old(builder), u32_le_bytes(*self)),
    {
        builder.write_u32(*self);
        proof {
            lemma_appended_extends(*old(builder), *builder, u32_le_bytes(*self));
        }
        Ok(())
    }
}

impl GMElement for i32 {
    open spec fn readable<'a>(before: DataReader<'a>) -> bool {
        before.can_read(4)
    }

    open spec fn read_end<'a>(before: DataReader<'a>) -> int {
        before.cur_pos + 4
    }

    open spec fn writable(&self, before: DataBuilder) -> bool {
        true
    }

    open spec fn written(&self, before: DataBuilder, after: DataBuilder) -> bool {
        after.appended(&before, u32_le_bytes(*self as u32))
    }

    open spec fn deserialized<'a>(before: DataReader<'a>, after: DataReader<'a>, value: i32) -> bool {
        moved_past(before, after, 4) && value == spec_i32_at(before.data@, before.cur_pos as int)
    }

    fn deserialize(reader: &mut DataReader) -> (r: Result<i32, String>) {
        reader.read_i32()
    }

    fn serialize(&self, builder: &mut DataBuilder) -> (r: Result<(), String>)
        ensures
            r is Ok && final(builder).appended(old(builder), u32_le_bytes(*self as u32)),
    {
        builder.write_i32(*self);
        proof {
            lemma_appended_extends(*old(builder), *builder, u32_le_bytes(*self as u32));
        }
        Ok(())
    }
}

impl GMElement for u64 {
    open spec fn readable<'a>(before: DataReader<'a>) -> bool {
        before.can_read(8)
    }

    open spec fn read_end<'a>(before: DataReader<'a>) -> int {
        before.cur_pos + 8
    }

    open spec fn writable(&self, before: DataBuilder) -> bool {
        true
    }

    open spec fn written(&self, before: DataBuilder, after: DataBuilder) -> bool {
        after.appended(&before, u64_le_bytes(*self))
    }

    open spec fn deserialized<'a>(before: DataReader<'a>, after: DataReader<'a>, value: u64) -> bool {
        moved_past(before, after, 8) && value == spec_u64_at(before.data@, before.cur_pos as int)
    }

    fn deserialize(reader: &mut DataReader) -> (r: Result<u64, String>) {
        reader.read_u64()
    }

    fn serialize(&self, builder: &mut DataBuilder) -> (r: Result<(), String>)
        ensures
            r is Ok && final(builder).appended(old(builder), u64_le_bytes(*self)),
    {
        builder.write_u64(*self);
        proof {
            lemma_appended_extends(*old(builder), *builder, u64_le_bytes(*self));
        }
        Ok(())
    }
}

impl GMElement for i64 {
    open spec fn readable<'a>(before: DataReader<'a>) -> bool {
        before.can_read(8)
    }

    open spec fn read_end<'a>(before: DataReader<'a>) -> int {
        before.cur_pos + 8
    }

    open spec fn writable(&self, before: DataBuilder) -> bool {
        true
    }

    open spec fn written(&self, before: DataBuilder, after: DataBuilder) -> bool {
        after.appended(&before, u64_le_bytes(*self as u64))
    }

    open spec fn deserialized<'a>(before: DataReader<'a>, after: DataReader<'a>, value: i64) -> bool {
        moved_past(before, after, 8) && value == spec_i64_at(before.data@, before.cur_pos as int)
    }

    fn deserialize(reader: &mut DataReader) -> (r: Result<i64, String>) {
        reader.read_i64()
    }

    fn serialize(&self, builder: &mut DataBuilder) -> (r: Result<(), String>)
        ensures
            r is Ok && final(builder).appended(old(builder), u64_le_bytes(*self as u64)),
    {
        builder.write_i64(*self);
        proof {
            lemma_appended_extends(*old(builder), *builder, u64_le_bytes(*self as u64));
        }
        Ok(())
    }
}

impl GMElement for bool {
    open spec fn readable<'a>(before: DataReader<'a>) -> bool {
        let raw = spec_u32_at(before.data@, before.cur_pos as int);
        before.can_read(4) && (raw == 0 || raw == 1)
    }

    open spec fn read_end<'a>(before: DataReader<'a>) -> int {
        before.cur_pos + 4
    }

    open spec fn writable(&self, before: DataBuilder) -> bool {
        true
    }

    open spec fn written(&self, before: DataBuilder, after: DataBuilder) -> bool {
        after.appended(&before, u32_le_bytes(if *self { 1u32 } else { 0u32 }))
    }

    open spec fn deserialized<'a>(before: DataReader<'a>, after: DataReader<'a>, value: bool) -> bool {
        let raw = spec_u32_at(before.data@, before.cur_pos as int);
        moved_past(before, after, 4) && (raw == 0 || raw == 1) && value == (raw == 1)
    }

    fn deserialize(reader: &mut DataReader) -> (r: Result<bool, String>) {
        reader.read_bool32()
    }

    fn serialize(&self, builder: &mut DataBuilder) -> (r: Result<(), String>)
        ensures
            r is Ok && final(builder).appended(old(builder), u32_le_bytes(if *self { 1u32 } else { 0u32 })),
    {
        builder.write_bool32(*self);
        proof {
            lemma_appended_extends(*old(builder), *builder, u32_le_bytes(if *self { 1u32 } else { 0u32 }));
        }
        Ok(())
    }
}

} // verus!
