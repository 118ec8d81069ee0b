//! The data builder: appends the little-endian encoding of values to a byte buffer.

use vstd::prelude::*;
use vstd::utf8::encode_utf8;
use crate::bytes::{lemma_u16_bytes, lemma_u32_bytes, u16_le_bytes, u32_le_bytes, u64_le_bytes};
use crate::reader::align_pad;
use crate::code::GMVariableType;
use crate::refs::GMRef;
use crate::resources::GMTexturePageItem;
use crate::version::{version_at_least, GMVersion};

verus! {

/// Builds the bytes of a data file.
pub struct DataBuilder {
    /// Everything written so far.
    pub bytes: Vec<u8>,
    pub bytecode_version: u8,
    pub gm_version: GMVersion,
    /// For each string reference written: (position of the placeholder, string index).
    /// The placeholders are patched once the string data positions are known.
    pub string_refs: Vec<(u32, u32)>,
    /// For each texture page item reference written: (position of the placeholder, item
    /// index). The placeholders are patched once the items' positions are known.
    pub texture_refs: Vec<(u32, u32)>,
    /// For each variable: the positions of the instructions that reference it, with the
    /// variable type used there.
    pub variable_occurrences: Vec<Vec<(usize, GMVariableType)>>,
    /// For each function: the positions of the instructions that reference it.
    pub function_occurrences: Vec<Vec<usize>>,
    /// For each variable: the index of its name string.
    pub variable_name_ids: Vec<u32>,
    /// For each function: the index of its name string.
    pub function_name_ids: Vec<u32>,
}

impl DataBuilder {
    /// Everything but the bytes is the same in `self` and `other`.
    pub open spec fn same_meta(&self, other: &DataBuilder) -> bool {
        &&& self.bytecode_version == other.bytecode_version
        &&& self.gm_version == other.gm_version
        &&& self.string_refs@ == other.string_refs@
        &&& self.texture_refs@ == other.texture_refs@
        &&& self.variable_occurrences@ == other.variable_occurrences@
        &&& self.function_occurrences@ == other.function_occurrences@
        &&& self.variable_name_ids@ == other.variable_name_ids@
        &&& self.function_name_ids@ == other.function_name_ids@
    }

    /// `self` is `before` with `appended` written at the end.
    pub open spec fn appended(&self, before: &DataBuilder, appended: Seq<u8>) -> bool {
        &&& self.bytes@ == before.bytes@ + appended
        &&& self.same_meta(before)
    }

    /// `self` holds all that `before` held, maybe followed by more, with the same versions.
    pub open spec fn extends(&self, before: &DataBuilder) -> bool {
        &&& before.bytes@.len() <= self.bytes@.len()
        &&& self.bytes@.subrange(0, before.bytes@.len() as int) == before.bytes@
        &&& self.bytecode_version == before.bytecode_version
        &&& self.gm_version == before.gm_version
    }

    /// An empty builder for the given versions.
    pub fn new(bytecode_version: u8, gm_version: GMVersion) -> (b: DataBuilder)
        ensures
            b.bytes@ == Seq::<u8>::empty(),
            b.bytecode_version == bytecode_version,
            b.gm_version == gm_version,
            b.string_refs@ == Seq::<(u32, u32)>::empty(),
            b.texture_refs@ == Seq::<(u32, u32)>::empty(),
            b.variable_occurrences@.len() == 0,
            b.function_occurrences@.len() == 0,
            b.variable_name_ids@.len() == 0,
            b.function_name_ids@.len() == 0,
    {
        DataBuilder {
            bytes: Vec::new(),
            bytecode_version,
            gm_version,
            string_refs: Vec::new(),
            texture_refs: Vec::new(),
            variable_occurrences: Vec::new(),
            function_occurrences: Vec::new(),
            variable_name_ids: Vec::new(),
            function_name_ids: Vec::new(),
        }
    }

    /// The number of bytes written so far.
    pub fn len(&self) -> (r: usize)
        ensures
            r == self.bytes@.len(),
    {
        self.bytes.len()
    }

    pub fn is_gm_version_at_least(&self, req: &GMVersion) -> (r: bool)
        ensures
            r == version_at_least(self.gm_version, *req),
    {
        self.gm_version.is_version_at_least(req)
    }

    pub fn write_u8(&mut self, v: u8)
        ensures
            final(self).appended(old(self), seq![v]),
    {
        self.bytes.push(v);
        assert(self.bytes@ =~= old(self).bytes@ + seq![v]);
    }

    pub fn write_i8(&mut self, v: i8)
        ensures
            final(self).appended(old(self), seq![v as u8]),
    {
        self.bytes.push(v as u8);
        assert(self.bytes@ =~= old(self).bytes@ + seq![v as u8]);
    }

    pub fn write_u16(&mut self, v: u16)
        ensures
            final(self).appended(old(self), u16_le_bytes(v)),
    {
        self.bytes.push((v & 0xff) as u8);
        self.bytes.push(((v >> 8u16) & 0xff) as u8);
        assert(self.bytes@ =~= old(self).bytes@ + u16_le_bytes(v));
    }

    pub fn write_i16(&mut self, v: i16)
        ensures
            final(self).appended(old(self), u16_le_bytes(v as u16)),
    {
        self.write_u16(v as u16);
    }

    pub fn write_u32(&mut self, v: u32)
        ensures
            final(self).appended(old(self), u32_le_bytes(v)),
    {
        self.bytes.push((v & 0xff) as u8);
        self.bytes.push(((v >> 8u32) & 0xff) as u8);
        self.bytes.push(((v >> 16u32) & 0xff) as u8);
        self.bytes.push(((v >> 24u32) & 0xff) as u8);
        assert(self.bytes@ =~= old(self).bytes@ + u32_le_bytes(v));
    }

    pub fn write_i32(&mut self, v: i32)
        ensures
            final(self).appended(old(self), u32_le_bytes(v as u32)),
    {
        self.write_u32(v as u32);
    }

    pub fn write_u64(&mut self, v: u64)
        ensures
            final(self).appended(old(self), u64_le_bytes(v)),
    {
        self.write_u32((v & 0xffff_ffff) as u32);
        self.write_u32((v >> 32u64) as u32);
        assert(self.bytes@ =~= old(self).bytes@ + u64_le_bytes(v));
    }

    pub fn write_i64(&mut self, v: i64)
        ensures
            final(self).appended(old(self), u64_le_bytes(v as u64)),
    {
        self.write_u64(v as u64);
    }

    /// Writes the low 24 bits of `v`, least significant first.
    pub fn write_i24(&mut self, v: i32)
        ensures
            final(self).appended(old(self), u32_le_bytes(v as u32).subrange(0, 3)),
    {
        let u = v as u32;
        self.bytes.push((u & 0xff) as u8);
        self.bytes.push(((u >> 8u32) & 0xff) as u8);
        self.bytes.push(((u >> 16u32) & 0xff) as u8);
        assert(self.bytes@ =~= old(self).bytes@ + u32_le_bytes(v as u32).subrange(0, 3));
    }

    /// Writes a count or size as 32 bits; fails when it does not fit.
    pub fn write_usize(&mut self, v: usize) -> (r: Result<(), String>)
        ensures
            r is Ok <==> v <= u32::MAX,
            r is Ok ==> final(self).appended(old(self), u32_le_bytes(v as u32)),
            r is Err ==> *final(self) == *old(self),
    {
        if v > u32::MAX as usize {
            return Err("Number does not fit in 32 bits".to_owned());
        }
        self.write_u32(v as u32);
        Ok(())
    }

    /// Writes a boolean as 32 bits (0 or 1).
    pub fn write_bool32(&mut self, v: bool)
        ensures
            final(self).appended(old(self), u32_le_bytes(if v { 1u32 } else { 0u32 })),
    {
        self.write_u32(if v { 1 } else { 0 });
    }

    pub fn write_bytes(&mut self, data: &[u8])
        ensures
            final(self).appended(old(self), data@),
    {
        let mut i: usize = 0;
        while i < data.len()
            invariant
                0 <= i <= data@.len(),
                self.appended(old(self), data@.subrange(0, i as int)),
            decreases data@.len() - i,
        {
            self.bytes.push(data[i]);
            i = i + 1;
            assert(self.bytes@ =~= old(self).bytes@ + data@.subrange(0, i as int));
        }
        assert(data@.subrange(0, data@.len() as int) =~= data@);
    }

    /// Writes the UTF-8 encoding of `s` (no length, no terminator).
    pub fn write_literal_string(&mut self, s: &String)
        ensures
            final(self).appended(old(self), encode_utf8(s@)),
    {
        let b = s.as_str().as_bytes();
        self.write_bytes(b);
    }

    /// Writes zero bytes until the length is a multiple of `alignment`.
    pub fn align(&mut self, alignment: u32)
        requires
            alignment > 0,
        ensures
            final(self).appended(
                old(self),
                Seq::new(align_pad(old(self).bytes@.len() as int, alignment as int) as nat, |i: int| 0u8),
            ),
    {
        let a = alignment as usize;
        let rem = self.bytes.len() % a;
        let k: usize = if rem == 0 { 0 } else { a - rem };
        let mut i: usize = 0;
        while i < k
            invariant
                0 <= i <= k,
                k == align_pad(old(self).bytes@.len() as int, alignment as int),
                self.appended(old(self), Seq::new(i as nat, |j: int| 0u8)),
            decreases k - i,
        {
            self.bytes.push(0);
            i = i + 1;
            assert(self.bytes@ =~= old(self).bytes@ + Seq::new(i as nat, |j: int| 0u8));
        }
    }

    /// Overwrites the 4 bytes at `position` with `v`; fails when they are not all written yet.
    pub fn overwrite_u32(&mut self, v: u32, position: usize) -> (r: Result<(), String>)
        ensures
            r is Ok <==> position + 4 <= old(self).bytes@.len(),
            r is Ok ==> final(self).bytes@ == old(self).bytes@.subrange(0, position as int)
                + u32_le_bytes(v) + old(self).bytes@.subrange(position + 4, old(self).bytes@.len() as int),
            final(self).same_meta(old(self)),
            r is Err ==> final(self).bytes@ == old(self).bytes@,
    {
        if position > self.bytes.len() || self.bytes.len() - position < 4 {
            return Err("Trying to overwrite data out of bounds".to_owned());
        }
        self.bytes.set(position, (v & 0xff) as u8);
        self.bytes.set(position + 1, ((v >> 8u32) & 0xff) as u8);
        self.bytes.set(position + 2, ((v >> 16u32) & 0xff) as u8);
        self.bytes.set(position + 3, ((v >> 24u32) & 0xff) as u8);
        assert(self.bytes@ =~= old(self).bytes@.subrange(0, position as int) + u32_le_bytes(v)
            + old(self).bytes@.subrange(position + 4, old(self).bytes@.len() as int));
        Ok(())
    }

    pub fn overwrite_i32(&mut self, v: i32, position: usize) -> (r: Result<(), String>)
        ensures
            r is Ok <==> position + 4 <= old(self).bytes@.len(),
            r is Ok ==> final(self).bytes@ == old(self).bytes@.subrange(0, position as int)
                + u32_le_bytes(v as u32) + old(self).bytes@.subrange(position + 4, old(self).bytes@.len() as int),
            final(self).same_meta(old(self)),
            r is Err ==> final(self).bytes@ == old(self).bytes@,
    {
        self.overwrite_u32(v as u32, position)
    }

    /// Overwrites 4 bytes with a count or size; fails when it does not fit in 32 bits.
    pub fn overwrite_usize(&mut self, v: usize, position: usize) -> (r: Result<(), String>)
        ensures
            r is Ok <==> v <= u32::MAX && position + 4 <= old(self).bytes@.len(),
            r is Ok ==> final(self).bytes@ == old(self).bytes@.subrange(0, position as int)
                + u32_le_bytes(v as u32) + old(self).bytes@.subrange(position + 4, old(self).bytes@.len() as int),
            final(self).same_meta(old(self)),
            r is Err ==> final(self).bytes@ == old(self).bytes@,
    {
        if v > u32::MAX as usize {
            return Err("Number does not fit in 32 bits".to_owned());
        }
        self.overwrite_u32(v as u32, position)
    }

    /// Writes the index of a resource.
    pub fn write_resource_id<T>(&mut self, r: &GMRef<T>)
        ensures
            final(self).appended(old(self), u32_le_bytes(r.index)),
    {
        self.write_u32(r.index);
    }

    /// Writes a placeholder for a string reference and records it; it is patched with the
    /// position of the string's character data once the strings are written.
    pub fn write_gm_string(&mut self, r: &GMRef<String>) -> (res: Result<(), String>)
        ensures
            res is Ok <==> old(self).bytes@.len() <= u32::MAX,
            res is Ok ==> {
                &&& final(self).bytes@ == old(self).bytes@ + u32_le_bytes(0xDEADC0DEu32)
                &&& final(self).string_refs@ == old(self).string_refs@.push(
                    (old(self).bytes@.len() as u32, r.index),
                )
                &&& final(self).bytecode_version == old(self).bytecode_version
                &&& final(self).gm_version == old(self).gm_version
                &&& final(self).variable_occurrences@ == old(self).variable_occurrences@
                &&& final(self).function_occurrences@ == old(self).function_occurrences@
                &&& final(self).variable_name_ids@ == old(self).variable_name_ids@
                &&& final(self).function_name_ids@ == old(self).function_name_ids@
            },
            res is Err ==> *final(self) == *old(self),
            final(self).extends(old(self)),
    {
        proof {
            lemma_extends_refl(*self);
        }
        let pos = self.bytes.len();
        if pos > u32::MAX as usize {
            return Err("Data too large for a string reference".to_owned());
        }
        self.string_refs.push((pos as u32, r.index));
        self.write_u32(0xDEADC0DE);
        proof {
            lemma_grew_extends(*old(self), *self, u32_le_bytes(0xDEADC0DEu32));
        }
        Ok(())
    }

    /// Writes a placeholder for a texture page item reference and records it; it is patched
    /// with the item's position once the items are written.
    pub fn write_gm_texture(&mut self, r: &GMRef<GMTexturePageItem>) -> (res: Result<(), String>)
        ensures
            res is Ok <==> old(self).bytes@.len() <= u32::MAX,
            res is Ok ==> {
                &&& final(self).bytes@ == old(self).bytes@ + u32_le_bytes(0xDEADC0DEu32)
                &&& final(self).texture_refs@ == old(self).texture_refs@.push((old(self).bytes@.len() as u32, r.index))
                &&& final(self).string_refs@ == old(self).string_refs@
            },
            res is Err ==> *final(self) == *old(self),
            final(self).extends(old(self)),
    {
        proof {
            lemma_extends_refl(*self);
        }
        let pos = self.bytes.len();
        if pos > u32::MAX as usize {
            return Err("Data too large for a texture reference".to_owned());
        }
        self.texture_refs.push((pos as u32, r.index));
        self.write_u32(0xDEADC0DE);
        proof {
            lemma_prefix_extends(*old(self), *self);
        }
        Ok(())
    }

    /// Writes an optional texture page item reference: 0 for none.
    pub fn write_gm_texture_opt(&mut self, r: &Option<GMRef<GMTexturePageItem>>) -> (res: Result<(), String>)
        ensures
            r is None ==> res is Ok && final(self).appended(old(self), u32_le_bytes(0)),
            r is Some ==> (res is Ok <==> old(self).bytes@.len() <= u32::MAX),
            res is Ok ==> final(self).bytes@ == old(self).bytes@ + ref_opt_bytes(*r),
            final(self).extends(old(self)),
    {
        match r {
            Some(t) => self.write_gm_texture(t),
            None => {
                self.write_u32(0);
                proof {
                    lemma_prefix_extends(*old(self), *self);
                }
                Ok(())
            },
        }
    }
}

/// The placeholder word written for a string or texture page item reference, patched once
/// the positions are known.
pub open spec fn ref_placeholder() -> Seq<u8> {
    u32_le_bytes(0xDEADC0DEu32)
}

/// The word written for a 32-bit boolean.
pub open spec fn bool32_bytes(b: bool) -> Seq<u8> {
    u32_le_bytes(if b { 1u32 } else { 0u32 })
}

/// The word written for a signed 32-bit integer.
pub open spec fn i32_bytes(v: i32) -> Seq<u8> {
    u32_le_bytes(v as u32)
}

/// The word written for an optional reference: the placeholder, or 0 for none.
pub open spec fn ref_opt_bytes<T>(r: Option<GMRef<T>>) -> Seq<u8> {
    if r is Some { ref_placeholder() } else { u32_le_bytes(0u32) }
}

/// Extending is transitive.
pub proof fn lemma_extends_trans(a: DataBuilder, b: DataBuilder, c: DataBuilder)
    requires
        b.extends(&a),
        c.extends(&b),
    ensures
        c.extends(&a),
{
    assert(c.bytes@.subrange(0, a.bytes@.len() as int) =~= b.bytes@.subrange(0, a.bytes@.len() as int));
}

/// Every builder extends itself.
pub proof fn lemma_extends_refl(a: DataBuilder)
    ensures
        a.extends(&a),
{
    assert(a.bytes@.subrange(0, a.bytes@.len() as int) =~= a.bytes@);
}

/// A builder that agrees, on a prefix at least as long as `a`, with one that extends `a`,
/// extends `a` too.
pub proof fn lemma_extends_via(a: DataBuilder, r: DataBuilder, b: DataBuilder, n: int)
    requires
        r.extends(&a),
        a.bytes@.len() <= n <= r.bytes@.len(),
        n <= b.bytes@.len(),
        b.bytes@.subrange(0, n) == r.bytes@.subrange(0, n),
        b.bytecode_version == a.bytecode_version,
        b.gm_version == a.gm_version,
    ensures
        b.extends(&a),
{
    assert(b.bytes@.subrange(0, a.bytes@.len() as int) =~= b.bytes@.subrange(0, n).subrange(0, a.bytes@.len() as int));
    assert(r.bytes@.subrange(0, a.bytes@.len() as int) =~= r.bytes@.subrange(0, n).subrange(0, a.bytes@.len() as int));
}

/// Growing the bytes at the end, with the same versions, extends.
pub proof fn lemma_grew_extends(before: DataBuilder, after: DataBuilder, s: Seq<u8>)
    requires
        after.bytes@ == before.bytes@ + s,
        after.bytecode_version == before.bytecode_version,
        after.gm_version == before.gm_version,
    ensures
        after.extends(&before),
{
    assert(after.bytes@.subrange(0, before.bytes@.len() as int) =~= before.bytes@);
}

/// A builder whose bytes start with all of `before`'s, with the same versions, extends it.
pub proof fn lemma_prefix_extends(before: DataBuilder, after: DataBuilder)
    requires
        before.bytes@.len() <= after.bytes@.len(),
        forall|i: int| 0 <= i < before.bytes@.len() ==> after.bytes@[i] == before.bytes@[i],
        after.bytecode_version == before.bytecode_version,
        after.gm_version == before.gm_version,
    ensures
        after.extends(&before),
{
    assert(after.bytes@.subrange(0, before.bytes@.len() as int) =~= before.bytes@);
}

/// Appending extends.
pub proof fn lemma_appended_extends(before: DataBuilder, after: DataBuilder, s: Seq<u8>)
    requires
        after.appended(&before, s),
    ensures
        after.extends(&before),
{
    assert(after.bytes@.subrange(0, before.bytes@.len() as int) =~= before.bytes@);
}

} // verus!
