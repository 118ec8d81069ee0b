//! Lists of elements: a count followed by the elements, or by pointers to them.

use vstd::prelude::*;
use crate::builder::{lemma_appended_extends, lemma_extends_via, lemma_extends_refl, lemma_extends_trans, ref_placeholder, DataBuilder};
use crate::bytes::u32_le_bytes;
use crate::bytes::{spec_u16_at, spec_u32_at};
use crate::element::GMElement;
use crate::reader::{DataReader, RESOURCE_FAILSAFE_COUNT};
use crate::refs::{gm_ref, GMRef};

verus! {

/// Lists whose elements would take more memory than this are rejected as implausible.
pub const LIST_FAILSAFE_SIZE: usize = 1_000_000;

/// `values` were read one after another, moving the reader from `readers[k]` to
/// `readers[k + 1]`.
pub open spec fn read_in_sequence<'a, T: GMElement>(readers: Seq<DataReader<'a>>, values: Seq<T>) -> bool {
    &&& readers.len() == values.len() + 1
    &&& forall|k: int| #![trigger values[k]] 0 <= k < values.len() ==> T::deserialized(readers[k], readers[k + 1], values[k])
}

/// The reader went from `start` to `end` reading `values`, one after another.
pub open spec fn list_read<'a, T: GMElement>(start: DataReader<'a>, end: DataReader<'a>, values: Seq<T>) -> bool {
    exists|readers: Seq<DataReader<'a>>| {
        &&& read_in_sequence(readers, values)
        &&& readers[0] == start
        &&& readers.last() == end
    }
}

/// `count` elements of `T` can be read one after another from `r`.
pub open spec fn elements_readable<'a, T: GMElement>(r: DataReader<'a>, count: nat) -> bool
    decreases count,
{
    count == 0 || (T::readable(r) && elements_readable::<T>(r.moved(T::read_end(r)), (count - 1) as nat))
}

/// Where the reader stands after reading `count` elements of `T` one after another.
pub open spec fn elements_end<'a, T: GMElement>(r: DataReader<'a>, count: nat) -> int
    decreases count,
{
    if count == 0 { r.cur_pos as int } else { elements_end::<T>(r.moved(T::read_end(r)), (count - 1) as nat) }
}

/// A list with a 32-bit count can be read: the count, a plausible size, and every element.
pub open spec fn simple_list_readable<'a, T: GMElement>(r: DataReader<'a>) -> bool {
    &&& r.can_read(4)
    &&& list_fits::<T>(r.word() as int)
    &&& elements_readable::<T>(r.moved(r.cur_pos + 4), r.word() as nat)
}

/// A list of `count` elements of `T` is small enough to be read.
pub open spec fn list_fits<T>(count: int) -> bool {
    count * vstd::layout::size_of::<T>() <= LIST_FAILSAFE_SIZE
}

impl<'a> DataReader<'a> {
    /// Reads `count` elements one after another; fails when they would take implausibly much
    /// memory or one of them cannot be read.
    pub(crate) fn read_elements<T: GMElement>(&mut self, count: usize) -> (r: Result<Vec<T>, String>)
        requires
            old(self).wf(),
        ensures
            final(self).wf(),
            final(self).data == old(self).data,
            old(self).only_moved(*final(self)),
            r is Ok ==> list_fits::<T>(count as int),
            !list_fits::<T>(count as int) ==> r is Err && *final(self) == *old(self),
            r matches Ok(v) ==> v@.len() == count && list_read(*old(self), *final(self), v@),
            list_fits::<T>(count as int) && elements_readable::<T>(*old(self), count as nat)
                ==> r is Ok && final(self).cur_pos == elements_end::<T>(*old(self), count as nat),
    {
        let size = core::mem::size_of::<T>();
        match count.checked_mul(size) {
            Some(total) => {
                if total > LIST_FAILSAFE_SIZE {
                    return Err("Failsafe triggered: list implies an implausible data size".to_owned());
                }
            },
            None => {
                return Err("Failsafe triggered: list implies an implausible data size".to_owned());
            },
        }
        let mut elements: Vec<T> = Vec::new();
        let ghost mut readers: Seq<DataReader<'a>> = seq![*self];
        let mut i: usize = 0;
        while i < count
            invariant
                0 <= i <= count,
                list_fits::<T>(count as int),
                self.wf(),
                self.data == old(self).data,
                old(self).only_moved(*self),
                elements@.len() == i,
                read_in_sequence(readers, elements@),
                readers[0] == *old(self),
                readers.last() == *self,
                elements_readable::<T>(*old(self), count as nat) ==> {
                    &&& elements_readable::<T>(*self, (count - i) as nat)
                    &&& elements_end::<T>(*old(self), count as nat) == elements_end::<T>(*self, (count - i) as nat)
                },
            decreases count - i,
        {
            let ghost before = *self;
            let element = T::deserialize(self)?;
            proof {
                if T::readable(before) {
                    assert(*self == before.moved(T::read_end(before)));
                }
            }
            elements.push(element);
            proof {
                readers = readers.push(*self);
            }
            i = i + 1;
        }
        assert(read_in_sequence(readers, elements@));
        Ok(elements)
    }

    /// Reads a list with a 32-bit count.
    pub fn read_simple_list<T: GMElement>(&mut self) -> (r: Result<Vec<T>, String>)
        requires
            old(self).wf(),
        ensures
            final(self).wf(),
            final(self).data == old(self).data,
            old(self).only_moved(*final(self)),
            !old(self).can_read(4) ==> r is Err,
            old(self).can_read(4) && !list_fits::<T>(old(self).word() as int) ==> r is Err,
            r matches Ok(v) ==> {
                &&& old(self).can_read(4)
                &&& v@.len() == old(self).word()
                &&& list_read(old(self).moved(old(self).cur_pos + 4), *final(self), v@)
            },
            simple_list_readable::<T>(*old(self)) ==> r is Ok
                && final(self).cur_pos == elements_end::<T>(old(self).moved(old(self).cur_pos + 4), old(self).word() as nat),
    {
        let count = self.read_usize()?;
        self.read_elements(count)
    }

    /// Reads a list with a 16-bit count.
    pub fn read_simple_list_short<T: GMElement>(&mut self) -> (r: Result<Vec<T>, String>)
        requires
            old(self).wf(),
        ensures
            final(self).wf(),
            final(self).data == old(self).data,
            old(self).only_moved(*final(self)),
            !old(self).can_read(2) ==> r is Err,
            old(self).can_read(2) && !list_fits::<T>(spec_u16_at(old(self).data@, old(self).cur_pos as int) as int) ==> r is Err,
            r matches Ok(v) ==> {
                &&& old(self).can_read(2)
                &&& v@.len() == spec_u16_at(old(self).data@, old(self).cur_pos as int)
                &&& list_read(old(self).moved(old(self).cur_pos + 2), *final(self), v@)
            },
            ({
                let n = spec_u16_at(old(self).data@, old(self).cur_pos as int) as nat;
                let start = old(self).moved(old(self).cur_pos + 2);
                old(self).can_read(2) && list_fits::<T>(n as int) && elements_readable::<T>(start, n)
                    ==> r is Ok && final(self).cur_pos == elements_end::<T>(start, n)
            }),
    {
        let count = self.read_u16()?;
        self.read_elements(count as usize)
    }

    /// Reads a list of resource indices with a 32-bit count.
    pub fn read_simple_list_of_resource_ids<T>(&mut self) -> (r: Result<Vec<GMRef<T>>, String>)
        requires
            old(self).wf(),
        ensures
            final(self).wf(),
            final(self).data == old(self).data,
            old(self).only_moved(*final(self)),
            !old(self).can_read(4) ==> r is Err,
            r is Ok <==> id_list_readable(*old(self)),
            r matches Ok(v) ==> {
                &&& old(self).can_read(4 + 4 * v@.len() as int)
                &&& v@.len() == old(self).word()
                &&& *final(self) == old(self).moved(old(self).cur_pos + 4 + 4 * v@.len())
                &&& forall|k: int| 0 <= k < v@.len() ==> {
                    let n = spec_u32_at(old(self).data@, old(self).cur_pos + 4 + 4 * k);
                    n < RESOURCE_FAILSAFE_COUNT && #[trigger] v@[k] == gm_ref::<T>(n)
                }
            },
    {
        let count = self.read_usize()?;
        if count.checked_mul(4).is_none() || count * 4 > LIST_FAILSAFE_SIZE {
            return Err("Failsafe triggered: list implies an implausible data size".to_owned());
        }
        let ghost start = old(self).cur_pos + 4;
        let mut elements: Vec<GMRef<T>> = Vec::new();
        proof {
            if !list_words_fit(*old(self)) {
                assert(!id_list_readable(*old(self)));
            }
        }
        let mut i: usize = 0;
        while i < count
            invariant
                0 <= i <= count,
                count * 4 <= LIST_FAILSAFE_SIZE,
                self.wf(),
                self.data == old(self).data,
                old(self).can_read(4),
                start == old(self).cur_pos + 4,
                elements@.len() == i,
                old(self).moved(start).can_read(4 * i),
                *self == old(self).moved(start + 4 * i),
                forall|k: int| 0 <= k < i ==> {
                    let n = spec_u32_at(old(self).data@, start + 4 * k);
                    n < RESOURCE_FAILSAFE_COUNT && #[trigger] elements@[k] == gm_ref::<T>(n)
                },
                count == old(self).word(),
                id_list_readable(*old(self)) == (list_words_fit(*old(self)) && forall|k: int| i <= k < count
                    ==> #[trigger] spec_u32_at(old(self).data@, start + 4 * k) < RESOURCE_FAILSAFE_COUNT),
            decreases count - i,
        {
            proof {
                if list_words_fit(*old(self)) {
                    assert(self.can_read(4));
                }
            }
            let element = self.read_resource_by_id()?;
            elements.push(element);
            i = i + 1;
        }
        Ok(elements)
    }

    /// Reads a list of string references with a 32-bit count.
    pub fn read_simple_list_of_strings(&mut self) -> (r: Result<Vec<GMRef<String>>, String>)
        requires
            old(self).wf(),
        ensures
            final(self).wf(),
            final(self).data == old(self).data,
            old(self).only_moved(*final(self)),
            !old(self).can_read(4) ==> r is Err,
            r is Ok <==> string_list_readable(*old(self)),
            r matches Ok(v) ==> {
                &&& old(self).can_read(4 + 4 * v@.len() as int)
                &&& v@.len() == old(self).word()
                &&& *final(self) == old(self).moved(old(self).cur_pos + 4 + 4 * v@.len())
                &&& forall|k: int| 0 <= k < v@.len() ==> {
                    let p = spec_u32_at(old(self).data@, old(self).cur_pos + 4 + 4 * k);
                    old(self).string_occurrences@.contains_key(p)
                        && #[trigger] v@[k] == gm_ref::<String>(old(self).string_occurrences@[p])
                }
            },
    {
        let count = self.read_usize()?;
        if count.checked_mul(4).is_none() || count * 4 > LIST_FAILSAFE_SIZE {
            return Err("Failsafe triggered: list implies an implausible data size".to_owned());
        }
        let ghost start = old(self).cur_pos + 4;
        let mut elements: Vec<GMRef<String>> = Vec::new();
        proof {
            if !list_words_fit(*old(self)) {
                assert(!string_list_readable(*old(self)));
            }
        }
        let mut i: usize = 0;
        while i < count
            invariant
                0 <= i <= count,
                count * 4 <= LIST_FAILSAFE_SIZE,
                self.wf(),
                self.data == old(self).data,
                self.string_occurrences == old(self).string_occurrences,
                old(self).can_read(4),
                start == old(self).cur_pos + 4,
                elements@.len() == i,
                old(self).moved(start).can_read(4 * i),
                *self == old(self).moved(start + 4 * i),
                forall|k: int| 0 <= k < i ==> {
                    let p = spec_u32_at(old(self).data@, start + 4 * k);
                    old(self).string_occurrences@.contains_key(p)
                        && #[trigger] elements@[k] == gm_ref::<String>(old(self).string_occurrences@[p])
                },
                count == old(self).word(),
                string_list_readable(*old(self)) == (list_words_fit(*old(self)) && forall|k: int| i <= k < count
                    ==> old(self).string_occurrences@.contains_key(#[trigger] spec_u32_at(old(self).data@, start + 4 * k))),
            decreases count - i,
        {
            proof {
                if list_words_fit(*old(self)) {
                    assert(self.can_read(4));
                }
            }
            let element = self.read_gm_string()?;
            elements.push(element);
            i = i + 1;
        }
        Ok(elements)
    }
}

/// A list of words with a 32-bit count lies within the chunk and has a plausible size.
pub open spec fn list_words_fit<'a>(r: DataReader<'a>) -> bool {
    &&& r.can_read(4)
    &&& r.word() * 4 <= LIST_FAILSAFE_SIZE
    &&& r.can_read(4 + 4 * r.word())
}

/// A list of resource indices with a 32-bit count can be read: it fits, and every index is
/// below the failsafe limit.
pub open spec fn id_list_readable<'a>(r: DataReader<'a>) -> bool {
    &&& list_words_fit(r)
    &&& forall|k: int| 0 <= k < r.word() ==> #[trigger] spec_u32_at(r.data@, r.cur_pos + 4 + 4 * k) < RESOURCE_FAILSAFE_COUNT
}

/// A list of string references with a 32-bit count can be read: it fits, and every
/// reference is the position of a string read so far.
pub open spec fn string_list_readable<'a>(r: DataReader<'a>) -> bool {
    &&& list_words_fit(r)
    &&& forall|k: int| 0 <= k < r.word() ==> r.string_occurrences@.contains_key(#[trigger] spec_u32_at(r.data@, r.cur_pos + 4 + 4 * k))
}

/// `value` can be read by reader `r` moved to `pos`.
pub open spec fn read_at<'a, T: GMElement>(r: DataReader<'a>, pos: u32, value: T) -> bool {
    exists|after: DataReader<'a>| T::deserialized(r.moved(pos as int), after, value)
}

/// A list of 32-bit words with a 32-bit count can be read: the count, a plausible size, and
/// all the words lie within the chunk.
pub open spec fn u32_list_readable<'a>(r: DataReader<'a>) -> bool {
    &&& r.can_read(4)
    &&& r.word() * 4 <= LIST_FAILSAFE_SIZE
    &&& r.can_read(4 + 4 * r.word())
}

/// The pointer at index `k` of a pointer list whose count is at `start`.
pub open spec fn pointer_at<'a>(r: DataReader<'a>, start: int, k: int) -> u32 {
    spec_u32_at(r.data@, start + 4 + 4 * k)
}

/// A pointer list can be read: the pointers can, the first element starts right after
/// them, every element can be read where its pointer points, and the next element starts
/// where it ends.
pub open spec fn pointer_list_readable<'a, T: GMElement>(r: DataReader<'a>) -> bool {
    let n = r.word() as int;
    let p = r.cur_pos as int;
    &&& u32_list_readable(r)
    &&& (n > 0 ==> pointer_at(r, p, 0) == p + 4 + 4 * n)
    &&& forall|k: int| 0 <= k < n ==> {
        &&& T::readable(r.moved(#[trigger] pointer_at(r, p, k) as int))
        &&& (k + 1 < n ==> T::read_end(r.moved(pointer_at(r, p, k) as int)) == pointer_at(r, p, k + 1))
    }
}

/// Where the reader stands after reading a pointer list.
pub open spec fn pointer_list_end<'a, T: GMElement>(r: DataReader<'a>) -> int {
    let n = r.word() as int;
    if n == 0 {
        r.cur_pos + 4
    } else {
        T::read_end(r.moved(pointer_at(r, r.cur_pos as int, n - 1) as int))
    }
}

/// Where the element at index `k` of a pointer list comes after: the end of the pointers
/// for the first, else the end of the element before.
pub open spec fn element_before_end<'a, T: GMElement>(r: DataReader<'a>, k: int) -> int {
    let p = r.cur_pos as int;
    if k == 0 {
        p + 4 + 4 * r.word()
    } else {
        T::read_end(r.moved(pointer_at(r, p, k - 1) as int))
    }
}

/// The facts about element `k` of an aligned pointer list that can be read.
pub proof fn lemma_aligned_element<'a, T: GMElement>(r: DataReader<'a>, alignment: u32, aligned: bool, k: int)
    requires
        aligned_list_readable::<T>(r, alignment, aligned),
        0 <= k < r.word(),
    ensures
        ({
            let ptr = pointer_at(r, r.cur_pos as int, k);
            let prev = r.moved(element_before_end::<T>(r, k));
            &&& ptr != 0
            &&& T::readable(r.moved(ptr as int))
            &&& if aligned {
                prev.zero_padded(alignment as int) && prev.aligned(alignment as int).cur_pos == ptr
            } else {
                prev.cur_pos == ptr
            }
        }),
{
    reveal(aligned_list_readable);
    assert(pointer_at(r, r.cur_pos as int, k) == pointer_at(r, r.cur_pos as int, k));
}

/// Every pointer of the pointer list at the reader's position is a multiple of `alignment`.
pub open spec fn pointers_aligned<'a>(r: DataReader<'a>, alignment: u32) -> bool {
    forall|k: int| 0 <= k < r.word() ==> #[trigger] pointer_at(r, r.cur_pos as int, k) % alignment == 0
}

/// The pointers of an aligned pointer list that can be read can be read.
pub proof fn lemma_aligned_list_words<'a, T: GMElement>(r: DataReader<'a>, alignment: u32, aligned: bool)
    requires
        aligned_list_readable::<T>(r, alignment, aligned),
    ensures
        u32_list_readable(r),
{
    reveal(aligned_list_readable);
}

/// An aligned pointer list can be read: the pointers can, none is 0, and each element can
/// be read where its pointer points, which is where the element before ends, moved up over
/// zero bytes to a multiple of `alignment` when `aligned`.
#[verifier::opaque]
pub open spec fn aligned_list_readable<'a, T: GMElement>(r: DataReader<'a>, alignment: u32, aligned: bool) -> bool {
    let n = r.word() as int;
    let p = r.cur_pos as int;
    &&& u32_list_readable(r)
    &&& forall|k: int| 0 <= k < n ==> {
        let ptr = #[trigger] pointer_at(r, p, k);
        let prev = r.moved(element_before_end::<T>(r, k));
        &&& ptr != 0
        &&& T::readable(r.moved(ptr as int))
        &&& if aligned {
            prev.zero_padded(alignment as int) && prev.aligned(alignment as int).cur_pos == ptr
        } else {
            prev.cur_pos == ptr
        }
    }
}

/// `values` is what the pointer list at the reader's position holds: the count, then for
/// each pointer the element read where it points.
pub open spec fn pointer_list_read<'a, T: GMElement>(r: DataReader<'a>, values: Seq<T>) -> bool {
    &&& r.can_read(4 + 4 * values.len() as int)
    &&& values.len() == r.word()
    &&& forall|k: int| 0 <= k < values.len() ==> read_at(r, pointer_at(r, r.cur_pos as int, k), #[trigger] values[k])
}

impl<'a> DataReader<'a> {
    /// Reads a list of 32-bit words with a 32-bit count.
    pub fn read_u32_list(&mut self) -> (r: Result<Vec<u32>, String>)
        requires
            old(self).wf(),
        ensures
            final(self).wf(),
            final(self).data == old(self).data,
            final(self).chunk == old(self).chunk,
            old(self).only_moved(*final(self)),
            r is Ok <==> u32_list_readable(*old(self)),
            r matches Ok(v) ==> {
                &&& old(self).can_read(4 + 4 * v@.len() as int)
                &&& v@.len() == old(self).word()
                &&& *final(self) == old(self).moved(old(self).cur_pos + 4 + 4 * v@.len())
                &&& forall|k: int| 0 <= k < v@.len() ==> #[trigger] v@[k] == pointer_at(*old(self), old(self).cur_pos as int, k)
            },
    {
        let count = self.read_usize()?;
        if count.checked_mul(4).is_none() || count * 4 > LIST_FAILSAFE_SIZE {
            return Err("Failsafe triggered: list implies an implausible data size".to_owned());
        }
        let ghost start = old(self).cur_pos + 4;
        let mut elements: Vec<u32> = Vec::new();
        let mut i: usize = 0;
        while i < count
            invariant
                0 <= i <= count,
                count * 4 <= LIST_FAILSAFE_SIZE,
                self.wf(),
                self.data == old(self).data,
                old(self).can_read(4),
                start == old(self).cur_pos + 4,
                elements@.len() == i,
                old(self).moved(start).can_read(4 * i),
                *self == old(self).moved(start + 4 * i),
                forall|k: int| 0 <= k < i ==> #[trigger] elements@[k] == pointer_at(*old(self), old(self).cur_pos as int, k),
                count == old(self).word(),
            decreases count - i,
        {
            let element = self.read_u32()?;
            elements.push(element);
            i = i + 1;
        }
        Ok(elements)
    }

    /// Reads a list of pointers, then the element each one points at, in order.
    pub fn read_pointer_list<T: GMElement>(&mut self) -> (r: Result<Vec<T>, String>)
        requires
            old(self).wf(),
        ensures
            final(self).wf(),
            final(self).data == old(self).data,
            old(self).only_moved(*final(self)),
            !old(self).can_read(4) ==> r is Err,
            r matches Ok(v) ==> {
                &&& old(self).can_read(4 + 4 * v@.len() as int)
                &&& v@.len() == old(self).word()
                &&& forall|k: int| 0 <= k < v@.len() ==> read_at(
                    *old(self),
                    pointer_at(*old(self), old(self).cur_pos as int, k),
                    #[trigger] v@[k],
                )
            },
            pointer_list_readable::<T>(*old(self)) ==> r is Ok && final(self).cur_pos == pointer_list_end::<T>(*old(self)),
    {
        let pointers = self.read_u32_list()?;
        let count = pointers.len();
        proof {
            if pointer_list_readable::<T>(*old(self)) && count > 0 {
                assert(pointers@[0] == pointer_at(*old(self), old(self).cur_pos as int, 0));
            }
        }
        let mut elements: Vec<T> = Vec::new();
        let mut i: usize = 0;
        while i < count
            invariant
                0 <= i <= count,
                count == pointers@.len(),
                self.wf(),
                self.data == old(self).data,
                old(self).only_moved(*self),
                elements@.len() == i,
                forall|k: int| 0 <= k < i ==> read_at(*old(self), pointers@[k], #[trigger] elements@[k]),
                count == old(self).word(),
                forall|k: int| 0 <= k < count ==> #[trigger] pointers@[k] == pointer_at(*old(self), old(self).cur_pos as int, k),
                pointer_list_readable::<T>(*old(self)) ==> {
                    &&& (i < count ==> self.cur_pos == pointers@[i as int])
                    &&& (i == count ==> self.cur_pos == pointer_list_end::<T>(*old(self)))
                },
            decreases count - i,
        {
            proof {
                if pointer_list_readable::<T>(*old(self)) {
                    assert(pointers@[i as int] == pointer_at(*old(self), old(self).cur_pos as int, i as int));
                    if i + 1 < count {
                        assert(pointers@[i + 1] == pointer_at(*old(self), old(self).cur_pos as int, i + 1));
                    }
                }
            }
            T::deserialize_pre_padding(self)?;
            self.assert_pos(pointers[i])?;
            let ghost before = *self;
            let element = T::deserialize(self)?;
            assert(read_at(*old(self), pointers@[i as int], element));
            T::deserialize_post_padding(self, i + 1 == count)?;
            elements.push(element);
            i = i + 1;
        }
        Ok(elements)
    }

    /// Reads a list of pointers, then, in order, the element each points at; each element
    /// starts at a multiple of `alignment` unless some pointer is not such a multiple, in
    /// which case `is_aligned` is cleared.
    #[verifier::spinoff_prover]
    pub fn read_aligned_list_chunk<T: GMElement>(&mut self, alignment: u32, is_aligned: &mut bool) -> (r: Result<Vec<T>, String>)
        requires
            old(self).wf(),
            alignment > 0,
        ensures
            final(self).wf(),
            final(self).data == old(self).data,
            old(self).only_moved(*final(self)),
            !old(self).can_read(4) ==> r is Err,
            r matches Ok(v) ==> {
                &&& v@.len() == old(self).word()
                &&& *final(is_aligned) == (*old(is_aligned) && forall|k: int| 0 <= k < v@.len()
                    ==> #[trigger] pointer_at(*old(self), old(self).cur_pos as int, k) % alignment == 0)
                &&& forall|k: int| 0 <= k < v@.len() ==> {
                    &&& pointer_at(*old(self), old(self).cur_pos as int, k) != 0
                    &&& read_at(*old(self), pointer_at(*old(self), old(self).cur_pos as int, k), #[trigger] v@[k])
                }
            },
            aligned_list_readable::<T>(*old(self), alignment, *old(is_aligned) && pointers_aligned(*old(self), alignment)) ==> r is Ok
                && final(self).cur_pos == element_before_end::<T>(*old(self), old(self).word() as int),
    {
        proof {
            if aligned_list_readable::<T>(*old(self), alignment, *old(is_aligned) && pointers_aligned(*old(self), alignment)) {
                lemma_aligned_list_words::<T>(*old(self), alignment, *old(is_aligned) && pointers_aligned(*old(self), alignment));
            }
        }
        let pointers = self.read_u32_list()?;
        let count = pointers.len();
        let mut i: usize = 0;
        while i < count
            invariant
                0 <= i <= count,
                alignment > 0,
                self.wf(),
                self.data == old(self).data,
                old(self).only_moved(*self),
                count == pointers@.len(),
                *is_aligned == (*old(is_aligned) && forall|k: int| 0 <= k < i ==> #[trigger] pointers@[k] % alignment == 0),
                forall|k: int| 0 <= k < i ==> #[trigger] pointers@[k] != 0,
                count == old(self).word(),
                forall|k: int| 0 <= k < count ==> #[trigger] pointers@[k] == pointer_at(*old(self), old(self).cur_pos as int, k),
                *self == old(self).moved(old(self).cur_pos + 4 + 4 * count),
                u32_list_readable(*old(self)),
            decreases count - i,
        {
            if pointers[i] % alignment != 0 {
                *is_aligned = false;
            }
            if pointers[i] == 0 {
                proof {
                    assert(pointer_at(*old(self), old(self).cur_pos as int, i as int) == 0);
                    if aligned_list_readable::<T>(*old(self), alignment, *old(is_aligned) && pointers_aligned(*old(self), alignment)) {
                        lemma_aligned_element::<T>(*old(self), alignment, *old(is_aligned) && pointers_aligned(*old(self), alignment), i as int);
                    }
                }
                return Err("Null pointers are not supported in aligned lists".to_owned());
            }
            i = i + 1;
        }
        proof {
            assert(pointers_aligned(*old(self), alignment) == forall|k: int| 0 <= k < count ==> #[trigger] pointers@[k] % alignment == 0) by {
                if pointers_aligned(*old(self), alignment) {
                    assert forall|k: int| 0 <= k < count implies #[trigger] pointers@[k] % alignment == 0 by {
                        assert(pointers@[k] == pointer_at(*old(self), old(self).cur_pos as int, k));
                    }
                }
                if forall|k: int| 0 <= k < count ==> #[trigger] pointers@[k] % alignment == 0 {
                    assert forall|k: int| 0 <= k < old(self).word() implies #[trigger] pointer_at(*old(self), old(self).cur_pos as int, k) % alignment == 0 by {
                        assert(pointers@[k] == pointer_at(*old(self), old(self).cur_pos as int, k));
                    }
                }
            }
        }
        let mut elements: Vec<T> = Vec::new();
        let mut i: usize = 0;
        while i < count
            invariant
                0 <= i <= count,
                count == pointers@.len(),
                alignment > 0,
                self.wf(),
                self.data == old(self).data,
                old(self).only_moved(*self),
                *is_aligned == (*old(is_aligned) && forall|k: int| 0 <= k < count ==> #[trigger] pointers@[k] % alignment == 0),
                *is_aligned == (*old(is_aligned) && pointers_aligned(*old(self), alignment)),
                forall|k: int| 0 <= k < count ==> #[trigger] pointers@[k] != 0,
                elements@.len() == i,
                forall|k: int| 0 <= k < i ==> read_at(*old(self), pointers@[k], #[trigger] elements@[k]),
                count == old(self).word(),
                forall|k: int| 0 <= k < count ==> #[trigger] pointers@[k] == pointer_at(*old(self), old(self).cur_pos as int, k),
                aligned_list_readable::<T>(*old(self), alignment, *is_aligned) ==> self.cur_pos == element_before_end::<T>(*old(self), i as int),
            decreases count - i,
        {
            let ghost at_start = *self;
            proof {
                if aligned_list_readable::<T>(*old(self), alignment, *is_aligned) {
                    lemma_aligned_element::<T>(*old(self), alignment, *is_aligned, i as int);
                    assert(pointers@[i as int] == pointer_at(*old(self), old(self).cur_pos as int, i as int));
                    assert(at_start == old(self).moved(element_before_end::<T>(*old(self), i as int)));
                }
            }
            if *is_aligned {
                self.align(alignment)?;
            }
            self.assert_pos(pointers[i])?;
            let element = T::deserialize(self)?;
            assert(read_at(*old(self), pointers@[i as int], element));
            elements.push(element);
            i = i + 1;
        }
        assert forall|k: int| 0 <= k < count implies #[trigger] pointer_at(*old(self), old(self).cur_pos as int, k)
            == pointers@[k] by {}
        Ok(elements)
    }
}

/// `after` is `before` with the elements of `elems` written one after another.
pub open spec fn elements_written<T: GMElement>(elems: Seq<T>, before: DataBuilder, after: DataBuilder) -> bool
    decreases elems.len(),
{
    if elems.len() == 0 {
        after == before
    } else {
        exists|mid: DataBuilder| elements_written(elems.drop_last(), before, mid) && #[trigger] elems.last().written(mid, after)
    }
}

/// `after` is `before` with a list of `elems` written: the 32-bit count, then each element.
pub open spec fn simple_list_written<T: GMElement>(elems: Seq<T>, before: DataBuilder, after: DataBuilder) -> bool {
    exists|counted: DataBuilder| {
        &&& counted.bytes@ == before.bytes@ + u32_le_bytes(elems.len() as u32)
        &&& #[trigger] elements_written(elems, counted, after)
    }
}

/// The written pointer list of `elems` from `before` to `after`, with `bs[k]` the builder
/// right before element `k` was written and `es[k]` right after: the count, one pointer per
/// element (where it starts), then the elements one after another, each as it was written.
pub open spec fn pointer_chain<T: GMElement>(elems: Seq<T>, before: DataBuilder, after: DataBuilder,
    bs: Seq<DataBuilder>, es: Seq<DataBuilder>) -> bool {
    let n = elems.len() as int;
    let start = before.bytes@.len() as int;
    let slots = start + 4;
    &&& bs.len() == n && es.len() == n
    &&& after.bytes@.len() >= slots + 4 * n
    &&& after.bytes@.subrange(0, start) == before.bytes@
    &&& after.bytes@.subrange(start, slots) == u32_le_bytes(n as u32)
    &&& n == 0 ==> after.bytes@.len() == slots
    &&& n > 0 ==> bs[0].bytes@.len() == slots + 4 * n && after.bytes@.len() == es[n - 1].bytes@.len()
    &&& forall|k: int| 0 <= k < n ==> {
        &&& #[trigger] elems[k].written(bs[k], es[k])
        &&& bs[k].bytes@.len() <= es[k].bytes@.len()
        &&& after.bytes@.subrange(slots + 4 * k, slots + 4 * k + 4) == u32_le_bytes(bs[k].bytes@.len() as u32)
        &&& after.bytes@.subrange(bs[k].bytes@.len() as int, es[k].bytes@.len() as int)
            == es[k].bytes@.subrange(bs[k].bytes@.len() as int, es[k].bytes@.len() as int)
        &&& (k + 1 < n ==> bs[k + 1].bytes@.len() == es[k].bytes@.len())
    }
}

/// The first `k` elements of a pointer list whose pointers start at `slots` were written as
/// `bs`/`es` record, and `bytes` still holds their pointers and their bytes.
#[verifier::opaque]
pub open spec fn chain_so_far<T: GMElement>(elems: Seq<T>, slots: int, count: int, bytes: Seq<u8>,
    bs: Seq<DataBuilder>, es: Seq<DataBuilder>, k: int) -> bool {
    forall|j: int| 0 <= j < k ==> {
        &&& #[trigger] elems[j].written(bs[j], es[j])
        &&& slots + 4 * count <= bs[j].bytes@.len() <= es[j].bytes@.len() <= bytes.len()
        &&& bytes.subrange(slots + 4 * j, slots + 4 * j + 4) == u32_le_bytes(bs[j].bytes@.len() as u32)
        &&& bytes.subrange(bs[j].bytes@.len() as int, es[j].bytes@.len() as int)
            == es[j].bytes@.subrange(bs[j].bytes@.len() as int, es[j].bytes@.len() as int)
        &&& (j + 1 < k ==> bs[j + 1].bytes@.len() == es[j].bytes@.len())
    }
}

/// `after` is `before` with a pointer list of `elems` written.
pub open spec fn pointer_list_written<T: GMElement>(elems: Seq<T>, before: DataBuilder, after: DataBuilder) -> bool {
    exists|bs: Seq<DataBuilder>, es: Seq<DataBuilder>| #[trigger] pointer_chain(elems, before, after, bs, es)
}

/// Each of `elems`, written at a builder with `b0`'s versions that leaves room for `m` more
/// bytes below 2^32, succeeds, and none adds more than `m` bytes.
pub open spec fn elements_fit<T: GMElement>(elems: Seq<T>, b0: DataBuilder, m: nat) -> bool {
    &&& forall|k: int, b: DataBuilder| 0 <= k < elems.len() && b.bytecode_version == b0.bytecode_version
        && b.gm_version == b0.gm_version && b.bytes@.len() + m <= u32::MAX ==> #[trigger] elems[k].writable(b)
    &&& forall|k: int, b: DataBuilder, a: DataBuilder| 0 <= k < elems.len() && #[trigger] elems[k].written(b, a)
        ==> a.bytes@.len() <= b.bytes@.len() + m
}

/// A pointer list of `elems` written at `before` fits below 2^32 when no element takes more
/// than `m` bytes: the count, the pointers and `m` bytes per element.
pub open spec fn pointer_list_fits<T: GMElement>(elems: Seq<T>, before: DataBuilder, m: nat) -> bool {
    &&& elements_fit(elems, before, m)
    &&& before.bytes@.len() + 4 + 4 * elems.len() + elems.len() * m <= u32::MAX
}

/// A list of `elems` with a 32-bit count written at `before` fits below 2^32 when no
/// element takes more than `m` bytes: the count and `m` bytes per element.
pub open spec fn simple_list_fits<T: GMElement>(elems: Seq<T>, before: DataBuilder, m: nat) -> bool {
    &&& elements_fit(elems, before, m)
    &&& before.bytes@.len() + 4 + elems.len() * m <= u32::MAX
}

/// In a written pointer list whose elements add at most `m` bytes each, element `k` ends
/// at most `(k + 1) * m` bytes past the pointers.
proof fn lemma_chain_len<T: GMElement>(elems: Seq<T>, before: DataBuilder, after: DataBuilder, bs: Seq<DataBuilder>,
    es: Seq<DataBuilder>, m: nat, k: int)
    requires
        pointer_chain(elems, before, after, bs, es),
        forall|j: int, b: DataBuilder, a: DataBuilder| 0 <= j < elems.len() && #[trigger] elems[j].written(b, a)
            ==> a.bytes@.len() <= b.bytes@.len() + m,
        0 <= k < elems.len(),
    ensures
        es[k].bytes@.len() <= before.bytes@.len() + 4 + 4 * elems.len() + (k + 1) * m,
    decreases k,
{
    assert(elems[k].written(bs[k], es[k]));
    if k > 0 {
        lemma_chain_len(elems, before, after, bs, es, m, k - 1);
        assert(elems[k - 1].written(bs[k - 1], es[k - 1]));
        assert(bs[k].bytes@.len() == es[k - 1].bytes@.len());
    }
    assert((k + 1) * m == k * m + m) by (nonlinear_arith);
}

/// A written pointer list whose elements add at most `m` bytes each takes at most the
/// count, the pointers and `m` bytes per element.
pub proof fn lemma_pointer_list_len<T: GMElement>(elems: Seq<T>, before: DataBuilder, after: DataBuilder, m: nat)
    requires
        pointer_list_written(elems, before, after),
        forall|j: int, b: DataBuilder, a: DataBuilder| 0 <= j < elems.len() && #[trigger] elems[j].written(b, a)
            ==> a.bytes@.len() <= b.bytes@.len() + m,
    ensures
        after.bytes@.len() <= before.bytes@.len() + 4 + 4 * elems.len() + elems.len() * m,
{
    let (bs, es) = choose|bs: Seq<DataBuilder>, es: Seq<DataBuilder>| pointer_chain(elems, before, after, bs, es);
    let n = elems.len() as int;
    if n > 0 {
        lemma_chain_len(elems, before, after, bs, es, m, n - 1);
        assert((n - 1 + 1) * m == n * m);
    }
}

/// `n` reference placeholders, one after another.
pub open spec fn placeholders(n: nat) -> Seq<u8>
    decreases n,
{
    if n == 0 { Seq::empty() } else { placeholders((n - 1) as nat) + ref_placeholder() }
}

impl DataBuilder {
    /// Writes a list with a 32-bit count: the count, then each element.
    pub fn write_simple_list<T: GMElement>(&mut self, elements: &Vec<T>) -> (r: Result<(), String>)
        ensures
            final(self).extends(old(self)),
            r is Ok ==> {
                &&& old(self).bytes@.len() + 4 <= final(self).bytes@.len()
                &&& final(self).bytes@.subrange(old(self).bytes@.len() as int, old(self).bytes@.len() + 4int)
                    == u32_le_bytes(elements@.len() as u32)
            },
            r is Ok ==> simple_list_written(elements@, *old(self), *final(self)),
            elements@.len() > u32::MAX ==> r is Err,
            elements@.len() <= u32::MAX && (forall|k: int, b: DataBuilder| 0 <= k < elements@.len()
                ==> #[trigger] elements@[k].writable(b)) ==> r is Ok,
            forall|m: nat| #[trigger] simple_list_fits(elements@, *old(self), m) && elements@.len() <= u32::MAX ==> r is Ok,
    {
        proof {
            lemma_extends_refl(*self);
        }
        let ghost m: nat = choose|m: nat| simple_list_fits(elements@, *old(self), m);
        let ghost fits = simple_list_fits(elements@, *old(self), m) && elements@.len() <= u32::MAX;
        if let Err(e) = self.write_usize(elements.len()) {
            proof {
                assert forall|m2: nat| !(#[trigger] simple_list_fits(elements@, *old(self), m2) && elements@.len() <= u32::MAX) by {}
            }
            return Err(e);
        }
        proof {
            lemma_appended_extends(*old(self), *self, u32_le_bytes(elements@.len() as u32));
            lemma_extends_refl(*self);
        }
        let ghost counted = *self;
        let ghost all_ok = forall|k: int, b: DataBuilder| 0 <= k < elements@.len() ==> #[trigger] elements@[k].writable(b);
        let mut i: usize = 0;
        assert(elements@.take(0) =~= Seq::<T>::empty());
        while i < elements.len()
            invariant
                i <= elements@.len(),
                all_ok == forall|k: int, b: DataBuilder| 0 <= k < elements@.len() ==> #[trigger] elements@[k].writable(b),
                self.extends(&counted),
                counted.extends(old(self)),
                counted.bytes@ == old(self).bytes@ + u32_le_bytes(elements@.len() as u32),
                elements_written(elements@.take(i as int), counted, *self),
                fits == (simple_list_fits(elements@, *old(self), m) && elements@.len() <= u32::MAX),
                m == choose|m: nat| simple_list_fits(elements@, *old(self), m),
                fits ==> self.bytes@.len() <= counted.bytes@.len() + i * m,
            decreases elements@.len() - i,
        {
            let ghost before = *self;
            proof {
                if all_ok {
                    assert(elements@[i as int].writable(before));
                }
                if fits {
                    assert(i * m + m <= elements@.len() * m) by (nonlinear_arith)
                        requires
                            i < elements@.len(),
                    ;
                    assert(elements@[i as int].writable(before));
                }
            }
            let res = elements[i].serialize(self);
            proof {
                lemma_extends_trans(counted, before, *self);
                lemma_extends_trans(*old(self), counted, *self);
            }
            if let Err(e) = res {
                proof {
                    assert(!fits);
                    assert forall|m2: nat| !(#[trigger] simple_list_fits(elements@, *old(self), m2) && elements@.len() <= u32::MAX) by {
                        if simple_list_fits(elements@, *old(self), m2) && elements@.len() <= u32::MAX {
                            assert(fits);
                        }
                    }
                }
                return Err(e);
            }
            proof {
                if fits {
                    assert(self.bytes@.len() <= before.bytes@.len() + m);
                    assert((i + 1) * m == i * m + m) by (nonlinear_arith);
                }
            }
            proof {
                let next = elements@.take(i + 1);
                assert(next.drop_last() =~= elements@.take(i as int));
                assert(next.last() == elements@[i as int]);
                assert(elements_written(next.drop_last(), counted, before) && next.last().written(before, *self));
                assert(next.len() != 0);
                assert(elements_written(next, counted, *self));
            }
            i = i + 1;
        }
        assert(elements@.take(elements@.len() as int) =~= elements@);
        proof {
            lemma_extends_trans(*old(self), counted, *self);
            assert(self.bytes@.subrange(old(self).bytes@.len() as int, old(self).bytes@.len() + 4int)
                =~= counted.bytes@.subrange(old(self).bytes@.len() as int, old(self).bytes@.len() + 4int));
        }
        Ok(())
    }

    /// Writes a list of pointers with a 32-bit count, then each element, patching each
    /// pointer with the position at which its element starts.
    pub fn write_pointer_list<T: GMElement>(&mut self, elements: &Vec<T>) -> (r: Result<(), String>)
        ensures
            final(self).extends(old(self)),
            r is Ok ==> pointer_list_written(elements@, *old(self), *final(self)),
            r is Ok ==> {
                &&& old(self).bytes@.len() + 4 + 4 * elements@.len() <= final(self).bytes@.len()
                &&& final(self).bytes@.subrange(old(self).bytes@.len() as int, old(self).bytes@.len() + 4int)
                    == u32_le_bytes(elements@.len() as u32)
            },
            elements@.len() > u32::MAX ==> r is Err,
            forall|m: nat| #[trigger] pointer_list_fits(elements@, *old(self), m) ==> r is Ok,
    {
        proof {
            lemma_extends_refl(*self);
        }
        let ghost m: nat = choose|m: nat| pointer_list_fits(elements@, *old(self), m);
        let ghost fits = pointer_list_fits(elements@, *old(self), m);
        let count = elements.len();
        if let Err(e) = self.write_usize(count) {
            return Err(e);
        }
        proof {
            lemma_appended_extends(*old(self), *self, u32_le_bytes(count as u32));
        }
        let ghost start = old(self).bytes@.len() as int;
        let slots = self.len();
        let mut i: usize = 0;
        while i < count
            invariant
                i <= count,
                count == elements@.len(),
                count <= u32::MAX,
                slots == start + 4,
                start == old(self).bytes@.len(),
                self.extends(old(self)),
                self.bytes@.len() == slots + 4 * i,
                self.bytes@.subrange(start, slots as int) == u32_le_bytes(count as u32),
            decreases count - i,
        {
            let ghost before = *self;
            self.write_u32(0);
            proof {
                lemma_appended_extends(before, *self, u32_le_bytes(0));
                lemma_extends_trans(*old(self), before, *self);
                assert(self.bytes@.subrange(start, slots as int) =~= before.bytes@.subrange(start, slots as int));
            }
            i = i + 1;
        }
        let ghost reserved = *self;
        let ghost mut bs: Seq<DataBuilder> = Seq::empty();
        let ghost mut es: Seq<DataBuilder> = Seq::empty();
        let mut k: usize = 0;
        proof {
            reveal(chain_so_far);
        }
        while k < count
            invariant
                k <= count,
                bs.len() == k && es.len() == k,
                k == 0 ==> self.bytes@ == reserved.bytes@,
                k > 0 ==> self.bytes@.len() == es[k - 1].bytes@.len(),
                k > 0 ==> bs[0].bytes@.len() == slots + 4 * count,
                self.bytes@.subrange(start, slots as int) == u32_le_bytes(count as u32),
                self.bytes@.subrange(0, start) == old(self).bytes@,
                chain_so_far(elements@, slots as int, count as int, self.bytes@, bs, es, k as int),
                count == elements@.len(),
                slots == start + 4,
                start == old(self).bytes@.len(),
                reserved.extends(old(self)),
                reserved.bytes@.len() == slots + 4 * count,
                reserved.bytes@.subrange(start, slots as int) == u32_le_bytes(count as u32),
                self.bytes@.len() >= reserved.bytes@.len(),
                self.bytes@.subrange(0, slots as int) == reserved.bytes@.subrange(0, slots as int),
                self.bytecode_version == old(self).bytecode_version,
                self.gm_version == old(self).gm_version,
                fits == pointer_list_fits(elements@, *old(self), m),
                m == choose|m: nat| pointer_list_fits(elements@, *old(self), m),
                fits ==> self.bytes@.len() <= reserved.bytes@.len() + k * m,
            decreases count - k,
        {
            proof {
                lemma_extends_via(*old(self), reserved, *self, slots as int);
                if fits {
                    assert(k * m + m <= count * m) by (nonlinear_arith)
                        requires
                            k < count,
                    ;
                }
            }
            let position = self.len();
            let ghost before_patch = *self;
            proof {
                reveal(chain_so_far);
            }
            if let Err(e) = self.overwrite_usize(position, slots + 4 * k) {
                proof {
                    assert(!fits);
                    assert forall|m2: nat| !#[trigger] pointer_list_fits(elements@, *old(self), m2) by {
                        if pointer_list_fits(elements@, *old(self), m2) {
                            assert(fits);
                        }
                    }
                }
                return Err(e);
            }
            proof {
                assert(self.bytes@.subrange(0, slots as int) =~= before_patch.bytes@.subrange(0, slots as int));
            }
            let ghost before = *self;
            proof {
                if fits {
                    assert(elements@[k as int].writable(before));
                }
            }
            let res = elements[k].serialize(self);
            proof {
                assert(self.bytes@.subrange(0, slots as int) =~= before.bytes@.subrange(0, slots as int));
                lemma_extends_via(*old(self), reserved, *self, slots as int);
            }
            if let Err(e) = res {
                proof {
                    assert(!fits);
                    assert forall|m2: nat| !#[trigger] pointer_list_fits(elements@, *old(self), m2) by {
                        if pointer_list_fits(elements@, *old(self), m2) {
                            assert(fits);
                        }
                    }
                }
                return Err(e);
            }
            proof {
                let pre = before.bytes@.len() as int;
                assert(self.bytes@.subrange(0, pre) == before.bytes@);
                assert forall|j: int| 0 <= j < k implies {
                    &&& self.bytes@.subrange(slots + 4 * j, slots + 4 * j + 4) == u32_le_bytes(bs[j].bytes@.len() as u32)
                    &&& self.bytes@.subrange(bs[j].bytes@.len() as int, es[j].bytes@.len() as int)
                        == es[j].bytes@.subrange(bs[j].bytes@.len() as int, es[j].bytes@.len() as int)
                } by {
                    assert(elements@[j].written(bs[j], es[j]));
                    let a = slots + 4 * j;
                    let lo = bs[j].bytes@.len() as int;
                    let hi = es[j].bytes@.len() as int;
                    assert(before.bytes@.subrange(a, a + 4) =~= before_patch.bytes@.subrange(a, a + 4));
                    assert(self.bytes@.subrange(a, a + 4) =~= before.bytes@.subrange(a, a + 4)) by {
                        assert forall|i: int| a <= i < a + 4 implies #[trigger] self.bytes@[i] == before.bytes@[i] by {
                            assert(self.bytes@.subrange(0, pre)[i] == before.bytes@[i]);
                        }
                    }
                    assert(before.bytes@.subrange(lo, hi) =~= before_patch.bytes@.subrange(lo, hi));
                    assert(self.bytes@.subrange(lo, hi) =~= before.bytes@.subrange(lo, hi)) by {
                        assert forall|i: int| lo <= i < hi implies #[trigger] self.bytes@[i] == before.bytes@[i] by {
                            assert(self.bytes@.subrange(0, pre)[i] == before.bytes@[i]);
                        }
                    }
                }
                assert(self.bytes@.subrange(slots + 4 * k, slots + 4 * k + 4)
                    =~= before.bytes@.subrange(slots + 4 * k, slots + 4 * k + 4));
                assert(self.bytes@.subrange(start, slots as int) =~= before.bytes@.subrange(start, slots as int));
                assert(self.bytes@.subrange(0, start) =~= before.bytes@.subrange(0, start));
                assert(self.bytes@.subrange(pre, self.bytes@.len() as int)
                    =~= self.bytes@.subrange(pre, self.bytes@.len() as int));
                let a = slots + 4 * k;
                assert(before.bytes@.subrange(a, a + 4) =~= u32_le_bytes(position as u32));
                assert(self.bytes@.subrange(a, a + 4) =~= before.bytes@.subrange(a, a + 4)) by {
                    assert forall|i: int| a <= i < a + 4 implies #[trigger] self.bytes@[i] == before.bytes@[i] by {
                        assert(self.bytes@.subrange(0, pre)[i] == before.bytes@[i]);
                    }
                }
                assert(self.bytes@.subrange(pre, self.bytes@.len() as int) =~= self.bytes@.subrange(pre, self.bytes@.len() as int));
                let old_bs = bs;
                let old_es = es;
                bs = bs.push(before);
                es = es.push(*self);
                assert(chain_so_far(elements@, slots as int, count as int, self.bytes@, bs, es, k + 1)) by {
                    reveal(chain_so_far);
                    assert forall|j: int| 0 <= j < k + 1 implies {
                        &&& #[trigger] elements@[j].written(bs[j], es[j])
                        &&& slots + 4 * count <= bs[j].bytes@.len() <= es[j].bytes@.len() <= self.bytes@.len()
                        &&& self.bytes@.subrange(slots + 4 * j, slots + 4 * j + 4) == u32_le_bytes(bs[j].bytes@.len() as u32)
                        &&& self.bytes@.subrange(bs[j].bytes@.len() as int, es[j].bytes@.len() as int)
                            == es[j].bytes@.subrange(bs[j].bytes@.len() as int, es[j].bytes@.len() as int)
                        &&& (j + 1 < k + 1 ==> bs[j + 1].bytes@.len() == es[j].bytes@.len())
                    } by {
                        if j < k {
                            assert(bs[j] == old_bs[j] && es[j] == old_es[j]);
                            assert(elements@[j].written(old_bs[j], old_es[j]));
                        } else {
                            assert(bs[j] == before && es[j] == *self);
                        }
                    }
                }
            }
            proof {
                if fits {
                    assert(self.bytes@.len() <= before.bytes@.len() + m);
                    assert((k + 1) * m == k * m + m) by (nonlinear_arith);
                }
            }
            k = k + 1;
        }
        proof {
            lemma_extends_via(*old(self), reserved, *self, slots as int);
            assert(self.bytes@.subrange(start, slots as int) =~= self.bytes@.subrange(0, slots as int).subrange(start, slots as int));
            assert(reserved.bytes@.subrange(start, slots as int) =~= reserved.bytes@.subrange(0, slots as int).subrange(start, slots as int));
            reveal(chain_so_far);
            assert(pointer_chain(elements@, *old(self), *self, bs, es));
        }
        Ok(())
    }

    /// Writes a list of string references with a 32-bit count.
    pub fn write_simple_list_of_strings(&mut self, strings: &Vec<GMRef<String>>) -> (r: Result<(), String>)
        ensures
            final(self).extends(old(self)),
            r is Ok ==> {
                &&& old(self).bytes@.len() + 4 + 4 * strings@.len() == final(self).bytes@.len()
                &&& final(self).bytes@.subrange(old(self).bytes@.len() as int, old(self).bytes@.len() + 4int)
                    == u32_le_bytes(strings@.len() as u32)
                &&& final(self).string_refs@.len() == old(self).string_refs@.len() + strings@.len()
                &&& forall|k: int| 0 <= k < strings@.len() ==> #[trigger] final(self).string_refs@[old(self).string_refs@.len() + k]
                    == ((old(self).bytes@.len() + 4 + 4 * k) as u32, strings@[k].index)
            },
            strings@.len() > u32::MAX ==> r is Err,
            r is Ok ==> final(self).bytes@ == old(self).bytes@ + u32_le_bytes(strings@.len() as u32)
                + placeholders(strings@.len()),
            strings@.len() <= u32::MAX && old(self).bytes@.len() + 4 * strings@.len() <= u32::MAX ==> r is Ok,
    {
        proof {
            lemma_extends_refl(*self);
        }
        if let Err(e) = self.write_usize(strings.len()) {
            return Err(e);
        }
        proof {
            lemma_appended_extends(*old(self), *self, u32_le_bytes(strings@.len() as u32));
            lemma_extends_refl(*self);
        }
        let ghost counted = *self;
        let mut i: usize = 0;
        while i < strings.len()
            invariant
                i <= strings@.len(),
                counted.extends(old(self)),
                counted.bytes@ == old(self).bytes@ + u32_le_bytes(strings@.len() as u32),
                counted.string_refs@ == old(self).string_refs@,
                self.extends(&counted),
                self.bytes@.len() == counted.bytes@.len() + 4 * i,
                self.bytes@ == counted.bytes@ + placeholders(i as nat),
                counted.bytes@.len() == old(self).bytes@.len() + 4,
                self.string_refs@.len() == old(self).string_refs@.len() + i,
                forall|k: int| 0 <= k < i ==> #[trigger] self.string_refs@[old(self).string_refs@.len() + k]
                    == ((old(self).bytes@.len() + 4 + 4 * k) as u32, strings@[k].index),
            decreases strings@.len() - i,
        {
            let ghost before = *self;
            let res = self.write_gm_string(&strings[i]);
            proof {
                if res is Ok {
                    assert(self.bytes@.subrange(0, counted.bytes@.len() as int) =~= before.bytes@.subrange(0, counted.bytes@.len() as int));
                }
                lemma_extends_trans(*old(self), counted, *self);
            }
            if let Err(e) = res {
                return Err(e);
            }
            i = i + 1;
        }
        proof {
            lemma_extends_trans(*old(self), counted, *self);
            assert(self.bytes@.subrange(old(self).bytes@.len() as int, old(self).bytes@.len() + 4int)
                =~= counted.bytes@.subrange(old(self).bytes@.len() as int, old(self).bytes@.len() + 4int));
        }
        Ok(())
    }
}

} // verus!
