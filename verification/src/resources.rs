//! Reading references to strings, textures and other resources, and lists of them.

use std::collections::HashMap;
use vstd::prelude::*;
use crate::bytes::{spec_i32_at, spec_u32_at};
use crate::instructions::{agrees, lookup_occurrence};
use crate::reader::{DataReader, RESOURCE_FAILSAFE_COUNT};
use crate::refs::{gm_ref, GMRef};

verus! {

broadcast use vstd::std_specs::hash::group_hash_axioms;

/// A texture page item (its data lives in chunk `TPAG`, which is read elsewhere).
pub struct GMTexturePageItem {
    pub index: u32,
}

impl<'a> DataReader<'a> {
    /// `after` is this reader after consuming `n` bytes if they could be read, else unchanged.
    pub open spec fn advanced(&self, after: DataReader<'a>, n: int) -> bool {
        if self.can_read(n) {
            after == self.moved(self.cur_pos + n)
        } else {
            after == *self
        }
    }

    /// The 32-bit word at the current position.
    pub open spec fn word(&self) -> u32 {
        spec_u32_at(self.data@, self.cur_pos as int)
    }

    /// Reads a string reference: the position of the string's characters, looked up among
    /// the strings read so far.
    pub fn read_gm_string(&mut self) -> (r: Result<GMRef<String>, String>)
        requires
            old(self).wf(),
        ensures
            final(self).wf(),
            old(self).advanced(*final(self), 4),
            r is Ok <==> old(self).can_read(4) && old(self).string_occurrences@.contains_key(old(self).word()),
            r matches Ok(x) ==> x == gm_ref::<String>(old(self).string_occurrences@[old(self).word()]),
    {
        let occurrence_position = self.read_u32()?;
        resolve_occurrence(occurrence_position, &self.string_occurrences)
    }

    /// Reads a string reference where 0 stands for none.
    pub fn read_gm_string_opt(&mut self) -> (r: Result<Option<GMRef<String>>, String>)
        requires
            old(self).wf(),
        ensures
            final(self).wf(),
            old(self).advanced(*final(self), 4),
            r is Ok <==> old(self).can_read(4) && (old(self).word() == 0
                || old(self).string_occurrences@.contains_key(old(self).word())),
            r matches Ok(x) ==> x == (if old(self).word() == 0 {
                None
            } else {
                Some(gm_ref::<String>(old(self).string_occurrences@[old(self).word()]))
            }),
    {
        let occurrence_position = self.read_u32()?;
        if occurrence_position == 0 {
            return Ok(None);
        }
        let r = resolve_occurrence(occurrence_position, &self.string_occurrences)?;
        Ok(Some(r))
    }

    /// Reads a texture page item reference.
    pub fn read_gm_texture(&mut self) -> (r: Result<GMRef<GMTexturePageItem>, String>)
        requires
            old(self).wf(),
        ensures
            final(self).wf(),
            old(self).advanced(*final(self), 4),
            r is Ok <==> old(self).can_read(4) && old(self).texture_page_item_occurrences@.contains_key(old(self).word()),
            r matches Ok(x) ==> x == gm_ref::<GMTexturePageItem>(
                old(self).texture_page_item_occurrences@[old(self).word()],
            ),
    {
        let occurrence_position = self.read_u32()?;
        resolve_occurrence(occurrence_position, &self.texture_page_item_occurrences)
    }

    /// Reads a texture page item reference where 0 stands for none.
    pub fn read_gm_texture_opt(&mut self) -> (r: Result<Option<GMRef<GMTexturePageItem>>, String>)
        requires
            old(self).wf(),
        ensures
            final(self).wf(),
            old(self).advanced(*final(self), 4),
            r is Ok <==> old(self).can_read(4) && (old(self).word() == 0
                || old(self).texture_page_item_occurrences@.contains_key(old(self).word())),
            r matches Ok(x) ==> x == (if old(self).word() == 0 {
                None
            } else {
                Some(gm_ref::<GMTexturePageItem>(old(self).texture_page_item_occurrences@[old(self).word()]))
            }),
    {
        let occurrence_position = self.read_u32()?;
        if occurrence_position == 0 {
            return Ok(None);
        }
        let r = resolve_occurrence(occurrence_position, &self.texture_page_item_occurrences)?;
        Ok(Some(r))
    }

    /// Reads a resource index; implausibly large ones are rejected.
    pub fn read_resource_by_id<T>(&mut self) -> (r: Result<GMRef<T>, String>)
        requires
            old(self).wf(),
        ensures
            final(self).wf(),
            old(self).advanced(*final(self), 4),
            r is Ok <==> old(self).can_read(4) && old(self).word() < RESOURCE_FAILSAFE_COUNT,
            r matches Ok(x) ==> x == gm_ref::<T>(old(self).word()),
    {
        let number = self.read_u32()?;
        check_resource_limit(number)?;
        Ok(GMRef::new(number))
    }

    /// Reads a resource index where -1 stands for none.
    pub fn read_resource_by_id_opt<T>(&mut self) -> (r: Result<Option<GMRef<T>>, String>)
        requires
            old(self).wf(),
        ensures
            final(self).wf(),
            old(self).advanced(*final(self), 4),
            old(self).can_read(4) ==> agrees(r, resource_opt::<T>(spec_i32_at(old(self).data@, old(self).cur_pos as int))),
            !old(self).can_read(4) ==> r is Err,
    {
        let number = self.read_i32()?;
        resource_opt_from_i32(number)
    }
}

/// The optional resource that a signed index stands for: none for -1; undefined (an error)
/// for another negative number or an implausibly large one.
pub open spec fn resource_opt<T>(number: i32) -> Option<Option<GMRef<T>>> {
    if number == -1 {
        Some(None)
    } else if number < 0 || number >= RESOURCE_FAILSAFE_COUNT {
        None
    } else {
        Some(Some(gm_ref::<T>(number as u32)))
    }
}

/// Converts a signed resource index, where -1 stands for none.
pub fn resource_opt_from_i32<T>(number: i32) -> (r: Result<Option<GMRef<T>>, String>)
    ensures
        agrees(r, resource_opt::<T>(number)),
{
    if number == -1 {
        return Ok(None);
    }
    if number < 0 {
        return Err("Invalid negative resource number".to_owned());
    }
    let n = number as u32;
    check_resource_limit(n)?;
    Ok(Some(GMRef::new(n)))
}

/// Rejects implausibly large resource numbers.
pub fn check_resource_limit(number: u32) -> (r: Result<(), String>)
    ensures
        r is Ok <==> number < RESOURCE_FAILSAFE_COUNT,
{
    if number >= RESOURCE_FAILSAFE_COUNT {
        return Err("Resource number exceeds the failsafe limit".to_owned());
    }
    Ok(())
}

/// Looks up the element whose data starts at `occurrence_position`.
fn resolve_occurrence<T>(occurrence_position: u32, occurrence_map: &HashMap<u32, u32>) -> (r: Result<GMRef<T>, String>)
    ensures
        r is Ok <==> occurrence_map@.contains_key(occurrence_position),
        r matches Ok(x) ==> x == gm_ref::<T>(occurrence_map@[occurrence_position]),
{
    match lookup_occurrence(occurrence_map, occurrence_position) {
        Some(index) => Ok(GMRef::new(index)),
        None => Err("No element at this occurrence position".to_owned()),
    }
}

/// The string that the position word at `pos` refers to, if it is the position of a string
/// read so far.
pub open spec fn string_at<'a>(r: DataReader<'a>, pos: int) -> Option<GMRef<String>> {
    let p = spec_u32_at(r.data@, pos);
    if r.string_occurrences@.contains_key(p) {
        Some(gm_ref::<String>(r.string_occurrences@[p]))
    } else {
        None
    }
}

/// The optional string at `pos` (0 for none); `None` if the word is neither 0 nor the
/// position of a string read so far.
pub open spec fn string_opt_at<'a>(r: DataReader<'a>, pos: int) -> Option<Option<GMRef<String>>> {
    if spec_u32_at(r.data@, pos) == 0 {
        Some(None)
    } else {
        match string_at(r, pos) {
            Some(s) => Some(Some(s)),
            None => None,
        }
    }
}

/// The texture page item that the position word at `pos` refers to, if any was read there.
pub open spec fn texture_at<'a>(r: DataReader<'a>, pos: int) -> Option<GMRef<GMTexturePageItem>> {
    let p = spec_u32_at(r.data@, pos);
    if r.texture_page_item_occurrences@.contains_key(p) {
        Some(gm_ref::<GMTexturePageItem>(r.texture_page_item_occurrences@[p]))
    } else {
        None
    }
}

/// The optional texture page item at `pos` (0 for none); `None` if the word is neither 0
/// nor the position of a texture page item read so far.
pub open spec fn texture_opt_at<'a>(r: DataReader<'a>, pos: int) -> Option<Option<GMRef<GMTexturePageItem>>> {
    if spec_u32_at(r.data@, pos) == 0 {
        Some(None)
    } else {
        match texture_at(r, pos) {
            Some(t) => Some(Some(t)),
            None => None,
        }
    }
}

} // verus!
