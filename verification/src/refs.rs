//! Typed indices into the element lists of a data file.

use vstd::prelude::*;

verus! {

/// A reference to an element by its index in the list that stores it.
/// The type parameter only says which list is meant; no element is stored.
pub struct GMRef<T> {
    pub index: u32,
    pub _marker: std::marker::PhantomData<T>,
}

/// The reference with index `index`.
pub open spec fn gm_ref<T>(index: u32) -> GMRef<T> {
    GMRef { index, _marker: std::marker::PhantomData }
}

impl<T> GMRef<T> {
    /// Creates a reference with the given index.
    pub fn new(index: u32) -> (r: GMRef<T>)
        ensures
            r == gm_ref::<T>(index),
    {
        GMRef { index, _marker: std::marker::PhantomData }
    }

    /// Looks the reference up in `elements_by_index`; fails when the index is out of bounds.
    pub fn resolve<'a>(&self, elements_by_index: &'a Vec<T>) -> (r: Result<&'a T, String>)
        ensures
            match r {
                Ok(e) => self.index < elements_by_index@.len() && *e == elements_by_index@[self.index as int],
                Err(_) => self.index >= elements_by_index@.len(),
            },
    {
        let i = self.index as usize;
        if i < elements_by_index.len() {
            Ok(&elements_by_index[i])
        } else {
            Err("Could not resolve reference: index out of bounds".to_owned())
        }
    }
}

impl<T> Clone for GMRef<T> {
    fn clone(&self) -> (r: Self)
        ensures
            r == *self,
    {
        GMRef::new(self.index)
    }
}

impl<T> Copy for GMRef<T> {}

impl<T> PartialEq for GMRef<T> {
    fn eq(&self, other: &Self) -> (r: bool) {
        self.index == other.index
    }
}

impl<T> vstd::std_specs::cmp::PartialEqSpecImpl for GMRef<T> {
    open spec fn obeys_eq_spec() -> bool {
        true
    }

    open spec fn eq_spec(&self, other: &Self) -> bool {
        self.index == other.index
    }
}

impl<T> Eq for GMRef<T> {}

} // verus!

verus! {

/// Two references are equal exactly when their indices are.
pub proof fn lemma_gm_ref_eq<T>(a: GMRef<T>, b: GMRef<T>)
    ensures
        (a == b) <==> (a.index == b.index),
{
    if a.index == b.index {
        assert(a._marker == b._marker);
    }
}

} // verus!
