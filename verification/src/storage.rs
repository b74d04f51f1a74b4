//! Linear storage addressed by index, apart from how it is kept.

use vstd::prelude::*;
use crate::error::AlgebraError;

verus! {

/// A sequence of values of one type, addressed by a zero-based 64-bit index.
/// The source owns its storage: `get` copies an element out into the caller's
/// holder and `set` copies the caller's value in. An index that is not below
/// `size()` is refused with `Index`; it is never clamped.
pub trait IndexedDataSource<U> {
    /// The elements, in index order.
    spec fn contents(&self) -> Seq<U>;

    /// The number of elements.
    fn size(&self) -> (n: u64)
        ensures
            n == self.contents().len(),
    ;

    /// Stores `value` at `idx`; every other element and the size stay.
    fn set(&mut self, idx: u64, value: &U) -> (r: Result<(), AlgebraError>)
        ensures
            idx < old(self).contents().len() ==> r is Ok && final(self).contents() == old(
                self,
            ).contents().update(idx as int, *value),
            idx >= old(self).contents().len() ==> r == Err::<(), AlgebraError>(
                AlgebraError::Index,
            ) && final(self).contents() == old(self).contents(),
    ;

    /// Overwrites `value` with the element at `idx`; on a refused index
    /// `value` is left as it was.
    fn get(&self, idx: u64, value: &mut U) -> (r: Result<(), AlgebraError>)
        ensures
            idx < self.contents().len() ==> r is Ok && *final(value) == self.contents()[idx as int],
            idx >= self.contents().len() ==> r == Err::<(), AlgebraError>(AlgebraError::Index)
                && *final(value) == *old(value),
    ;
}

/// A data source kept in memory as a vector.
pub struct VecSource<U> {
    items: Vec<U>,
}

impl<U> VecSource<U> {
    /// The elements, in index order.
    pub closed spec fn elements(&self) -> Seq<U> {
        self.items@
    }

    /// A source that holds `items`.
    pub fn new(items: Vec<U>) -> (r: Self)
        ensures
            r.elements() == items@,
    {
        VecSource { items }
    }

    /// Gives the elements back.
    pub fn into_vec(self) -> (r: Vec<U>)
        ensures
            r@ == self.elements(),
    {
        self.items
    }
}

impl<U: Copy> IndexedDataSource<U> for VecSource<U> {
    open spec fn contents(&self) -> Seq<U> {
        self.elements()
    }

    fn size(&self) -> (n: u64) {
        self.items.len() as u64
    }

    fn set(&mut self, idx: u64, value: &U) -> (r: Result<(), AlgebraError>) {
        if idx < self.items.len() as u64 {
            self.items.set(idx as usize, *value);
            Ok(())
        } else {
            Err(AlgebraError::Index)
        }
    }

    fn get(&self, idx: u64, value: &mut U) -> (r: Result<(), AlgebraError>) {
        if idx < self.items.len() as u64 {
            *value = self.items[idx as usize];
            Ok(())
        } else {
            Err(AlgebraError::Index)
        }
    }
}

} // verus!
