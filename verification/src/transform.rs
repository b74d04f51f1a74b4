//! An algorithm written against the interfaces alone: it transforms every
//! element of a data source.

use vstd::prelude::*;
use crate::capability::Constructible;
use crate::error::AlgebraError;
use crate::storage::IndexedDataSource;

verus! {

/// Applies `xform` to every element of `list`, from index 0 up to the last.
///
/// The algebra serves only to make the scratch value that each element is
/// read into; the transform is applied to the scratch, and the scratch is
/// written back to the index it came from. The first error of the data source
/// would end the run and be returned; a source that keeps its contract gives
/// none, so every element is transformed. An empty source is left as it is.
pub fn transform_list<T, U, F, S>(alg: &T, xform: &F, list: &mut S) -> (r: Result<
    (),
    AlgebraError,
>) where T: Constructible<U>, F: Fn(U) -> U, S: IndexedDataSource<U>
    requires
        forall|i: int|
            0 <= i < old(list).contents().len() ==> call_requires(
                *xform,
                (#[trigger] old(list).contents()[i],),
            ),
    ensures
        r is Ok,
        final(list).contents().len() == old(list).contents().len(),
        forall|i: int|
            0 <= i < old(list).contents().len() ==> call_ensures(
                *xform,
                (old(list).contents()[i],),
                #[trigger] final(list).contents()[i],
            ),
        old(list).contents().len() == 0 ==> final(list).contents() == old(list).contents(),
{
    let mut tmp: U = alg.ctor();
    let n: u64 = list.size();
    let mut i: u64 = 0;
    while i < n
        invariant
            i <= n,
            n == list.contents().len(),
            n == old(list).contents().len(),
            forall|j: int|
                0 <= j < i ==> call_ensures(
                    *xform,
                    (old(list).contents()[j],),
                    #[trigger] list.contents()[j],
                ),
            forall|j: int| i <= j < n ==> #[trigger] list.contents()[j] == old(list).contents()[j],
            forall|j: int|
                0 <= j < n ==> call_requires(*xform, (#[trigger] old(list).contents()[j],)),
            n == 0 ==> list.contents() == old(list).contents(),
        decreases n - i,
    {
        list.get(i, &mut tmp)?;
        tmp = xform(tmp);
        list.set(i, &tmp)?;
        i += 1;
    }
    Ok(())
}

} // verus!
