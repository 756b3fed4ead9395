//! Sizes of the tables of the global metadata that the applier rebuilds.
use vstd::layout::size_of;
use vstd::prelude::*;

verus! {

/// The number of bytes the entries of `table` take.
pub fn table_size<T>(table: &Vec<T>) -> (r: usize)
    requires
        table@.len() * size_of::<T>() <= usize::MAX,
    ensures
        r == table@.len() * size_of::<T>(),
{
    let n = table.len();
    let sz = core::mem::size_of::<T>();
    assert(n * sz <= usize::MAX);
    n * sz
}

} // verus!
