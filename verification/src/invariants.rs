//! Checks of the store's invariants.

use vstd::prelude::*;
use crate::data::Data;
use crate::model::toc_ordered;
use crate::error::DataError;
use crate::record::Alloc;

verus! {

/// Every allocation was created no earlier than the one before it.
pub open spec fn toc_steps(allocs: Seq<Alloc>) -> bool {
    forall|i: int|
        0 < i < allocs.len() ==> allocs[i - 1].toc.nanos <= (#[trigger] allocs[i]).toc.nanos
}

/// An order that holds from each allocation to the next holds throughout.
pub proof fn lemma_toc_steps(allocs: Seq<Alloc>, i: int, j: int)
    requires
        toc_steps(allocs),
        0 <= i <= j < allocs.len(),
    ensures
        allocs[i].toc.nanos <= allocs[j].toc.nanos,
    decreases j - i,
{
    if i < j {
        lemma_toc_steps(allocs, i, j - 1);
        assert(allocs[j - 1].toc.nanos <= allocs[j].toc.nanos);
    }
}

/// Checks that the allocations stand in ascending order of their time of
/// creation.
pub fn uid_order_is_toc_order(data: &Data) -> (res: Result<(), DataError>)
    ensures
        toc_ordered(data@.allocs) ==> res is Ok,
        !toc_ordered(data@.allocs) ==> res == Err::<(), DataError>(DataError::TocOrder),
{
    let allocs = data.iter_all();
    let n = allocs.len();
    let mut i: usize = 1;
    while i < n
        invariant
            1 <= i,
            n == allocs@.len(),
            allocs@ == data@.allocs,
            forall|k: int| 0 < k < i && k < n ==> allocs@[k - 1].toc.nanos <= (
            #[trigger] allocs@[k]).toc.nanos,
        decreases n - i,
    {
        if allocs[i - 1].toc.nanos > allocs[i].toc.nanos {
            return Err(DataError::TocOrder);
        }
        i += 1;
    }
    proof {
        assert(toc_steps(allocs@));
        assert forall|a: int, b: int| 0 <= a <= b < allocs@.len() implies (
        #[trigger] allocs@[a]).toc.nanos <= (#[trigger] allocs@[b]).toc.nanos by {
            lemma_toc_steps(allocs@, a, b);
        }
    }
    Ok(())
}

} // verus!
