//! Stable sorting of table rows by a field element.

use crate::u256::limb;
use vstd::prelude::*;

verus! {

/// A row that is ordered by one number.
pub trait SortKey: Sized {
    /// The number the row is ordered by.
    spec fn key(&self) -> nat;

    /// The key as its high and low 128 bits.
    fn sort_key(&self) -> (k: (u128, u128))
        ensures
            k.0 as nat * limb() + k.1 as nat == self.key(),
    ;
}

/// `from` says where in `a` each row of `b` comes from: every row of `a` is
/// taken once, and rows of `b` with equal keys come from `a` in the order
/// they have in `b`.
pub open spec fn reorders<T: SortKey>(a: Seq<T>, b: Seq<T>, from: Seq<int>) -> bool {
    &&& from.len() == b.len()
    &&& a.len() == b.len()
    &&& forall|p: int| 0 <= p < b.len() ==> 0 <= #[trigger] from[p] < a.len() && b[p] == a[from[p]]
    &&& forall|p: int, q: int| 0 <= p < q < b.len() ==> #[trigger] from[p] != #[trigger] from[q]
    &&& forall|p: int, q: int|
        0 <= p < q < b.len() && b[p].key() == b[q].key() ==> #[trigger] from[p] < #[trigger] from[q]
}

/// `b` holds the rows of `a` in the order of their keys, rows with equal keys
/// in the order they have in `a`.
pub open spec fn stably_sorted<T: SortKey>(a: Seq<T>, b: Seq<T>) -> bool {
    &&& b.to_multiset() == a.to_multiset()
    &&& forall|i: int, j: int| 0 <= i < j < b.len() ==> (#[trigger] b[i]).key() <= (#[trigger] b[j]).key()
    &&& exists|from: Seq<int>| #[trigger] reorders(a, b, from)
}

/// `slice::sort_by_key` of std, keyed by the pair of halves that `sort_key`
/// returns: pairs of integers are ordered by the first, then by the second,
/// which is the order of the numbers they stand for. The sort is stable and
/// only reorders, so afterwards the vector holds the same rows, in the order
/// of their keys, and rows with equal keys keep their order.
#[verifier::external_body]
pub(crate) fn stable_sort_by_key<T: SortKey>(v: &mut Vec<T>)
    ensures
        stably_sorted(old(v)@, final(v)@),
{
    v.sort_by_key(|row| row.sort_key());
}

} // verus!
