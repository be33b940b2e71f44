use vstd::prelude::*;

use super::mask::{Index, Mask};
use super::{Join, Joinable, ParJoin};

verus! {

/// The indices below `n` that `mask` contains, in ascending order.
pub open spec fn indices_below(mask: Set<Index>, n: nat) -> Seq<Index>
    decreases n,
{
    if n == 0 {
        Seq::empty()
    } else {
        let prefix = indices_below(mask, (n - 1) as nat);
        if mask.contains((n - 1) as Index) {
            prefix.push((n - 1) as Index)
        } else {
            prefix
        }
    }
}

/// The indices below `bound` that `mask` contains, in ascending order.
///
/// An unconstrained mask yields every index below `bound`.
pub fn mask_indices(mask: &Mask, bound: Index) -> (r: Vec<Index>)
    ensures
        r@ == indices_below(mask@, bound as nat),
{
    let mut r: Vec<Index> = Vec::new();
    let mut i: Index = 0;
    while i < bound
        invariant
            i <= bound,
            r@ == indices_below(mask@, i as nat),
        decreases bound - i,
    {
        if mask.contains(i) {
            r.push(i);
        }
        i += 1;
    }
    r
}

/// Fetches the data at each of `ids`, in the order given. Each result is what
/// the pass held at that index when this call began, whatever the order.
pub fn get_each<J: Join>(value: &mut J::Value, ids: &Vec<Index>) -> (r: Vec<J::Type>)
    requires
        J::value_wf(old(value)),
        forall|k: int| 0 <= k < ids@.len() ==> J::domain(old(value)).contains(#[trigger] ids@[k]),
    ensures
        J::value_wf(final(value)),
        J::domain(final(value)) == J::domain(old(value)),
        r@.len() == ids@.len(),
        forall|k: int| 0 <= k < ids@.len() ==> #[trigger] r@[k] == J::item(old(value), ids@[k]),
{
    let ghost start = *value;
    let mut r: Vec<J::Type> = Vec::new();
    let mut k: usize = 0;
    while k < ids.len()
        invariant
            k <= ids@.len(),
            J::value_wf(value),
            J::domain(value) == J::domain(&start),
            forall|i: Index|
                #[trigger] J::domain(&start).contains(i) ==> J::item(value, i) == J::item(&start, i),
            forall|j: int| 0 <= j < ids@.len() ==> J::domain(&start).contains(#[trigger] ids@[j]),
            r@.len() == k,
            forall|j: int| 0 <= j < k ==> #[trigger] r@[j] == J::item(&start, ids@[j]),
        decreases ids@.len() - k,
    {
        let x = J::get(value, ids[k]);
        r.push(x);
        k += 1;
    }
    r
}

/// Fetches the data at each of `ids` through shared access to the pass, as
/// one of several workers that split the mask's indices among themselves.
pub fn par_get_each<J: ParJoin>(value: &J::Value, ids: &Vec<Index>) -> (r: Vec<J::Type>)
    requires
        J::value_wf(value),
        forall|k: int| 0 <= k < ids@.len() ==> J::domain(value).contains(#[trigger] ids@[k]),
    ensures
        r@.len() == ids@.len(),
        forall|k: int| 0 <= k < ids@.len() ==> #[trigger] r@[k] == J::item(value, ids@[k]),
{
    let mut r: Vec<J::Type> = Vec::new();
    let mut k: usize = 0;
    while k < ids.len()
        invariant
            k <= ids@.len(),
            J::value_wf(value),
            forall|j: int| 0 <= j < ids@.len() ==> J::domain(value).contains(#[trigger] ids@[j]),
            r@.len() == k,
            forall|j: int| 0 <= j < k ==> #[trigger] r@[j] == J::item(value, ids@[j]),
        decreases ids@.len() - k,
    {
        r.push(J::get(value, ids[k]));
        k += 1;
    }
    r
}

/// Runs one pass over `j`: opens it and fetches, in ascending order, the
/// data at every index below `bound` that its mask contains.
///
/// An unconstrained joinable (a join of nothing but `MaybeJoin`s) yields
/// every index below `bound`.
pub fn join_collect<J: Join>(j: J, bound: Index) -> (r: Vec<(Index, J::Type)>)
    ensures
        r@.len() == indices_below(j.mask_spec(), bound as nat).len(),
        forall|k: int|
            0 <= k < r@.len() ==> (#[trigger] r@[k]).0 == indices_below(j.mask_spec(), bound as nat)[k]
                && r@[k].1 == j.datum(r@[k].0),
{
    let ghost joined = j;
    let (mask, mut value) = j.open();
    let ghost start = value;
    let mut r: Vec<(Index, J::Type)> = Vec::new();
    let mut i: Index = 0;
    while i < bound
        invariant
            i <= bound,
            mask@ == joined.mask_spec(),
            J::domain(&start) == mask@,
            forall|x: Index| #[trigger] mask@.contains(x) ==> J::item(&start, x) == joined.datum(x),
            J::value_wf(&value),
            J::domain(&value) == J::domain(&start),
            forall|x: Index|
                #[trigger] J::domain(&start).contains(x) ==> J::item(&value, x) == J::item(&start, x),
            r@.len() == indices_below(mask@, i as nat).len(),
            forall|k: int|
                0 <= k < r@.len() ==> (#[trigger] r@[k]).0 == indices_below(mask@, i as nat)[k]
                    && r@[k].1 == joined.datum(r@[k].0),
        decreases bound - i,
    {
        if mask.contains(i) {
            let x = J::get(&mut value, i);
            r.push((i, x));
        }
        i += 1;
    }
    r
}

/// Over the unconstrained mask a pass enumerates every index below the
/// bound, in order.
pub proof fn lemma_unconstrained_enumerates_all(n: nat)
    requires
        n <= Index::MAX as nat + 1,
    ensures
        indices_below(Set::<Index>::full(), n).len() == n,
        forall|k: int| 0 <= k < n ==> #[trigger] indices_below(Set::<Index>::full(), n)[k] == k,
    decreases n,
{
    if n > 0 {
        lemma_unconstrained_enumerates_all((n - 1) as nat);
    }
}

/// A pass enumerates exactly the indices of the mask below the bound, each
/// once, in ascending order.
pub proof fn lemma_indices_below(mask: Set<Index>, n: nat)
    requires
        n <= Index::MAX as nat + 1,
    ensures
        forall|i: Index|
            (i as nat) < n && mask.contains(i) <==> #[trigger] indices_below(mask, n).contains(i),
        forall|a: int, b: int|
            0 <= a < b < indices_below(mask, n).len() ==> #[trigger] indices_below(mask, n)[a]
                < #[trigger] indices_below(mask, n)[b],
    decreases n,
{
    if n > 0 {
        lemma_indices_below(mask, (n - 1) as nat);
        let prefix = indices_below(mask, (n - 1) as nat);
        let last = (n - 1) as Index;
        let s = indices_below(mask, n);
        assert forall|i: Index| (i as nat) < n && mask.contains(i) <==> #[trigger] s.contains(i) by {
            if mask.contains(last) {
                assert(s == prefix.push(last));
                if s.contains(i) && i != last {
                    let k = choose|k: int| 0 <= k < s.len() && s[k] == i;
                    assert(prefix[k] == i);
                    assert(prefix.contains(i));
                }
                if (i as nat) < n && mask.contains(i) && i != last {
                    assert(prefix.contains(i));
                    let k = choose|k: int| 0 <= k < prefix.len() && prefix[k] == i;
                    assert(s[k] == i);
                }
                if i == last {
                    assert(s[prefix.len() as int] == i);
                }
            } else {
                assert(s == prefix);
            }
        }
        assert forall|a: int, b: int| 0 <= a < b < s.len() implies #[trigger] s[a] < #[trigger] s[b] by {
            if mask.contains(last) {
                assert(s == prefix.push(last));
                if b == prefix.len() {
                    assert(prefix.contains(prefix[a]));
                } else {
                    assert(prefix[a] < prefix[b]);
                }
            } else {
                assert(s == prefix);
            }
        }
    }
}

} // verus!
