use vstd::prelude::*;

use super::mask::{Index, Mask};
use super::{Join, Joinable, ParJoin};

verus! {

/// Wraps a joinable so that it takes part in a join without narrowing it:
/// every index is present, and at each the wrapped data comes as `Some` where
/// the wrapped joinable has data and as `None` elsewhere.
///
/// A join of nothing but `MaybeJoin`s is unconstrained and ranges over every
/// index; join it with something that bounds it, such as the set of live
/// entities.
pub struct MaybeJoin<J>(pub J);

impl<T: Joinable> Joinable for MaybeJoin<T> {
    type Type = Option<T::Type>;

    /// The wrapped joinable's own mask, kept for the pass, and its value.
    type Value = (Mask, T::Value);

    open spec fn mask_spec(&self) -> Set<Index> {
        Set::full()
    }

    open spec fn datum(&self, id: Index) -> Self::Type {
        if self.0.mask_spec().contains(id) {
            Some(self.0.datum(id))
        } else {
            None
        }
    }

    open spec fn unconstrained_spec() -> bool {
        true
    }

    open spec fn value_wf(value: &Self::Value) -> bool {
        T::value_wf(&value.1) && T::domain(&value.1) == value.0@
    }

    open spec fn domain(value: &Self::Value) -> Set<Index> {
        Set::full()
    }

    open spec fn item(value: &Self::Value, id: Index) -> Self::Type {
        if value.0@.contains(id) {
            Some(T::item(&value.1, id))
        } else {
            None
        }
    }

    fn open(self) -> (r: (Mask, Self::Value)) {
        let (mask, value) = self.0.open();
        (Mask::all(), (mask, value))
    }

    fn is_unconstrained() -> (r: bool) {
        true
    }
}

impl<T: Join> Join for MaybeJoin<T> {
    fn get(value: &mut Self::Value, id: Index) -> (r: Self::Type) {
        if value.0.contains(id) {
            Some(T::get(&mut value.1, id))
        } else {
            None
        }
    }
}

impl<T: ParJoin> ParJoin for MaybeJoin<T> {
    fn get(value: &Self::Value, id: Index) -> (r: Self::Type) {
        if value.0.contains(id) {
            Some(T::get(&value.1, id))
        } else {
            None
        }
    }
}

/// A `MaybeJoin` reports every index as present, while the value it opens to
/// keeps the wrapped joinable's own mask: given what `open` promises of the
/// value, the kept mask is exactly the wrapped mask.
pub proof fn lemma_maybe_keeps_mask<T: Joinable>(m: MaybeJoin<T>, value: (Mask, T::Value))
    requires
        MaybeJoin::<T>::value_wf(&value),
        forall|i: Index| #[trigger] MaybeJoin::<T>::item(&value, i) == m.datum(i),
    ensures
        m.mask_spec() == Set::<Index>::full(),
        value.0@ == m.0.mask_spec(),
{
    assert forall|i: Index| value.0@.contains(i) == m.0.mask_spec().contains(i) by {
        assert(MaybeJoin::<T>::item(&value, i) == m.datum(i));
    }
    assert(value.0@ =~= m.0.mask_spec());
}

/// At an index its kept mask contains, a `MaybeJoin` hands out `Some` of what
/// the wrapped joinable hands out there; elsewhere `None`, and there the
/// wrapped joinable is not asked (its `get` requires the index in its domain).
pub proof fn lemma_maybe_item<T: Joinable>(value: (Mask, T::Value), id: Index)
    requires
        MaybeJoin::<T>::value_wf(&value),
    ensures
        T::domain(&value.1).contains(id) ==> MaybeJoin::<T>::item(&value, id) == Some(
            T::item(&value.1, id),
        ),
        !T::domain(&value.1).contains(id) ==> MaybeJoin::<T>::item(&value, id) == None::<T::Type>,
{
}

/// A `MaybeJoin` is unconstrained whatever it wraps, constrained or not.
pub proof fn lemma_maybe_unconstrained<T: Joinable>()
    ensures
        MaybeJoin::<T>::unconstrained_spec(),
{
}

/// A join of nothing but `MaybeJoin`s is unconstrained: its mask is every
/// index.
pub proof fn lemma_all_optional<A: Joinable, B: Joinable>(j: (MaybeJoin<A>, MaybeJoin<B>))
    ensures
        <(MaybeJoin<A>, MaybeJoin<B>)>::unconstrained_spec(),
        j.mask_spec() == Set::<Index>::full(),
{
    assert(j.mask_spec() =~= Set::<Index>::full());
}

} // verus!
