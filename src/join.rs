//! The join protocol: how a storage, or a composite of storages, opens into
//! a presence mask and a per-pass value, and hands out data index by index.

pub mod dense;
pub mod drive;
pub mod mask;
pub mod maybe;

use vstd::prelude::*;

use self::mask::{Index, Mask};

verus! {

/// What every joinable thing has, whatever the access discipline.
///
/// The model: a joinable has data at the indices of `mask_spec`, and `datum`
/// is that data. Opening it yields a [`Mask`] and a per-pass `Value`; the
/// value serves the indices of `domain`, and `item` is what it hands out.
pub trait Joinable: Sized {
    /// What is handed out for one index.
    type Type;

    /// The per-pass state that data is read through.
    type Value;

    /// The indices this joinable has data for.
    spec fn mask_spec(&self) -> Set<Index>;

    /// The data at `id`; meaningful where `mask_spec` contains `id`.
    spec fn datum(&self, id: Index) -> Self::Type;

    /// Whether the mask is the unconstrained sentinel.
    spec fn unconstrained_spec() -> bool;

    /// The per-pass state is consistent.
    spec fn value_wf(value: &Self::Value) -> bool;

    /// The indices the per-pass state may be asked for.
    spec fn domain(value: &Self::Value) -> Set<Index>;

    /// What the per-pass state hands out at `id`.
    spec fn item(value: &Self::Value, id: Index) -> Self::Type;

    /// Starts a pass: the mask is fixed for its whole length, and the value
    /// hands out, at each index of the mask, this joinable's data there.
    fn open(self) -> (r: (Mask, Self::Value))
        ensures
            r.0@ == self.mask_spec(),
            r.0.is_all_spec() == Self::unconstrained_spec(),
            Self::value_wf(&r.1),
            Self::domain(&r.1) == r.0@,
            forall|i: Index| #[trigger] r.0@.contains(i) ==> Self::item(&r.1, i) == self.datum(i),
    ;

    /// Whether the mask is the unconstrained sentinel, which alone cannot
    /// bound an iteration.
    fn is_unconstrained() -> (r: bool)
        ensures
            r == Self::unconstrained_spec(),
    ;
}

/// Exclusive access: one caller, with `&mut` to the pass's value.
pub trait Join: Joinable {
    /// The data at `id`, which must be in the mask. The value may change,
    /// but what it hands out for each index does not.
    fn get(value: &mut Self::Value, id: Index) -> (r: Self::Type)
        requires
            Self::value_wf(old(value)),
            Self::domain(old(value)).contains(id),
        ensures
            Self::value_wf(final(value)),
            Self::domain(final(value)) == Self::domain(old(value)),
            forall|i: Index|
                #[trigger] Self::domain(old(value)).contains(i) ==> Self::item(final(value), i)
                    == Self::item(old(value), i),
            r == Self::item(old(value), id),
    ;
}

/// Shared access: any number of callers, each with `&` to the pass's value,
/// which split the mask's indices among themselves.
pub trait ParJoin: Joinable {
    /// The data at `id`, which must be in the mask.
    fn get(value: &Self::Value, id: Index) -> (r: Self::Type)
        requires
            Self::value_wf(value),
            Self::domain(value).contains(id),
        ensures
            r == Self::item(value, id),
    ;
}

/// Two joinables side by side: data where both have data.
impl<A: Joinable, B: Joinable> Joinable for (A, B) {
    type Type = (A::Type, B::Type);

    type Value = (A::Value, B::Value);

    open spec fn mask_spec(&self) -> Set<Index> {
        self.0.mask_spec().intersect(self.1.mask_spec())
    }

    open spec fn datum(&self, id: Index) -> Self::Type {
        (self.0.datum(id), self.1.datum(id))
    }

    open spec fn unconstrained_spec() -> bool {
        A::unconstrained_spec() && B::unconstrained_spec()
    }

    open spec fn value_wf(value: &Self::Value) -> bool {
        A::value_wf(&value.0) && B::value_wf(&value.1)
    }

    open spec fn domain(value: &Self::Value) -> Set<Index> {
        A::domain(&value.0).intersect(B::domain(&value.1))
    }

    open spec fn item(value: &Self::Value, id: Index) -> Self::Type {
        (A::item(&value.0, id), B::item(&value.1, id))
    }

    fn open(self) -> (r: (Mask, Self::Value)) {
        let (a, b) = self;
        let (ma, va) = a.open();
        let (mb, vb) = b.open();
        let m = ma.and(&mb);
        (m, (va, vb))
    }

    fn is_unconstrained() -> (r: bool) {
        A::is_unconstrained() && B::is_unconstrained()
    }
}

impl<A: Join, B: Join> Join for (A, B) {
    fn get(value: &mut Self::Value, id: Index) -> (r: Self::Type) {
        let x = A::get(&mut value.0, id);
        let y = B::get(&mut value.1, id);
        (x, y)
    }
}

impl<A: ParJoin, B: ParJoin> ParJoin for (A, B) {
    fn get(value: &Self::Value, id: Index) -> (r: Self::Type) {
        (A::get(&value.0, id), B::get(&value.1, id))
    }
}

/// The mask of a join of two joinables is the intersection of theirs, and
/// it is unconstrained exactly when both are.
pub proof fn lemma_pair_mask<A: Joinable, B: Joinable>(j: (A, B))
    ensures
        j.mask_spec() == j.0.mask_spec().intersect(j.1.mask_spec()),
        <(A, B)>::unconstrained_spec() == (A::unconstrained_spec() && B::unconstrained_spec()),
{
}

} // verus!
