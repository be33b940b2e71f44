use vstd::prelude::*;

use super::mask::{flag_at, Index, Mask};
use super::{Join, Joinable, ParJoin};

verus! {

/// A storage with one slot per index, `None` where the entity has no data.
pub struct DenseStorage<V> {
    slots: Vec<Option<V>>,
}

impl<V> View for DenseStorage<V> {
    type V = Seq<Option<V>>;

    closed spec fn view(&self) -> Seq<Option<V>> {
        self.slots@
    }
}

/// The indices of `slots` that hold data.
pub open spec fn occupied<V>(slots: Seq<Option<V>>) -> Set<Index> {
    Set::new(|i: Index| (i as int) < slots.len() && slots[i as int] is Some)
}

impl<V> DenseStorage<V> {
    /// A storage over the given slots.
    pub fn from_slots(slots: Vec<Option<V>>) -> (r: DenseStorage<V>)
        ensures
            r@ == slots@,
    {
        DenseStorage { slots }
    }

    /// A storage with no data.
    pub fn new() -> (r: DenseStorage<V>)
        ensures
            r@ == Seq::<Option<V>>::empty(),
    {
        DenseStorage { slots: Vec::new() }
    }

    /// Puts `value` at `id`, growing the slots as needed, and returns what
    /// was there.
    pub fn insert(&mut self, id: Index, value: V) -> (r: Option<V>)
        ensures
            final(self)@.len() == if (id as int) < old(self)@.len() {
                old(self)@.len() as int
            } else {
                id as int + 1
            },
            final(self)@[id as int] == Some(value),
            forall|i: int|
                0 <= i < final(self)@.len() && i != id as int ==> #[trigger] final(self)@[i] == if i
                    < old(self)@.len() {
                    old(self)@[i]
                } else {
                    None
                },
            r == if (id as int) < old(self)@.len() {
                old(self)@[id as int]
            } else {
                None
            },
    {
        let ghost before = self.slots@;
        while self.slots.len() <= id as usize
            invariant
                self.slots@.len() >= before.len(),
                self.slots@.len() <= if (id as int) < before.len() {
                    before.len() as int
                } else {
                    id as int + 1
                },
                forall|i: int|
                    0 <= i < self.slots@.len() ==> #[trigger] self.slots@[i] == if i
                        < before.len() {
                        before[i]
                    } else {
                        None
                    },
            decreases id as int + 1 - self.slots@.len(),
        {
            self.slots.push(None);
        }
        let mut slot = Some(value);
        std::mem::swap(&mut slot, &mut self.slots[id as usize]);
        slot
    }

    /// The data at `id`, if any.
    pub fn get(&self, id: Index) -> (r: Option<&V>)
        ensures
            r == if (id as int) < self@.len() {
                match self@[id as int] {
                    Some(v) => Some(&v),
                    None => None,
                }
            } else {
                None
            },
    {
        if (id as usize) < self.slots.len() {
            self.slots[id as usize].as_ref()
        } else {
            None
        }
    }
}

/// The presence flags of a slot table.
fn occupancy<V>(slots: &Vec<Option<V>>) -> (r: Mask)
    ensures
        !r.is_all_spec(),
        r@ == occupied(slots@),
{
    let mut bits: Vec<bool> = Vec::new();
    let mut k: usize = 0;
    while k < slots.len()
        invariant
            k <= slots@.len(),
            bits@.len() == k,
            forall|j: int| 0 <= j < k ==> #[trigger] bits@[j] == (slots@[j] is Some),
        decreases slots@.len() - k,
    {
        bits.push(slots[k].is_some());
        k += 1;
    }
    let r = Mask::from_bits(bits);
    assert(r@ =~= occupied(slots@)) by {
        assert forall|i: Index| r@.contains(i) == occupied(slots@).contains(i) by {
            assert(r@.contains(i) == flag_at(bits@, i));
        }
    }
    r
}

impl<'a, V> Joinable for &'a DenseStorage<V> {
    type Type = &'a V;

    type Value = &'a Vec<Option<V>>;

    open spec fn mask_spec(&self) -> Set<Index> {
        occupied(self@)
    }

    open spec fn datum(&self, id: Index) -> &'a V {
        &self@[id as int]->Some_0
    }

    open spec fn unconstrained_spec() -> bool {
        false
    }

    open spec fn value_wf(value: &Self::Value) -> bool {
        true
    }

    open spec fn domain(value: &Self::Value) -> Set<Index> {
        occupied(value@)
    }

    open spec fn item(value: &Self::Value, id: Index) -> &'a V {
        &value@[id as int]->Some_0
    }

    fn open(self) -> (r: (Mask, Self::Value)) {
        (occupancy(&self.slots), &self.slots)
    }

    fn is_unconstrained() -> (r: bool) {
        false
    }
}

impl<'a, V> Join for &'a DenseStorage<V> {
    fn get(value: &mut Self::Value, id: Index) -> (r: &'a V) {
        let slots: &'a Vec<Option<V>> = *value;
        slots[id as usize].as_ref().unwrap()
    }
}

impl<'a, V> ParJoin for &'a DenseStorage<V> {
    fn get(value: &Self::Value, id: Index) -> (r: &'a V) {
        let slots: &'a Vec<Option<V>> = *value;
        slots[id as usize].as_ref().unwrap()
    }
}

} // verus!
