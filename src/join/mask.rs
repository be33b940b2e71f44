use vstd::prelude::*;

verus! {

/// Identifies one entity slot; the same index means the same entity in
/// every storage.
pub type Index = u32;

/// The set of indices that a storage (or a join of storages) has data for.
///
/// `All` is the unconstrained sentinel: it contains every index and holds no
/// data. `Present` holds one flag per index; indices past its end are absent.
pub enum Mask {
    All,
    Present(Vec<bool>),
}

/// Whether the flag table `bits` marks `i` as present.
pub open spec fn flag_at(bits: Seq<bool>, i: Index) -> bool {
    (i as int) < bits.len() && bits[i as int]
}

impl View for Mask {
    type V = Set<Index>;

    open spec fn view(&self) -> Set<Index> {
        match self {
            Mask::All => Set::full(),
            Mask::Present(bits) => Set::new(|i: Index| flag_at(bits@, i)),
        }
    }
}

impl Mask {
    /// Whether this is the unconstrained sentinel.
    pub open spec fn is_all_spec(&self) -> bool {
        self is All
    }

    /// The mask that contains every index.
    pub fn all() -> (r: Mask)
        ensures
            r.is_all_spec(),
            r@ == Set::<Index>::full(),
    {
        Mask::All
    }

    /// A mask over a flag table: index `i` is present when `bits[i]` is true.
    pub fn from_bits(bits: Vec<bool>) -> (r: Mask)
        ensures
            !r.is_all_spec(),
            forall|i: Index| r@.contains(i) == flag_at(bits@, i),
    {
        Mask::Present(bits)
    }

    /// Whether this is the unconstrained sentinel.
    pub fn is_all(&self) -> (r: bool)
        ensures
            r == self.is_all_spec(),
    {
        match self {
            Mask::All => true,
            Mask::Present(_) => false,
        }
    }

    /// Whether `id` is present.
    pub fn contains(&self, id: Index) -> (r: bool)
        ensures
            r == self@.contains(id),
    {
        match self {
            Mask::All => true,
            Mask::Present(bits) => (id as usize) < bits.len() && bits[id as usize],
        }
    }

    /// The indices present in both masks. The result is the sentinel exactly
    /// when both are.
    pub fn and(&self, other: &Mask) -> (r: Mask)
        ensures
            r@ == self@.intersect(other@),
            r.is_all_spec() == (self.is_all_spec() && other.is_all_spec()),
    {
        let r = match (self, other) {
            (Mask::All, Mask::All) => Mask::All,
            (Mask::All, Mask::Present(b)) => Mask::Present(copy_flags(b)),
            (Mask::Present(a), Mask::All) => Mask::Present(copy_flags(a)),
            (Mask::Present(a), Mask::Present(b)) => Mask::Present(combine_flags(a, b, true)),
        };
        assert(r@ =~= self@.intersect(other@));
        r
    }

    /// The indices present in either mask. The result is the sentinel exactly
    /// when one of the two is.
    pub fn or(&self, other: &Mask) -> (r: Mask)
        ensures
            r@ == self@.union(other@),
            r.is_all_spec() == (self.is_all_spec() || other.is_all_spec()),
    {
        let r = match (self, other) {
            (Mask::Present(a), Mask::Present(b)) => Mask::Present(combine_flags(a, b, false)),
            _ => Mask::All,
        };
        assert(r@ =~= self@.union(other@));
        r
    }
}

/// A copy of a flag table.
fn copy_flags(bits: &Vec<bool>) -> (r: Vec<bool>)
    ensures
        r@ == bits@,
{
    let mut r: Vec<bool> = Vec::new();
    let mut k: usize = 0;
    while k < bits.len()
        invariant
            k <= bits@.len(),
            r@ == bits@.subrange(0, k as int),
        decreases bits@.len() - k,
    {
        r.push(bits[k]);
        k += 1;
        assert(r@ =~= bits@.subrange(0, k as int));
    }
    assert(r@ =~= bits@);
    r
}

/// The flag-wise conjunction (`both`) or disjunction (`!both`) of two tables.
fn combine_flags(a: &Vec<bool>, b: &Vec<bool>, both: bool) -> (r: Vec<bool>)
    ensures
        forall|i: Index|
            flag_at(r@, i) == (if both {
                flag_at(a@, i) && flag_at(b@, i)
            } else {
                flag_at(a@, i) || flag_at(b@, i)
            }),
{
    let n: usize = if a.len() < b.len() { b.len() } else { a.len() };
    let mut r: Vec<bool> = Vec::new();
    let mut k: usize = 0;
    while k < n
        invariant
            k <= n,
            n == if a@.len() < b@.len() { b@.len() } else { a@.len() },
            r@.len() == k,
            forall|j: int|
                0 <= j < k ==> #[trigger] r@[j] == (if both {
                    (j < a@.len() && a@[j]) && (j < b@.len() && b@[j])
                } else {
                    (j < a@.len() && a@[j]) || (j < b@.len() && b@[j])
                }),
        decreases n - k,
    {
        let x = k < a.len() && a[k];
        let y = k < b.len() && b[k];
        r.push(if both { x && y } else { x || y });
        k += 1;
    }
    r
}

} // verus!
