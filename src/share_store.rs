//! The store of accepted key shares: unique by material and by index, bounded
//! by a fixed capacity, kept in order of acceptance.

use vstd::prelude::*;

verus! {

/// One accepted share: its raw material and its position in the split.
pub struct KeyShare {
    pub material: Vec<u8>,
    pub index: u32,
}

impl KeyShare {
    /// The share as a pair of material bytes and index.
    pub open spec fn view_pair(&self) -> (Seq<u8>, u32) {
        (self.material@, self.index)
    }
}

/// What the store did with a submitted share.
#[derive(Clone, Copy, Debug, PartialEq, Eq, Structural)]
pub enum AddResult {
    /// The share was stored.
    Added,
    /// A stored share already has this material or this index.
    Duplicate,
    /// The store already holds `capacity` shares.
    Full,
}

/// Whether a stored entry has material `m` or index `i`.
pub open spec fn holds_duplicate(entries: Seq<(Seq<u8>, u32)>, m: Seq<u8>, i: u32) -> bool {
    exists|j: int| 0 <= j < entries.len() && ((#[trigger] entries[j]).0 == m || entries[j].1 == i)
}

/// The outcome of offering `(m, i)` to a store holding `entries` with room
/// for `cap` shares: a full store refuses first, then a duplicate is refused.
pub open spec fn add_outcome(entries: Seq<(Seq<u8>, u32)>, cap: nat, m: Seq<u8>, i: u32) -> AddResult {
    if entries.len() >= cap {
        AddResult::Full
    } else if holds_duplicate(entries, m, i) {
        AddResult::Duplicate
    } else {
        AddResult::Added
    }
}

/// The entries after offering `(m, i)`: appended when added, else unchanged.
pub open spec fn entries_after_add(entries: Seq<(Seq<u8>, u32)>, cap: nat, m: Seq<u8>, i: u32) -> Seq<
    (Seq<u8>, u32),
> {
    if add_outcome(entries, cap, m, i) == AddResult::Added {
        entries.push((m, i))
    } else {
        entries
    }
}

/// No two entries share their material or their index.
pub open spec fn entries_distinct(entries: Seq<(Seq<u8>, u32)>) -> bool {
    forall|j: int, k: int|
        0 <= j < k < entries.len() ==> #[trigger] entries[j].0 != #[trigger] entries[k].0
            && entries[j].1 != entries[k].1
}

/// The materials of the entries, in order.
pub open spec fn materials_of(entries: Seq<(Seq<u8>, u32)>) -> Seq<Seq<u8>> {
    entries.map_values(|e: (Seq<u8>, u32)| e.0)
}

/// The indexes of the entries, in order.
pub open spec fn indexes_of(entries: Seq<(Seq<u8>, u32)>) -> Seq<u32> {
    entries.map_values(|e: (Seq<u8>, u32)| e.1)
}

/// Offering the same share twice: unless the first offer left the store at
/// capacity, the second is refused as a duplicate and changes nothing.
pub proof fn lemma_resubmission_is_duplicate(
    entries: Seq<(Seq<u8>, u32)>,
    cap: nat,
    m: Seq<u8>,
    i: u32,
)
    requires
        entries_after_add(entries, cap, m, i).len() < cap,
    ensures
        add_outcome(entries_after_add(entries, cap, m, i), cap, m, i) == AddResult::Duplicate,
        entries_after_add(entries_after_add(entries, cap, m, i), cap, m, i) == entries_after_add(
            entries,
            cap,
            m,
            i,
        ),
{
    let after = entries_after_add(entries, cap, m, i);
    if add_outcome(entries, cap, m, i) == AddResult::Added {
        assert(after[entries.len() as int] == (m, i));
    }
    assert(holds_duplicate(after, m, i));
}

/// Reusing the index of a stored share: once `(m1, i)` has been added, any
/// other material offered under index `i` is refused as a duplicate, unless
/// the store is then at capacity.
pub proof fn lemma_reused_index_is_duplicate(
    entries: Seq<(Seq<u8>, u32)>,
    cap: nat,
    m1: Seq<u8>,
    m2: Seq<u8>,
    i: u32,
)
    requires
        add_outcome(entries, cap, m1, i) == AddResult::Added,
        entries.len() + 1 < cap,
    ensures
        add_outcome(entries_after_add(entries, cap, m1, i), cap, m2, i) == AddResult::Duplicate,
{
    let after = entries_after_add(entries, cap, m1, i);
    assert(after[entries.len() as int] == (m1, i));
    assert(holds_duplicate(after, m2, i));
}

/// A store at capacity refuses every share as `Full`, whatever its material
/// and index, and is left unchanged.
pub proof fn lemma_full_refuses_all(entries: Seq<(Seq<u8>, u32)>, cap: nat, m: Seq<u8>, i: u32)
    requires
        entries.len() >= cap,
    ensures
        add_outcome(entries, cap, m, i) == AddResult::Full,
        entries_after_add(entries, cap, m, i) == entries,
{
}

/// Each share added grows the store by exactly one, so `cap` successful adds
/// from empty fill it.
pub proof fn lemma_added_grows_by_one(entries: Seq<(Seq<u8>, u32)>, cap: nat, m: Seq<u8>, i: u32)
    ensures
        add_outcome(entries, cap, m, i) == AddResult::Added ==> entries_after_add(
            entries,
            cap,
            m,
            i,
        ).len() == entries.len() + 1,
        add_outcome(entries, cap, m, i) != AddResult::Added ==> entries_after_add(
            entries,
            cap,
            m,
            i,
        ).len() == entries.len(),
{
}

/// The listed materials follow the adds: an added share's material is
/// appended, and a refused share leaves the listing as it was.
pub proof fn lemma_listing_follows_adds(
    entries: Seq<(Seq<u8>, u32)>,
    cap: nat,
    m: Seq<u8>,
    i: u32,
)
    ensures
        materials_of(entries_after_add(entries, cap, m, i)) == if add_outcome(entries, cap, m, i)
            == AddResult::Added {
            materials_of(entries).push(m)
        } else {
            materials_of(entries)
        },
{
    if add_outcome(entries, cap, m, i) == AddResult::Added {
        assert(materials_of(entries.push((m, i))) =~= materials_of(entries).push(m));
    }
}

/// The entries after offering each of `offers` in turn, starting from
/// `entries`.
pub open spec fn entries_after_offers(
    entries: Seq<(Seq<u8>, u32)>,
    cap: nat,
    offers: Seq<(Seq<u8>, u32)>,
) -> Seq<(Seq<u8>, u32)>
    decreases offers.len(),
{
    if offers.len() == 0 {
        entries
    } else {
        let prev = entries_after_offers(entries, cap, offers.drop_last());
        entries_after_add(prev, cap, offers.last().0, offers.last().1)
    }
}

/// The offers, in order, that were added when offered in turn starting from
/// `entries`.
pub open spec fn accepted_offers(
    entries: Seq<(Seq<u8>, u32)>,
    cap: nat,
    offers: Seq<(Seq<u8>, u32)>,
) -> Seq<(Seq<u8>, u32)>
    decreases offers.len(),
{
    if offers.len() == 0 {
        Seq::empty()
    } else {
        let prev = entries_after_offers(entries, cap, offers.drop_last());
        let earlier = accepted_offers(entries, cap, offers.drop_last());
        if add_outcome(prev, cap, offers.last().0, offers.last().1) == AddResult::Added {
            earlier.push(offers.last())
        } else {
            earlier
        }
    }
}

/// Starting from an empty store, the listing after any run of offers is
/// exactly the materials of the offers that were added, in the order they
/// were offered.
pub proof fn lemma_listing_is_accepted_in_order(cap: nat, offers: Seq<(Seq<u8>, u32)>)
    ensures
        entries_after_offers(Seq::empty(), cap, offers) == accepted_offers(
            Seq::empty(),
            cap,
            offers,
        ),
        materials_of(entries_after_offers(Seq::empty(), cap, offers)) == materials_of(
            accepted_offers(Seq::empty(), cap, offers),
        ),
    decreases offers.len(),
{
    if offers.len() > 0 {
        lemma_listing_is_accepted_in_order(cap, offers.drop_last());
    }
}

/// The accepted shares, in order of acceptance, with the capacity fixed at
/// creation.
pub struct ShareStore {
    shares: Vec<KeyShare>,
    capacity: usize,
}

impl ShareStore {
    /// The stored shares as (material, index) pairs, in order of acceptance.
    pub closed spec fn entries(&self) -> Seq<(Seq<u8>, u32)> {
        self.shares@.map_values(|k: KeyShare| k.view_pair())
    }

    /// The most shares this store ever holds.
    pub closed spec fn capacity_spec(&self) -> nat {
        self.capacity as nat
    }

    /// The store's invariant: distinct entries, no more than the capacity.
    pub open spec fn wf(&self) -> bool {
        &&& entries_distinct(self.entries())
        &&& self.entries().len() <= self.capacity_spec()
    }

    /// An empty store with room for `capacity` shares.
    pub fn new(capacity: usize) -> (r: ShareStore)
        ensures
            r.wf(),
            r.entries() == Seq::<(Seq<u8>, u32)>::empty(),
            r.capacity_spec() == capacity,
    {
        let r = ShareStore { shares: Vec::new(), capacity };
        assert(r.entries() =~= Seq::<(Seq<u8>, u32)>::empty());
        r
    }

    /// The most shares this store ever holds.
    pub fn capacity(&self) -> (r: usize)
        ensures
            r == self.capacity_spec(),
    {
        self.capacity
    }

    /// How many shares are stored.
    pub fn len(&self) -> (r: usize)
        ensures
            r == self.entries().len(),
    {
        self.shares.len()
    }

    /// Offers a share: refused as `Full` when the store is at capacity
    /// whatever the share, as `Duplicate` when its material or its index is
    /// already stored; otherwise appended.
    pub fn try_add(&mut self, material: Vec<u8>, index: u32) -> (r: AddResult)
        requires
            old(self).wf(),
        ensures
            final(self).wf(),
            r == add_outcome(old(self).entries(), old(self).capacity_spec(), material@, index),
            final(self).entries() == entries_after_add(
                old(self).entries(),
                old(self).capacity_spec(),
                material@,
                index,
            ),
            final(self).capacity_spec() == old(self).capacity_spec(),
    {
        let ghost entries = self.entries();
        if self.shares.len() >= self.capacity {
            return AddResult::Full;
        }
        let mut j: usize = 0;
        while j < self.shares.len()
            invariant
                self.entries() == entries,
                entries == old(self).entries(),
                self.capacity_spec() == old(self).capacity_spec(),
                entries.len() < self.capacity_spec(),
                self.wf(),
                0 <= j <= entries.len(),
                forall|k: int| 0 <= k < j ==> !((#[trigger] entries[k]).0 == material@ || entries[k].1 == index),
            decreases self.shares.len() - j,
        {
            let stored = &self.shares[j];
            assert(entries[j as int] == stored.view_pair());
            if stored.index == index || bytes_equal(&stored.material, &material) {
                assert(holds_duplicate(entries, material@, index));
                return AddResult::Duplicate;
            }
            j += 1;
        }
        assert(!holds_duplicate(entries, material@, index));
        self.shares.push(KeyShare { material, index });
        assert(self.entries() =~= entries.push((material@, index)));
        AddResult::Added
    }

    /// The stored materials, in order of acceptance: a fresh copy.
    pub fn snapshot(&self) -> (r: Vec<Vec<u8>>)
        ensures
            r@.map_values(|v: Vec<u8>| v@) == materials_of(self.entries()),
    {
        let mut r: Vec<Vec<u8>> = Vec::new();
        let mut j: usize = 0;
        while j < self.shares.len()
            invariant
                0 <= j <= self.shares.len(),
                r@.map_values(|v: Vec<u8>| v@) == materials_of(self.entries()).take(j as int),
            decreases self.shares.len() - j,
        {
            assert(self.entries()[j as int] == self.shares@[j as int].view_pair());
            let copy = copy_bytes(&self.shares[j].material);
            let ghost before = r@;
            r.push(copy);
            assert(r@ == before.push(copy));
            assert(r@.map_values(|v: Vec<u8>| v@) =~= before.map_values(|v: Vec<u8>| v@).push(copy@));
            assert(materials_of(self.entries()).take(j as int + 1) =~= materials_of(
                self.entries(),
            ).take(j as int).push(copy@));
            j += 1;
        }
        assert(materials_of(self.entries()).take(j as int) =~= materials_of(self.entries()));
        r
    }

    /// The stored indexes, in order of acceptance, widened for the recovery
    /// primitive.
    pub fn indexes(&self) -> (r: Vec<usize>)
        ensures
            r@ == indexes_of(self.entries()).map_values(|i: u32| i as usize),
    {
        let mut r: Vec<usize> = Vec::new();
        let mut j: usize = 0;
        while j < self.shares.len()
            invariant
                0 <= j <= self.shares.len(),
                r@ == indexes_of(self.entries()).map_values(|i: u32| i as usize).take(j as int),
            decreases self.shares.len() - j,
        {
            assert(self.entries()[j as int] == self.shares@[j as int].view_pair());
            r.push(self.shares[j].index as usize);
            assert(r@ =~= indexes_of(self.entries()).map_values(|i: u32| i as usize).take(
                j as int + 1,
            ));
            j += 1;
        }
        assert(indexes_of(self.entries()).map_values(|i: u32| i as usize).take(j as int)
            =~= indexes_of(self.entries()).map_values(|i: u32| i as usize));
        r
    }
}

/// Whether two byte vectors hold the same bytes.
fn bytes_equal(a: &Vec<u8>, b: &Vec<u8>) -> (r: bool)
    ensures
        r == (a@ == b@),
{
    if a.len() != b.len() {
        return false;
    }
    let mut j: usize = 0;
    while j < a.len()
        invariant
            a.len() == b.len(),
            0 <= j <= a.len(),
            forall|k: int| 0 <= k < j ==> a@[k] == b@[k],
        decreases a.len() - j,
    {
        if a[j] != b[j] {
            return false;
        }
        j += 1;
    }
    assert(a@ =~= b@);
    true
}

/// A copy of a byte vector.
fn copy_bytes(a: &Vec<u8>) -> (r: Vec<u8>)
    ensures
        r@ == a@,
{
    let mut r: Vec<u8> = Vec::new();
    let mut j: usize = 0;
    while j < a.len()
        invariant
            0 <= j <= a.len(),
            r@ == a@.take(j as int),
        decreases a.len() - j,
    {
        r.push(a[j]);
        assert(r@ =~= a@.take(j as int + 1));
        j += 1;
    }
    assert(a@.take(j as int) =~= a@);
    r
}

} // verus!
