//! The record store: the one component that keeps records. Its behaviour
//! is given by a mathematical view (a sequence of record views plus the
//! identifier counter and the clock) and by spec-level transitions; every
//! operation is proved to follow them. Identifiers are assigned from the
//! counter at insertion, are unique, and are never reused after deletion.

use vstd::prelude::*;
use crate::ids::{ObjectId, counter_id_bytes, id_from_counter, lemma_counter_id_injective};
use crate::records::{Item, ItemV, Payload, payload_valid, clone_item, apply_update};

verus! {

/// Mathematical view of the store: the records in insertion order, the
/// counter from which the next identifier will be minted, and the largest
/// timestamp any write has carried.
pub ghost struct StoreV {
    pub recs: Seq<ItemV>,
    pub next: u64,
    pub clock: i64,
}

/// Some record in `recs` carries identifier `id`.
pub open spec fn has_id(recs: Seq<ItemV>, id: Seq<u8>) -> bool {
    exists|i: int| 0 <= i < recs.len() && (#[trigger] recs[i]).id == Some(id)
}

/// The index of the record carrying `id` (meaningful when `has_id` holds;
/// unique when identifiers are distinct).
pub open spec fn idx_of(recs: Seq<ItemV>, id: Seq<u8>) -> int {
    choose|i: int| 0 <= i < recs.len() && (#[trigger] recs[i]).id == Some(id)
}

/// No two records carry the same identifier.
pub open spec fn distinct_ids(recs: Seq<ItemV>) -> bool {
    forall|i: int, j: int|
        0 <= i < j < recs.len() ==> (#[trigger] recs[i]).id != (#[trigger] recs[j]).id
}

/// `id` was minted from some counter value below `next`.
pub open spec fn id_is_past(id: Seq<u8>, next: u64) -> bool {
    exists|k: u64| k < next && id == counter_id_bytes(k)
}

impl StoreV {
    /// Store well-formedness: every record is well-formed, carries an
    /// identifier minted from an already-spent counter value, and was last
    /// written no later than the clock; identifiers are pairwise distinct.
    pub open spec fn wf(self) -> bool {
        &&& forall|i: int| 0 <= i < self.recs.len() ==> (#[trigger] self.recs[i]).wf()
        &&& forall|i: int|
            0 <= i < self.recs.len() ==> id_is_past((#[trigger] self.recs[i]).id->0, self.next)
        &&& forall|i: int|
            0 <= i < self.recs.len() ==> (#[trigger] self.recs[i]).updated_at <= self.clock
        &&& distinct_ids(self.recs)
    }

    /// The identifier the next insertion will be given.
    pub open spec fn new_id(self) -> Seq<u8> {
        counter_id_bytes(self.next)
    }
}

/// Insertion: a new record with a freshly minted identifier and both
/// timestamps set to `now` is appended; the counter and the clock advance.
pub open spec fn spec_insert(s: StoreV, name: Seq<char>, value: i32, now: i64) -> StoreV {
    StoreV {
        recs: s.recs.push(
            ItemV {
                id: Some(counter_id_bytes(s.next)),
                name,
                value,
                created_at: now,
                updated_at: now,
            },
        ),
        next: (s.next + 1) as u64,
        clock: now,
    }
}

/// Lookup: the record carrying `id`, if any.
pub open spec fn spec_find(s: StoreV, id: Seq<u8>) -> Option<ItemV> {
    if has_id(s.recs, id) {
        Some(s.recs[idx_of(s.recs, id)])
    } else {
        None
    }
}

/// Update: if a record carries `id`, its name and value are replaced and
/// its update time becomes `now`; identifier and creation time are kept,
/// and the clock advances. A miss leaves the store whole.
pub open spec fn spec_update(s: StoreV, id: Seq<u8>, name: Seq<char>, value: i32, now: i64) -> StoreV {
    if has_id(s.recs, id) {
        let i = idx_of(s.recs, id);
        StoreV {
            recs: s.recs.update(
                i,
                ItemV {
                    id: s.recs[i].id,
                    name,
                    value,
                    created_at: s.recs[i].created_at,
                    updated_at: now,
                },
            ),
            next: s.next,
            clock: now,
        }
    } else {
        s
    }
}

/// Deletion: if a record carries `id` it is removed; the counter is kept,
/// so the identifier is never handed out again. A miss leaves the store
/// whole.
pub open spec fn spec_delete(s: StoreV, id: Seq<u8>) -> StoreV {
    if has_id(s.recs, id) {
        StoreV { recs: s.recs.remove(idx_of(s.recs, id)), next: s.next, clock: s.clock }
    } else {
        s
    }
}

/// When identifiers are distinct, an index known to carry `id` is the index
/// the lookup denotes.
pub proof fn lemma_found_at(recs: Seq<ItemV>, id: Seq<u8>, i: int)
    requires
        distinct_ids(recs),
        0 <= i < recs.len(),
        recs[i].id == Some(id),
    ensures
        has_id(recs, id),
        idx_of(recs, id) == i,
{
    assert(has_id(recs, id));
    let j = idx_of(recs, id);
    assert(0 <= j < recs.len() && recs[j].id == Some(id));
    if i < j {
        assert(recs[i].id != recs[j].id);
    } else if j < i {
        assert(recs[j].id != recs[i].id);
    }
}

/// The identifier about to be minted is carried by no current record, and
/// insertion preserves well-formedness.
pub proof fn lemma_insert_preserves_wf(s: StoreV, name: Seq<char>, value: i32, now: i64)
    requires
        s.wf(),
        name.len() > 0,
        s.next < u64::MAX,
        now >= s.clock,
    ensures
        !has_id(s.recs, s.new_id()),
        spec_insert(s, name, value, now).wf(),
{
    if has_id(s.recs, s.new_id()) {
        let i = idx_of(s.recs, s.new_id());
        assert(0 <= i < s.recs.len() && s.recs[i].id == Some(s.new_id()));
        assert(id_is_past(s.recs[i].id->0, s.next));
        let k = choose|k: u64| k < s.next && s.recs[i].id->0 == counter_id_bytes(k);
        lemma_counter_id_injective(k, s.next);
        assert(false);
    }
    let s2 = spec_insert(s, name, value, now);
    assert forall|i: int| 0 <= i < s2.recs.len() implies (#[trigger] s2.recs[i]).wf() by {
        if i < s.recs.len() {
            assert(s.recs[i].wf());
        } else {
            crate::ids::lemma_counter_id_len(s.next);
        }
    }
    assert forall|i: int|
        0 <= i < s2.recs.len() implies id_is_past((#[trigger] s2.recs[i]).id->0, s2.next) by {
        if i < s.recs.len() {
            assert(id_is_past(s.recs[i].id->0, s.next));
            let k = choose|k: u64| k < s.next && s.recs[i].id->0 == counter_id_bytes(k);
            assert(k < s2.next && s2.recs[i].id->0 == counter_id_bytes(k));
        } else {
            assert(s2.recs[i].id->0 == counter_id_bytes(s.next) && s.next < s2.next);
        }
    }
    assert forall|i: int|
        0 <= i < s2.recs.len() implies (#[trigger] s2.recs[i]).updated_at <= s2.clock by {
        if i < s.recs.len() {
            assert(s.recs[i].updated_at <= s.clock);
        }
    }
    assert forall|i: int, j: int|
        0 <= i < j < s2.recs.len() implies (#[trigger] s2.recs[i]).id != (
    #[trigger] s2.recs[j]).id by {
        if j < s.recs.len() {
            assert(s.recs[i].id != s.recs[j].id);
        } else {
            assert(s2.recs[j].id == Some(s.new_id()));
            assert(s.recs[i].id is Some);
            if s2.recs[i].id == s2.recs[j].id {
                assert(s.recs[i].id == Some(s.new_id()));
                assert(has_id(s.recs, s.new_id()));
            }
        }
    }
}

/// The in-memory record store.
pub struct Store {
    items: Vec<Item>,
    next: u64,
    clock: i64,
}

impl View for Store {
    type V = StoreV;

    closed spec fn view(&self) -> StoreV {
        StoreV {
            recs: self.items@.map_values(|it: Item| it@),
            next: self.next,
            clock: self.clock,
        }
    }
}

impl Store {
    /// An empty store: no records, counter at zero, clock at its floor so
    /// that any timestamp is admissible.
    pub fn new() -> (r: Store)
        ensures
            r@.wf(),
            r@.recs.len() == 0,
            r@.next == 0,
            r@.clock == i64::MIN,
    {
        let s = Store { items: Vec::new(), next: 0, clock: i64::MIN };
        proof {
            assert(s@.recs.len() == 0);
        }
        s
    }

    /// Number of records currently stored.
    pub fn record_count(&self) -> (n: usize)
        ensures
            n == self@.recs.len(),
    {
        self.items.len()
    }

    /// The largest timestamp any write has carried so far.
    pub fn current_clock(&self) -> (c: i64)
        ensures
            c == self@.clock,
    {
        self.clock
    }

    /// The counter from which the next identifier will be minted.
    pub fn next_counter(&self) -> (n: u64)
        ensures
            n == self@.next,
    {
        self.next
    }

    /// The index of the record carrying `id`, if any.
    fn find_index(&self, id: &ObjectId) -> (r: Option<usize>)
        requires
            self@.wf(),
        ensures
            r is Some <==> has_id(self@.recs, id@),
            r is Some ==> 0 <= r->0 < self@.recs.len() && self@.recs[r->0 as int].id == Some(id@)
                && idx_of(self@.recs, id@) == r->0,
    {
        let n = self.items.len();
        let mut i: usize = 0;
        while i < n
            invariant
                i <= n,
                n == self.items@.len(),
                self@.wf(),
                self@.recs.len() == n,
                forall|j: int| 0 <= j < i ==> (#[trigger] self@.recs[j]).id != Some(id@),
            decreases n - i,
        {
            let it = &self.items[i];
            match &it.id {
                Some(oid) => {
                    if oid.eq_id(id) {
                        proof {
                            assert(self@.recs[i as int] == self.items@[i as int]@);
                            lemma_found_at(self@.recs, id@, i as int);
                        }
                        return Some(i);
                    } else {
                        proof {
                            assert(self@.recs[i as int].id == Some(oid@));
                        }
                    }
                },
                None => {
                    proof {
                        assert(self@.recs[i as int].id is None);
                    }
                },
            }
            i += 1;
        }
        proof {
            if has_id(self@.recs, id@) {
                let j = idx_of(self@.recs, id@);
                assert(0 <= j < n && self@.recs[j].id == Some(id@));
            }
        }
        None
    }

    /// Insert a record built from a validated name and value, assigning it
    /// the next fresh identifier and setting both timestamps to `now`. The
    /// returned identifier was carried by no record before the call.
    pub fn insert(&mut self, name: String, value: i32, now: i64) -> (r: ObjectId)
        requires
            old(self)@.wf(),
            name@.len() > 0,
            old(self)@.next < u64::MAX,
            now >= old(self)@.clock,
        ensures
            final(self)@ == spec_insert(old(self)@, name@, value, now),
            final(self)@.wf(),
            r@ == old(self)@.new_id(),
            r.wf(),
            !has_id(old(self)@.recs, r@),
    {
        proof {
            lemma_insert_preserves_wf(self@, name@, value, now);
        }
        let id = id_from_counter(self.next);
        let item = Item {
            id: Some(id.clone_id()),
            name,
            value,
            created_at: now,
            updated_at: now,
        };
        self.items.push(item);
        self.next = self.next + 1;
        self.clock = now;
        proof {
            assert(self@.recs =~= spec_insert(old(self)@, item.name@, value, now).recs);
        }
        id
    }

    /// Look up the record carrying `id`; a copy of it is returned.
    pub fn find_by_id(&self, id: &ObjectId) -> (r: Option<Item>)
        requires
            self@.wf(),
        ensures
            r is Some <==> spec_find(self@, id@) is Some,
            r is Some ==> r->0@ == spec_find(self@, id@)->0,
    {
        match self.find_index(id) {
            Some(i) => Some(clone_item(&self.items[i])),
            None => None,
        }
    }

    /// Copies of all records, in insertion order.
    pub fn find_all(&self) -> (r: Vec<Item>)
        requires
            self@.wf(),
        ensures
            r@.len() == self@.recs.len(),
            forall|i: int| 0 <= i < r@.len() ==> (#[trigger] r@[i])@ == self@.recs[i],
    {
        let n = self.items.len();
        let mut out: Vec<Item> = Vec::new();
        let mut i: usize = 0;
        while i < n
            invariant
                i <= n,
                n == self.items@.len(),
                self@.recs.len() == n,
                out@.len() == i,
                forall|j: int| 0 <= j < i ==> (#[trigger] out@[j])@ == self@.recs[j],
            decreases n - i,
        {
            out.push(clone_item(&self.items[i]));
            i += 1;
        }
        out
    }

    /// Replace the name and value of the record carrying `id` and stamp it
    /// with `now`; report whether any record matched. A miss changes
    /// nothing.
    pub fn update_by_id(&mut self, id: &ObjectId, p: &Payload, now: i64) -> (matched: bool)
        requires
            old(self)@.wf(),
            payload_valid(p),
            now >= old(self)@.clock,
        ensures
            matched == has_id(old(self)@.recs, id@),
            final(self)@ == spec_update(old(self)@, id@, p.name@, p.value, now),
            final(self)@.wf(),
    {
        match self.find_index(id) {
            Some(i) => {
                let updated = apply_update(&self.items[i], p, now);
                self.items.remove(i);
                self.items.insert(i, updated);
                self.clock = now;
                proof {
                    let s = old(self)@;
                    let s2 = spec_update(s, id@, p.name@, p.value, now);
                    assert(self@.recs =~= s2.recs);
                    lemma_update_preserves_wf(s, id@, p.name@, p.value, now);
                }
                true
            },
            None => false,
        }
    }

    /// Remove the record carrying `id`; report whether any record matched.
    /// The counter is kept, so the identifier is never assigned again. A
    /// miss changes nothing.
    pub fn delete_by_id(&mut self, id: &ObjectId) -> (matched: bool)
        requires
            old(self)@.wf(),
        ensures
            matched == has_id(old(self)@.recs, id@),
            final(self)@ == spec_delete(old(self)@, id@),
            final(self)@.wf(),
    {
        match self.find_index(id) {
            Some(i) => {
                self.items.remove(i);
                proof {
                    let s = old(self)@;
                    let s2 = spec_delete(s, id@);
                    assert(self@.recs =~= s2.recs);
                    lemma_delete_preserves_wf(s, id@);
                }
                true
            },
            None => false,
        }
    }
}

/// Updating a matched record preserves store well-formedness.
pub proof fn lemma_update_preserves_wf(s: StoreV, id: Seq<u8>, name: Seq<char>, value: i32, now: i64)
    requires
        s.wf(),
        name.len() > 0,
        now >= s.clock,
    ensures
        spec_update(s, id, name, value, now).wf(),
{
    let s2 = spec_update(s, id, name, value, now);
    if has_id(s.recs, id) {
        let i = idx_of(s.recs, id);
        assert(0 <= i < s.recs.len() && s.recs[i].id == Some(id));
        assert(s.recs[i].wf());
        assert forall|j: int| 0 <= j < s2.recs.len() implies (#[trigger] s2.recs[j]).wf() by {
            assert(s.recs[j].wf());
            if j == i {
                assert(s.recs[i].created_at <= s.recs[i].updated_at <= s.clock <= now);
            }
        }
        assert forall|j: int|
            0 <= j < s2.recs.len() implies id_is_past((#[trigger] s2.recs[j]).id->0, s2.next) by {
            assert(id_is_past(s.recs[j].id->0, s.next));
            assert(s2.recs[j].id == s.recs[j].id);
        }
        assert forall|j: int|
            0 <= j < s2.recs.len() implies (#[trigger] s2.recs[j]).updated_at <= s2.clock by {
            assert(s.recs[j].updated_at <= s.clock);
        }
        assert forall|j: int, k: int|
            0 <= j < k < s2.recs.len() implies (#[trigger] s2.recs[j]).id != (
        #[trigger] s2.recs[k]).id by {
            assert(s.recs[j].id != s.recs[k].id);
            assert(s2.recs[j].id == s.recs[j].id && s2.recs[k].id == s.recs[k].id);
        }
    }
}

/// Deleting a matched record preserves store well-formedness.
pub proof fn lemma_delete_preserves_wf(s: StoreV, id: Seq<u8>)
    requires
        s.wf(),
    ensures
        spec_delete(s, id).wf(),
{
    let s2 = spec_delete(s, id);
    if has_id(s.recs, id) {
        let i = idx_of(s.recs, id);
        assert(0 <= i < s.recs.len());
        assert forall|j: int| 0 <= j < s2.recs.len() implies (#[trigger] s2.recs[j]).wf() by {
            if j < i {
                assert(s2.recs[j] == s.recs[j]);
            } else {
                assert(s2.recs[j] == s.recs[j + 1]);
            }
            assert(s2.recs[j].wf());
        }
        assert forall|j: int|
            0 <= j < s2.recs.len() implies id_is_past((#[trigger] s2.recs[j]).id->0, s2.next) by {
            if j < i {
                assert(s2.recs[j] == s.recs[j]);
            } else {
                assert(s2.recs[j] == s.recs[j + 1]);
            }
        }
        assert forall|j: int|
            0 <= j < s2.recs.len() implies (#[trigger] s2.recs[j]).updated_at <= s2.clock by {
            if j < i {
                assert(s2.recs[j] == s.recs[j]);
            } else {
                assert(s2.recs[j] == s.recs[j + 1]);
            }
        }
        assert forall|j: int, k: int|
            0 <= j < k < s2.recs.len() implies (#[trigger] s2.recs[j]).id != (
        #[trigger] s2.recs[k]).id by {
            let j0: int = if j < i { j } else { j + 1 };
            let k0: int = if k < i { k } else { k + 1 };
            assert(s2.recs[j] == s.recs[j0]);
            assert(s2.recs[k] == s.recs[k0]);
            assert(s.recs[j0].id != s.recs[k0].id);
        }
    }
}

} // verus!
