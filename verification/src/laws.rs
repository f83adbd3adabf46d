//! The laws of the store: properties that relate several operations,
//! stated over the store's mathematical view and proved from the same
//! spec-level transitions that every operation's contract names.

use vstd::prelude::*;
use crate::records::ItemV;
use crate::store::{StoreV, spec_insert, spec_find, spec_update, spec_delete, has_id, idx_of, lemma_found_at, lemma_insert_preserves_wf, lemma_update_preserves_wf, lemma_delete_preserves_wf};

verus! {

/// Creating a record and immediately looking up the identifier the
/// insertion returned yields exactly the record that was stored: the same
/// name and value, with creation and update time both equal to the
/// insertion time.
pub proof fn lemma_create_then_find(s: StoreV, name: Seq<char>, value: i32, now: i64)
    requires
        s.wf(),
        name.len() > 0,
        s.next < u64::MAX,
        now >= s.clock,
    ensures
        spec_find(spec_insert(s, name, value, now), s.new_id()) == Some(
            ItemV { id: Some(s.new_id()), name, value, created_at: now, updated_at: now },
        ),
{
    lemma_insert_preserves_wf(s, name, value, now);
    let s2 = spec_insert(s, name, value, now);
    let i = s.recs.len() as int;
    assert(s2.recs[i].id == Some(s.new_id()));
    lemma_found_at(s2.recs, s.new_id(), i);
}

/// Updating a record never changes its identifier or its creation time,
/// and moves its update time to the write's timestamp, which is never
/// earlier than the one it had.
pub proof fn lemma_update_keeps_identity(s: StoreV, id: Seq<u8>, name: Seq<char>, value: i32, now: i64)
    requires
        s.wf(),
        has_id(s.recs, id),
        name.len() > 0,
        now >= s.clock,
    ensures
        ({
            let before = spec_find(s, id)->0;
            let after = spec_find(spec_update(s, id, name, value, now), id)->0;
            &&& spec_find(spec_update(s, id, name, value, now), id) is Some
            &&& after.id == before.id
            &&& after.created_at == before.created_at
            &&& after.updated_at == now
            &&& after.updated_at >= before.updated_at
            &&& after.name == name
            &&& after.value == value
        }),
{
    let i = idx_of(s.recs, id);
    assert(0 <= i < s.recs.len() && s.recs[i].id == Some(id));
    let s2 = spec_update(s, id, name, value, now);
    lemma_update_preserves_wf(s, id, name, value, now);
    assert(s2.recs[i].id == Some(id));
    lemma_found_at(s2.recs, id, i);
    assert(s.recs[i].updated_at <= s.clock);
}

/// Deleting an identifier and then looking it up always misses, whether or
/// not a record carried it.
pub proof fn lemma_delete_then_find(s: StoreV, id: Seq<u8>)
    requires
        s.wf(),
    ensures
        spec_find(spec_delete(s, id), id) is None,
{
    let s2 = spec_delete(s, id);
    if has_id(s.recs, id) {
        let i = idx_of(s.recs, id);
        assert(0 <= i < s.recs.len() && s.recs[i].id == Some(id));
        if has_id(s2.recs, id) {
            let j = idx_of(s2.recs, id);
            assert(0 <= j < s2.recs.len() && s2.recs[j].id == Some(id));
            let j0: int = if j < i {
                j
            } else {
                j + 1
            };
            assert(s2.recs[j] == s.recs[j0]);
            if j0 < i {
                assert(s.recs[j0].id != s.recs[i].id);
            } else {
                assert(s.recs[i].id != s.recs[j0].id);
            }
        }
    }
}

/// The store after inserting each of a sequence of payloads in order, all
/// stamped with the same time.
pub open spec fn spec_insert_all(s: StoreV, payloads: Seq<(Seq<char>, i32)>, now: i64) -> StoreV
    decreases payloads.len(),
{
    if payloads.len() == 0 {
        s
    } else {
        spec_insert_all(
            spec_insert(s, payloads[0].0, payloads[0].1, now),
            payloads.subrange(1, payloads.len() as int),
            now,
        )
    }
}

/// Inserting N records grows the store by exactly N.
pub proof fn lemma_insert_all_count(s: StoreV, payloads: Seq<(Seq<char>, i32)>, now: i64)
    ensures
        spec_insert_all(s, payloads, now).recs.len() == s.recs.len() + payloads.len(),
    decreases payloads.len(),
{
    if payloads.len() > 0 {
        lemma_insert_all_count(
            spec_insert(s, payloads[0].0, payloads[0].1, now),
            payloads.subrange(1, payloads.len() as int),
            now,
        );
    }
}

/// Deleting a present identifier shrinks the store by exactly one record;
/// deleting an absent one changes nothing.
pub proof fn lemma_delete_count(s: StoreV, id: Seq<u8>)
    ensures
        has_id(s.recs, id) ==> spec_delete(s, id).recs.len() == s.recs.len() - 1,
        !has_id(s.recs, id) ==> spec_delete(s, id) == s,
{
    if has_id(s.recs, id) {
        let i = idx_of(s.recs, id);
        assert(0 <= i < s.recs.len());
    }
}

/// Inserting a sequence of valid payloads preserves well-formedness, as
/// long as the counter cannot wrap.
pub proof fn lemma_insert_all_wf(s: StoreV, payloads: Seq<(Seq<char>, i32)>, now: i64)
    requires
        s.wf(),
        forall|i: int| 0 <= i < payloads.len() ==> (#[trigger] payloads[i]).0.len() > 0,
        s.next + payloads.len() <= u64::MAX,
        now >= s.clock,
    ensures
        spec_insert_all(s, payloads, now).wf(),
    decreases payloads.len(),
{
    if payloads.len() > 0 {
        let s2 = spec_insert(s, payloads[0].0, payloads[0].1, now);
        lemma_insert_preserves_wf(s, payloads[0].0, payloads[0].1, now);
        let rest = payloads.subrange(1, payloads.len() as int);
        assert forall|i: int| 0 <= i < rest.len() implies (#[trigger] rest[i]).0.len() > 0 by {
            assert(rest[i] == payloads[i + 1]);
        }
        lemma_insert_all_wf(s2, rest, now);
    }
}

/// Deleting one identifier neither removes nor revives any other.
proof fn lemma_delete_keeps_other(s: StoreV, id: Seq<u8>, other: Seq<u8>)
    requires
        s.wf(),
        other != id,
    ensures
        has_id(spec_delete(s, id).recs, other) == has_id(s.recs, other),
{
    let s2 = spec_delete(s, id);
    if has_id(s.recs, id) {
        let i = idx_of(s.recs, id);
        assert(0 <= i < s.recs.len() && s.recs[i].id == Some(id));
        if has_id(s.recs, other) {
            let j = idx_of(s.recs, other);
            assert(0 <= j < s.recs.len() && s.recs[j].id == Some(other));
            assert(j != i);
            let j2: int = if j < i {
                j
            } else {
                j - 1
            };
            assert(s2.recs[j2] == s.recs[j]);
            assert(has_id(s2.recs, other));
        }
        if has_id(s2.recs, other) {
            let j = idx_of(s2.recs, other);
            assert(0 <= j < s2.recs.len() && s2.recs[j].id == Some(other));
            let j0: int = if j < i {
                j
            } else {
                j + 1
            };
            assert(s2.recs[j] == s.recs[j0]);
            assert(has_id(s.recs, other));
        }
    }
}

/// The store after deleting each identifier in a sequence, in order.
pub open spec fn spec_delete_all(s: StoreV, ids: Seq<Seq<u8>>) -> StoreV
    decreases ids.len(),
{
    if ids.len() == 0 {
        s
    } else {
        spec_delete_all(spec_delete(s, ids[0]), ids.subrange(1, ids.len() as int))
    }
}

/// Deleting M distinct present identifiers shrinks the store by exactly M.
pub proof fn lemma_delete_all_count(s: StoreV, ids: Seq<Seq<u8>>)
    requires
        s.wf(),
        forall|i: int| 0 <= i < ids.len() ==> has_id(s.recs, #[trigger] ids[i]),
        forall|i: int, j: int| 0 <= i < j < ids.len() ==> ids[i] != ids[j],
    ensures
        spec_delete_all(s, ids).recs.len() == s.recs.len() - ids.len(),
        spec_delete_all(s, ids).wf(),
    decreases ids.len(),
{
    if ids.len() > 0 {
        let s2 = spec_delete(s, ids[0]);
        lemma_delete_preserves_wf(s, ids[0]);
        lemma_delete_count(s, ids[0]);
        let rest = ids.subrange(1, ids.len() as int);
        assert forall|i: int| 0 <= i < rest.len() implies has_id(s2.recs, #[trigger] rest[i]) by {
            assert(rest[i] == ids[i + 1]);
            assert(ids[0] != ids[i + 1]);
            lemma_delete_keeps_other(s, ids[0], ids[i + 1]);
        }
        assert forall|i: int, j: int| 0 <= i < j < rest.len() implies rest[i] != rest[j] by {
            assert(rest[i] == ids[i + 1] && rest[j] == ids[j + 1]);
        }
        lemma_delete_all_count(s2, rest);
    }
}

/// After inserting N records into a well-formed store and then deleting
/// M ≤ N distinct identifiers present at that point, exactly N − M more
/// records remain than before — and the get-all contract returns precisely
/// those records.
pub proof fn lemma_insert_then_delete_count(
    s: StoreV,
    payloads: Seq<(Seq<char>, i32)>,
    now: i64,
    ids: Seq<Seq<u8>>,
)
    requires
        s.wf(),
        forall|i: int| 0 <= i < payloads.len() ==> (#[trigger] payloads[i]).0.len() > 0,
        s.next + payloads.len() <= u64::MAX,
        now >= s.clock,
        forall|i: int|
            0 <= i < ids.len() ==> has_id(spec_insert_all(s, payloads, now).recs, #[trigger] ids[i]),
        forall|i: int, j: int| 0 <= i < j < ids.len() ==> ids[i] != ids[j],
    ensures
        spec_delete_all(spec_insert_all(s, payloads, now), ids).recs.len() == s.recs.len()
            + payloads.len() - ids.len(),
{
    lemma_insert_all_wf(s, payloads, now);
    lemma_insert_all_count(s, payloads, now);
    lemma_delete_all_count(spec_insert_all(s, payloads, now), ids);
}

} // verus!
