//! Request handlers: the decision layer of each operation. Every handler
//! is a pure pipeline from an already-decoded request to an HTTP status
//! code and a response envelope; the only state it touches is the record
//! store it is handed. A malformed identifier or payload is answered with
//! 400 before the store is consulted.

use vstd::prelude::*;
use vstd::string::StringSliceAdditionalSpecFns;
use crate::ids::{parse_object_id, valid_oid_hex, decoded_oid};
use crate::records::{ApiError, Payload, Item, Response, payload_valid, validate_payload, clone_string, success_envelope, error_envelope};
use crate::store::{Store, spec_insert, spec_find, spec_update, spec_delete, has_id, idx_of, lemma_found_at, lemma_update_preserves_wf};

verus! {

/// The HTTP status that reports each error of the taxonomy: a caller's
/// fault is 400, a miss is 404, a store failure is 500.
pub fn status_of_error(e: ApiError) -> (s: u16)
    ensures
        (e == ApiError::ValidationError || e == ApiError::InvalidIdentifier) ==> s == 400,
        e == ApiError::NotFound ==> s == 404,
        (e == ApiError::StoreUnavailable || e == ApiError::StoreRejected) ==> s == 500,
{
    match e {
        ApiError::ValidationError => 400,
        ApiError::InvalidIdentifier => 400,
        ApiError::NotFound => 404,
        ApiError::StoreUnavailable => 500,
        ApiError::StoreRejected => 500,
    }
}

/// Health check: report whether the store answered the ping. A dead store
/// yields a 500 envelope with a message — never a crash.
pub fn health_check(reachable: bool) -> (r: (u16, Response))
    ensures
        reachable ==> r.0 == 200,
        !reachable ==> r.0 == 500,
        r.1.error == !reachable,
        !reachable ==> r.1.message is Some,
        r.1._id is None && r.1.name is None && r.1.value is None,
{
    if reachable {
        (
            200,
            Response {
                error: false,
                message: None,
                _id: None,
                name: None,
                value: None,
                created_at: None,
                updated_at: None,
            },
        )
    } else {
        (500, error_envelope("Database connection failed"))
    }
}

/// Create: validate the payload, map it to a record, insert it, and answer
/// with the stored record. An invalid payload is answered with 400 and the
/// store is left whole.
pub fn create_item(store: &mut Store, payload: &Payload, now: i64) -> (r: (u16, Response))
    requires
        old(store)@.wf(),
        old(store)@.next < u64::MAX,
        now >= old(store)@.clock,
    ensures
        final(store)@.wf(),
        !payload_valid(payload) ==> r.0 == 400 && r.1.error && final(store)@ == old(store)@,
        payload_valid(payload) ==> {
            &&& r.0 == 200
            &&& !r.1.error
            &&& final(store)@ == spec_insert(old(store)@, payload.name@, payload.value, now)
            &&& r.1._id is Some && r.1._id->0@ == old(store)@.new_id()
            &&& r.1.name is Some && r.1.name->0@ == payload.name@
            &&& r.1.value == Some(payload.value)
            &&& r.1.created_at == Some(now)
            &&& r.1.updated_at == Some(now)
        },
{
    if !validate_payload(payload) {
        return (status_of_error(ApiError::ValidationError), error_envelope("name must not be empty"));
    }
    let id = store.insert(clone_string(&payload.name), payload.value, now);
    let item = Item {
        id: Some(id),
        name: clone_string(&payload.name),
        value: payload.value,
        created_at: now,
        updated_at: now,
    };
    (200, success_envelope(&item))
}

/// Get-one: parse the identifier (400 when malformed, without consulting
/// the store), look it up, and answer 200 with the record or 404.
pub fn get_item(store: &Store, id_str: &str) -> (r: (u16, Response))
    requires
        store@.wf(),
    ensures
        !valid_oid_hex(id_str.spec_bytes()) ==> r.0 == 400 && r.1.error,
        valid_oid_hex(id_str.spec_bytes()) ==> {
            let found = spec_find(store@, decoded_oid(id_str.spec_bytes()));
            &&& found is None ==> r.0 == 404 && r.1.error
            &&& found is Some ==> {
                &&& r.0 == 200
                &&& !r.1.error
                &&& r.1._id is Some && Some(r.1._id->0@) == found->0.id
                &&& r.1.name is Some && r.1.name->0@ == found->0.name
                &&& r.1.value == Some(found->0.value)
                &&& r.1.created_at == Some(found->0.created_at)
                &&& r.1.updated_at == Some(found->0.updated_at)
            }
        },
{
    let id = match parse_object_id(id_str) {
        Some(id) => id,
        None => {
            return (status_of_error(ApiError::InvalidIdentifier), error_envelope("Invalid item identifier"));
        },
    };
    match store.find_by_id(&id) {
        Some(item) => (200, success_envelope(&item)),
        None => (status_of_error(ApiError::NotFound), error_envelope("Item not found")),
    }
}

/// Get-all: answer 200 with one success envelope per stored record, in
/// insertion order; an empty store yields an empty list, never an error.
pub fn get_items(store: &Store) -> (r: (u16, Vec<Response>))
    requires
        store@.wf(),
    ensures
        r.0 == 200,
        r.1@.len() == store@.recs.len(),
        forall|i: int|
            0 <= i < r.1@.len() ==> {
                let resp = #[trigger] r.1@[i];
                &&& !resp.error
                &&& resp._id is Some && Some(resp._id->0@) == store@.recs[i].id
                &&& resp.name is Some && resp.name->0@ == store@.recs[i].name
                &&& resp.value == Some(store@.recs[i].value)
                &&& resp.created_at == Some(store@.recs[i].created_at)
                &&& resp.updated_at == Some(store@.recs[i].updated_at)
            },
{
    let items = store.find_all();
    let n = items.len();
    let mut out: Vec<Response> = Vec::new();
    let mut i: usize = 0;
    while i < n
        invariant
            i <= n,
            n == items@.len(),
            n == store@.recs.len(),
            store@.wf(),
            forall|j: int| 0 <= j < n ==> (#[trigger] items@[j])@ == store@.recs[j],
            out@.len() == i,
            forall|j: int|
                0 <= j < i ==> {
                    let resp = #[trigger] out@[j];
                    &&& !resp.error
                    &&& resp._id is Some && Some(resp._id->0@) == store@.recs[j].id
                    &&& resp.name is Some && resp.name->0@ == store@.recs[j].name
                    &&& resp.value == Some(store@.recs[j].value)
                    &&& resp.created_at == Some(store@.recs[j].created_at)
                    &&& resp.updated_at == Some(store@.recs[j].updated_at)
                },
        decreases n - i,
    {
        proof {
            assert(items@[i as int]@ == store@.recs[i as int]);
            assert(store@.recs[i as int].wf());
        }
        out.push(success_envelope(&items[i]));
        i += 1;
    }
    (200, out)
}

/// Update: parse the identifier (400 when malformed), validate the payload
/// (400), replace the matched record's name and value with the update time
/// set to `now`, and answer with the updated record; 404 when no record
/// matches. On every failure the store is left whole.
pub fn update_item(store: &mut Store, id_str: &str, payload: &Payload, now: i64) -> (r: (
    u16,
    Response,
))
    requires
        old(store)@.wf(),
        now >= old(store)@.clock,
    ensures
        final(store)@.wf(),
        !valid_oid_hex(id_str.spec_bytes()) ==> r.0 == 400 && r.1.error && final(store)@ == old(
            store,
        )@,
        valid_oid_hex(id_str.spec_bytes()) && !payload_valid(payload) ==> r.0 == 400 && r.1.error
            && final(store)@ == old(store)@,
        valid_oid_hex(id_str.spec_bytes()) && payload_valid(payload) ==> {
            let id = decoded_oid(id_str.spec_bytes());
            &&& !has_id(old(store)@.recs, id) ==> r.0 == 404 && r.1.error && final(store)@ == old(
                store,
            )@
            &&& has_id(old(store)@.recs, id) ==> {
                &&& r.0 == 200
                &&& !r.1.error
                &&& final(store)@ == spec_update(
                    old(store)@,
                    id,
                    payload.name@,
                    payload.value,
                    now,
                )
                &&& r.1._id is Some && r.1._id->0@ == id
                &&& r.1.name is Some && r.1.name->0@ == payload.name@
                &&& r.1.value == Some(payload.value)
                &&& r.1.created_at == Some(spec_find(old(store)@, id)->0.created_at)
                &&& r.1.updated_at == Some(now)
            }
        },
{
    let id = match parse_object_id(id_str) {
        Some(id) => id,
        None => {
            return (status_of_error(ApiError::InvalidIdentifier), error_envelope("Invalid item identifier"));
        },
    };
    if !validate_payload(payload) {
        return (status_of_error(ApiError::ValidationError), error_envelope("name must not be empty"));
    }
    let matched = store.update_by_id(&id, payload, now);
    if !matched {
        return (status_of_error(ApiError::NotFound), error_envelope("Item not found"));
    }
    proof {
        let s = old(store)@;
        let i = idx_of(s.recs, id@);
        let s2 = spec_update(s, id@, payload.name@, payload.value, now);
        assert(0 <= i < s.recs.len() && s.recs[i].id == Some(id@));
        assert(s2.recs[i].id == Some(id@));
        lemma_update_preserves_wf(s, id@, payload.name@, payload.value, now);
        lemma_found_at(s2.recs, id@, i);
    }
    match store.find_by_id(&id) {
        Some(item) => (200, success_envelope(&item)),
        None => (404, error_envelope("Item not found")),
    }
}

/// Delete: parse the identifier (400 when malformed), remove the matched
/// record, and answer 200; 404 when no record matches. On every failure
/// the store is left whole.
pub fn delete_item(store: &mut Store, id_str: &str) -> (r: (u16, Response))
    requires
        old(store)@.wf(),
    ensures
        final(store)@.wf(),
        !valid_oid_hex(id_str.spec_bytes()) ==> r.0 == 400 && r.1.error && final(store)@ == old(
            store,
        )@,
        valid_oid_hex(id_str.spec_bytes()) ==> {
            let id = decoded_oid(id_str.spec_bytes());
            &&& !has_id(old(store)@.recs, id) ==> r.0 == 404 && r.1.error && final(store)@ == old(
                store,
            )@
            &&& has_id(old(store)@.recs, id) ==> r.0 == 200 && !r.1.error && final(store)@
                == spec_delete(old(store)@, id)
        },
{
    let id = match parse_object_id(id_str) {
        Some(id) => id,
        None => {
            return (status_of_error(ApiError::InvalidIdentifier), error_envelope("Invalid item identifier"));
        },
    };
    let matched = store.delete_by_id(&id);
    if matched {
        (
            200,
            Response {
                error: false,
                message: Some(String::from_str("Item deleted successfully")),
                _id: None,
                name: None,
                value: None,
                created_at: None,
                updated_at: None,
            },
        )
    } else {
        (status_of_error(ApiError::NotFound), error_envelope("Item not found"))
    }
}

} // verus!
