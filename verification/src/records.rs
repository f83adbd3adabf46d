//! The data model: inbound payloads, the persisted record, the outbound
//! response envelope, and the document mapper that connects them.

use vstd::prelude::*;
use crate::ids::ObjectId;

verus! {

/// Error taxonomy. Every failure a handler can report is one of these;
/// each maps to exactly one HTTP status class.
#[derive(Debug, Clone, Copy, PartialEq, Eq, Structural)]
pub enum ApiError {
    /// Malformed or missing inbound field; the caller's fault.
    ValidationError,
    /// Malformed identifier string.
    InvalidIdentifier,
    /// Well-formed identifier, no matching record.
    NotFound,
    /// The store could not be reached.
    StoreUnavailable,
    /// The store refused the operation.
    StoreRejected,
}

/// Compact outbound view of a record's user-visible fields.
#[derive(Debug)]
pub struct Info {
    pub name: String,
    pub value: i32,
    pub created_at: i64,
    pub updated_at: i64,
}

/// Inbound payload for create and update: untrusted until validated.
#[derive(Debug)]
pub struct Payload {
    pub name: String,
    pub value: i32,
}

/// Inbound delete request carrying the external identifier string.
#[derive(Debug)]
pub struct Delete {
    pub id: String,
}

/// Inbound update request carrying the external identifier string and the
/// replacement fields.
#[derive(Debug)]
pub struct Update {
    pub id: String,
    pub name: String,
    pub value: i32,
}

/// Connection coordinates for the store, built once at startup.
#[derive(Debug)]
pub struct Database {
    pub host: String,
    pub port: u16,
}

/// The persisted record. The identifier is absent until the store assigns
/// one at insertion and never changes afterwards.
#[derive(Debug)]
pub struct Item {
    pub id: Option<ObjectId>,
    pub name: String,
    pub value: i32,
    pub created_at: i64,
    pub updated_at: i64,
}

/// Mathematical view of a record.
pub ghost struct ItemV {
    pub id: Option<Seq<u8>>,
    pub name: Seq<char>,
    pub value: i32,
    pub created_at: i64,
    pub updated_at: i64,
}

impl View for Item {
    type V = ItemV;

    open spec fn view(&self) -> ItemV {
        ItemV {
            id: match self.id {
                Some(oid) => Some(oid@),
                None => None,
            },
            name: self.name@,
            value: self.value,
            created_at: self.created_at,
            updated_at: self.updated_at,
        }
    }
}

impl ItemV {
    /// A record as the store keeps it: identifier assigned and well-formed,
    /// name non-empty, update time never before creation time.
    pub open spec fn wf(self) -> bool {
        &&& self.id is Some
        &&& self.id->0.len() == crate::ids::OID_BYTE_LEN
        &&& self.name.len() > 0
        &&& self.created_at <= self.updated_at
    }
}

/// The uniform response envelope: an error flag, a message on failure, and
/// the record's fields on success.
#[derive(Debug)]
pub struct Response {
    pub error: bool,
    pub message: Option<String>,
    pub _id: Option<ObjectId>,
    pub name: Option<String>,
    pub value: Option<i32>,
    pub created_at: Option<i64>,
    pub updated_at: Option<i64>,
}

/// A payload is valid exactly when its name is non-empty.
pub open spec fn payload_valid(p: &Payload) -> bool {
    p.name@.len() > 0
}

/// Check an inbound payload. True exactly when the required name field is
/// present and non-empty.
pub fn validate_payload(p: &Payload) -> (r: bool)
    ensures
        r == payload_valid(p),
{
    !p.name.as_str().is_empty()
}

/// A fresh copy of a string with the same characters.
pub fn clone_string(s: &String) -> (r: String)
    ensures
        r@ == s@,
{
    s.as_str().to_owned()
}

/// A fresh copy of a record with the same view.
pub fn clone_item(it: &Item) -> (r: Item)
    ensures
        r@ == it@,
{
    let id = match &it.id {
        Some(oid) => Some(oid.clone_id()),
        None => None,
    };
    Item {
        id,
        name: clone_string(&it.name),
        value: it.value,
        created_at: it.created_at,
        updated_at: it.updated_at,
    }
}

/// Map a validated payload to a new record: no identifier yet, both
/// timestamps set to `now`. Rejects an invalid payload before it can reach
/// the store.
pub fn to_record(p: &Payload, now: i64) -> (r: Result<Item, ApiError>)
    ensures
        r is Ok <==> payload_valid(p),
        r is Err ==> r->Err_0 == ApiError::ValidationError,
        r is Ok ==> {
            let it = r->Ok_0;
            &&& it.id is None
            &&& it.name@ == p.name@
            &&& it.value == p.value
            &&& it.created_at == now
            &&& it.updated_at == now
        },
{
    if !validate_payload(p) {
        return Err(ApiError::ValidationError);
    }
    Ok(
        Item {
            id: None,
            name: clone_string(&p.name),
            value: p.value,
            created_at: now,
            updated_at: now,
        },
    )
}

/// Map an existing record and a validated payload to the updated record:
/// name and value replaced, update time set to `now`, identifier and
/// creation time untouched.
pub fn apply_update(existing: &Item, p: &Payload, now: i64) -> (r: Item)
    requires
        payload_valid(p),
    ensures
        r@.id == existing@.id,
        r.name@ == p.name@,
        r.value == p.value,
        r.created_at == existing.created_at,
        r.updated_at == now,
{
    let id = match &existing.id {
        Some(oid) => Some(oid.clone_id()),
        None => None,
    };
    Item {
        id,
        name: clone_string(&p.name),
        value: p.value,
        created_at: existing.created_at,
        updated_at: now,
    }
}

/// Map a record to the compact outbound view of its user-visible fields.
pub fn to_info(it: &Item) -> (r: Info)
    ensures
        r.name@ == it.name@,
        r.value == it.value,
        r.created_at == it.created_at,
        r.updated_at == it.updated_at,
{
    Info {
        name: clone_string(&it.name),
        value: it.value,
        created_at: it.created_at,
        updated_at: it.updated_at,
    }
}

/// The envelope for a successful operation: error flag down, no message,
/// every field taken from the record.
pub fn success_envelope(it: &Item) -> (r: Response)
    ensures
        r.error == false,
        r.message is None,
        r._id is Some <==> it.id is Some,
        r._id is Some ==> r._id->0@ == it.id->0@,
        r.name is Some && r.name->0@ == it.name@,
        r.value == Some(it.value),
        r.created_at == Some(it.created_at),
        r.updated_at == Some(it.updated_at),
{
    let id = match &it.id {
        Some(oid) => Some(oid.clone_id()),
        None => None,
    };
    Response {
        error: false,
        message: None,
        _id: id,
        name: Some(clone_string(&it.name)),
        value: Some(it.value),
        created_at: Some(it.created_at),
        updated_at: Some(it.updated_at),
    }
}

/// The envelope for a failed operation: error flag up, a human-readable
/// message, every data field absent.
pub fn error_envelope(message: &str) -> (r: Response)
    ensures
        r.error == true,
        r.message is Some && r.message->0@ == message@,
        r._id is None,
        r.name is None,
        r.value is None,
        r.created_at is None,
        r.updated_at is None,
{
    Response {
        error: true,
        message: Some(message.to_owned()),
        _id: None,
        name: None,
        value: None,
        created_at: None,
        updated_at: None,
    }
}

} // verus!
