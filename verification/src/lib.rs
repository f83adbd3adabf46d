//! A verified core for a small item-keeping service backed by a document
//! store: identifier parsing, payload validation, document mapping, the
//! record store's semantics, and the rules that turn outcomes into
//! responses.

pub mod ids;
pub mod records;
pub mod store;
pub mod handlers;
pub mod laws;
