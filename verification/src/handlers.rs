//! The request handlers: each translates an already-parsed request body into
//! one shared-store call and produces a status code with a literal body.
//! Parsing and routing stay outside the library; a handler is total and has
//! no failure path of its own.

use vstd::prelude::*;

use crate::registry::Entry;
use crate::registry::unique_names;
use crate::store::Store;

verus! {

/// A parsed create/update body: a name with its new quantity.
pub struct Item {
    pub name: String,
    pub quantity: i32,
}

/// A parsed delete body: the name to remove.
pub struct Id {
    pub name: String,
}

/// Status of a successful create or update.
pub const STATUS_CREATED: u16 = 201;

/// Status of a successful read or delete.
pub const STATUS_OK: u16 = 200;

/// A request whose body failed shape validation before reaching a handler.
pub const STATUS_BAD_REQUEST: u16 = 400;

/// A request whose body exceeded the size ceiling.
pub const STATUS_PAYLOAD_TOO_LARGE: u16 = 413;

/// A request that matched no route or method.
pub const STATUS_NOT_FOUND: u16 = 404;

/// The ceiling on accepted request-body sizes, in bytes.
pub const BODY_SIZE_LIMIT: u64 = 16384;

/// The acceptance rule of the body filters: a body is taken exactly when its
/// length is within the ceiling.
pub fn body_within_limit(len: u64) -> (r: bool)
    ensures
        r == (len <= BODY_SIZE_LIMIT),
{
    len <= BODY_SIZE_LIMIT
}

/// The ways a request fails before its handler runs. Handlers themselves
/// cannot fail; every error is one of these, raised at the parsing or
/// routing boundary.
pub enum ClientError {
    /// The body did not parse into the operation's expected shape.
    MalformedBody,
    /// The body exceeded the size ceiling.
    OversizedBody,
    /// No route or method matched.
    UnknownRoute,
}

/// The status a client error surfaces as.
pub open spec fn client_error_status_spec(e: ClientError) -> u16 {
    match e {
        ClientError::MalformedBody => 400,
        ClientError::OversizedBody => 413,
        ClientError::UnknownRoute => 404,
    }
}

/// Map a client error to its status code.
pub fn client_error_status(e: &ClientError) -> (r: u16)
    ensures
        r == client_error_status_spec(*e),
{
    match e {
        ClientError::MalformedBody => STATUS_BAD_REQUEST,
        ClientError::OversizedBody => STATUS_PAYLOAD_TOO_LARGE,
        ClientError::UnknownRoute => STATUS_NOT_FOUND,
    }
}

/// Create or update: upsert the item into the shared registry. One handler
/// serves both the create and the explicit-update routes, and both report
/// 201 whether the name was new or overwritten.
pub fn update_grocery_list(item: Item, store: &Store) -> (r: (u16, &'static str))
    ensures
        r.0 == STATUS_CREATED,
        r.1@ == "Added items to the grocery list"@,
{
    store.set(item.name, item.quantity);
    (STATUS_CREATED, "Added items to the grocery list")
}

/// Delete: remove the named entry from the shared registry. Reports 200
/// whether or not the name was present (deletion is idempotent).
pub fn delete_grocery_list_item(id: Id, store: &Store) -> (r: (u16, &'static str))
    ensures
        r.0 == STATUS_OK,
        r.1@ == "Removed item from grocery list"@,
{
    store.remove(&id.name);
    (STATUS_OK, "Removed item from grocery list")
}

/// List: a full snapshot of the shared registry, reported with 200. The
/// snapshot is one consistent registry value with pairwise-distinct names,
/// ready to be serialized as an object keyed by name.
pub fn get_grocery_list(store: &Store) -> (r: (u16, Vec<Entry>))
    ensures
        r.0 == STATUS_OK,
        unique_names(r.1@),
{
    (STATUS_OK, store.snapshot())
}

} // verus!
