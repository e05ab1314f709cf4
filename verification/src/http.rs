//! HTTP status codes that the services answer with, and the rules that
//! turn the outcome of a store lookup into one.
use vstd::prelude::*;

verus! {

pub const CREATED: u16 = 201;
pub const NO_CONTENT: u16 = 204;
pub const BAD_REQUEST: u16 = 400;
pub const UNAUTHORIZED: u16 = 401;
pub const NOT_FOUND: u16 = 404;
pub const CONFLICT: u16 = 409;
pub const UNPROCESSABLE_ENTITY: u16 = 422;
pub const INTERNAL_SERVER_ERROR: u16 = 500;
pub const BAD_GATEWAY: u16 = 502;

/// The outcome of looking a record up in a store.
pub enum Fetched<T> {
    /// The store could not be asked.
    Failed,
    /// No such record.
    Absent,
    Present(T),
}

/// A lookup's record, or the status to answer with: 500 when the store
/// failed, `missing` when there is no such record.
pub fn found_or<T>(fetched: Fetched<T>, missing: u16) -> (r: Result<T, u16>)
    ensures
        match fetched {
            Fetched::Failed => r == Err::<T, u16>(INTERNAL_SERVER_ERROR),
            Fetched::Absent => r == Err::<T, u16>(missing),
            Fetched::Present(t) => r == Ok::<T, u16>(t),
        },
{
    match fetched {
        Fetched::Failed => Err(INTERNAL_SERVER_ERROR),
        Fetched::Absent => Err(missing),
        Fetched::Present(t) => Ok(t),
    }
}

/// The answer to deleting a product, from the number of rows the store
/// removed (`None` when the store failed): 500 on failure, 404 when
/// nothing was removed, 204 otherwise.
pub fn delete_status(rows_removed: Option<u64>) -> (s: u16)
    ensures
        s == match rows_removed {
            None => INTERNAL_SERVER_ERROR,
            Some(n) => if n == 0 {
                NOT_FOUND
            } else {
                NO_CONTENT
            },
        },
{
    match rows_removed {
        None => INTERNAL_SERVER_ERROR,
        Some(0) => NOT_FOUND,
        Some(_) => NO_CONTENT,
    }
}

} // verus!
