//! What the service answers: the decisions of the two request handlers, on
//! plain values. The transport around them is the caller's.

use crate::error::DbError;
use crate::models::Record;
use vstd::prelude::*;

verus! {

/// The status of an answer that reports a newly stored record.
pub const CREATED: u16 = 201;

/// The status of an answer that reports a failure of the store.
pub const INTERNAL_SERVER_ERROR: u16 = 500;

/// The answer to a request for all records, given what listing the store
/// came to: the records as they were listed, or, for any failure of the
/// store, a server-side failure with the error's text.
pub fn get_records_handler(outcome: Result<Vec<Record>, DbError>) -> (r: Result<
    Vec<Record>,
    (u16, String),
>)
    ensures
        match outcome {
            Ok(records) => r == Ok::<Vec<Record>, (u16, String)>(records),
            Err(e) => r is Err && r->Err_0.0 == INTERNAL_SERVER_ERROR && r->Err_0.1@
                == e.message(),
        },
{
    match outcome {
        Ok(records) => Ok(records),
        Err(e) => Err((INTERNAL_SERVER_ERROR, e.to_string())),
    }
}

/// The answer to a request that stores `payload`, given what appending it
/// came to: the record as stored, with the status of a creation, or, for
/// any failure of the store, a server-side failure with the error's text.
pub fn add_record_handler(payload: Record, outcome: Result<(), DbError>) -> (r: Result<
    (u16, Record),
    (u16, String),
>)
    ensures
        match outcome {
            Ok(_) => r == Ok::<(u16, Record), (u16, String)>((CREATED, payload)),
            Err(e) => r is Err && r->Err_0.0 == INTERNAL_SERVER_ERROR && r->Err_0.1@
                == e.message(),
        },
{
    match outcome {
        Ok(_) => Ok((CREATED, payload)),
        Err(e) => Err((INTERNAL_SERVER_ERROR, e.to_string())),
    }
}

} // verus!
