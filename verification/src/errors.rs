use vstd::prelude::*;

verus! {

/// The error surface of an aggregation run.
///
/// Only network transience is retried (by the surrounding application, under
/// a bounded policy); every variant here is fatal and aborts the run.
#[derive(Debug, Clone, PartialEq, Eq)]
pub enum ImportError {
    /// A network request failed after the retry budget was exhausted.
    RequestError { message: String },
    /// A response body could not be read.
    ResponseParseError { message: String },
    /// A response body was not the JSON shape the service promises.
    JsonParseError { message: String },
    /// A response was valid JSON but missed an expected field.
    JsonMissedDataError { field_name: String },
    /// A URL could not be parsed.
    UrlParseError { message: String },
    /// A statement failed against the backing store.
    SqlExecutionError { message: String },
    /// An expected map entry was absent: a reduction bug, not bad input.
    HashMapAccessError,
    /// The base URL cannot carry path segments.
    WrongUrlBaseError,
    /// A division by zero or an out-of-range sum in a price computation.
    ArithmeticError,
}

} // verus!
