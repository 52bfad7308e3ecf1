//! The error taxonomy of the service, and request-field validation.
use vstd::prelude::*;

verus! {

/// Every failure a request can surface. A drift between two fetches of one
/// federation's configuration is a diagnostic, not an error, and so has no
/// variant here.
#[derive(PartialEq, Eq, Structural, Clone, Copy, Debug)]
pub enum ObserverError {
    /// The remote federation was unreachable or its answer malformed.
    NetworkFetch,
    /// The top-level configuration envelope could not be decoded. A module
    /// whose kind has no decoder is not this: it degrades to raw bytes.
    Decode,
    /// The query was invalid or the datastore itself failed.
    QueryExecution,
    /// The bearer token was missing or wrong.
    Auth,
    /// The request body carries no `query` field.
    MissingQuery,
    /// The request body's `query` field is no string.
    QueryNotText,
}

/// Validate the `query` field of a request body, handed over as the
/// embedding found it: absent, present but no string, or the text itself.
pub fn extract_query(field: Option<Option<String>>) -> (r: Result<String, ObserverError>)
    ensures
        match field {
            None => r == Err::<String, ObserverError>(ObserverError::MissingQuery),
            Some(inner) => match inner {
                None => r == Err::<String, ObserverError>(ObserverError::QueryNotText),
                Some(text) => r == Ok::<String, ObserverError>(text),
            },
        },
{
    match field {
        None => Err(ObserverError::MissingQuery),
        Some(None) => Err(ObserverError::QueryNotText),
        Some(Some(text)) => Ok(text),
    }
}

} // verus!
