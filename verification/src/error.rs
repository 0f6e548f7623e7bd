//! The error taxonomy of the library.

use vstd::prelude::*;

verus! {

/// Everything that can go wrong in this library.
#[derive(Debug)]
pub enum Error {
    /// The filter tree contains a construct the query compiler does not cover.
    InvalidQuery,
    /// A malformed identifier encoding was encountered on decode.
    InvalidID,
    /// The underlying relational substrate reported a failure; the payload is
    /// the substrate's rendered error message.
    Sql(String),
}

impl Error {
    /// A short human-readable rendering of the error.
    pub fn message(&self) -> (r: String)
        ensures
            r@ == (match self {
                Error::InvalidQuery => "invalid query"@,
                Error::InvalidID => "invalid ID"@,
                Error::Sql(m) => m@,
            }),
    {
        match self {
            Error::InvalidQuery => "invalid query".to_owned(),
            Error::InvalidID => "invalid ID".to_owned(),
            Error::Sql(m) => m.clone(),
        }
    }
}

} // verus!
