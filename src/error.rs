//! The errors that database-facing operations return.
use vstd::prelude::*;
use tokio_postgres::Error as PgError;

verus! {

/// The client's error, carried through unchanged.
#[verifier::external_type_specification]
#[verifier::external_body]
pub struct ExPgError(PgError);

/// What a database-facing operation can fail with.
#[derive(Debug)]
pub enum Error {
    /// The client reported a failure.
    TokioPostgres(PgError),
    /// A read that needed exactly one row found none.
    NoResult,
    /// The named column was missing from a row or held a value of another type.
    Decode(String),
}

impl From<PgError> for Error {
    fn from(err: PgError) -> (r: Self)
        ensures
            r == Error::TokioPostgres(err),
    {
        Error::TokioPostgres(err)
    }
}

impl vstd::std_specs::convert::FromSpecImpl<PgError> for Error {
    open spec fn obeys_from_spec() -> bool {
        true
    }

    open spec fn from_spec(v: PgError) -> Self {
        Error::TokioPostgres(v)
    }
}

impl Error {
    /// Whether this is the error that names column `name` as undecodable.
    pub open spec fn is_decode_of(&self, name: Seq<char>) -> bool {
        match self {
            Error::Decode(n) => n@ == name,
            _ => false,
        }
    }
}

} // verus!
