//! The failures of reading the history database.

use vstd::prelude::*;

verus! {

#[verifier::external_type_specification]
#[verifier::external_body]
pub struct ExSqliteError(rusqlite::Error);

#[verifier::external_type_specification]
#[verifier::external_body]
pub struct ExIoError(std::io::Error);

/// A failure of the database, or of the file system around it.
#[derive(Debug)]
pub enum BrowserHistError {
    Rus(rusqlite::Error),
    Io(std::io::Error),
}

impl From<std::io::Error> for BrowserHistError {
    fn from(err: std::io::Error) -> (r: Self)
        ensures
            r == BrowserHistError::Io(err),
    {
        BrowserHistError::Io(err)
    }
}

impl vstd::std_specs::convert::FromSpecImpl<std::io::Error> for BrowserHistError {
    open spec fn obeys_from_spec() -> bool {
        true
    }

    open spec fn from_spec(err: std::io::Error) -> BrowserHistError {
        BrowserHistError::Io(err)
    }
}

impl From<rusqlite::Error> for BrowserHistError {
    fn from(err: rusqlite::Error) -> (r: Self)
        ensures
            r == BrowserHistError::Rus(err),
    {
        BrowserHistError::Rus(err)
    }
}

impl vstd::std_specs::convert::FromSpecImpl<rusqlite::Error> for BrowserHistError {
    open spec fn obeys_from_spec() -> bool {
        true
    }

    open spec fn from_spec(err: rusqlite::Error) -> BrowserHistError {
        BrowserHistError::Rus(err)
    }
}

} // verus!
