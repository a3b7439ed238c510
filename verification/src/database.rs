//! The records kept in the `requests` table and the errors of the database
//! layer.

use vstd::prelude::*;

verus! {

/// One row of the `requests` table.
pub struct Request {
    pub id: i32,
    pub generated_value: i32,
    pub response_body: String,
}

impl Clone for Request {
    fn clone(&self) -> (copy: Self)
        ensures
            copy == *self,
    {
        Request {
            id: self.id,
            generated_value: self.generated_value,
            response_body: self.response_body.clone(),
        }
    }
}

/// What went wrong when the database was asked for something.
#[derive(Debug, Clone, Copy, PartialEq, Eq, Structural)]
pub enum DatabaseError {
    ConnectionError,
    QueryError,
    NotFound,
}

/// The kinds of failure the SQL driver reports that the database layer tells apart.
#[derive(Debug, Clone, Copy, PartialEq, Eq, Structural)]
pub enum SqlErrorKind {
    /// The query returned no row where one was expected.
    RowNotFound,
    /// No connection became free in time.
    PoolTimedOut,
    /// Any other failure.
    Other,
}

/// The database error that a driver failure is reported as.
pub open spec fn database_error_for(kind: SqlErrorKind) -> DatabaseError {
    match kind {
        SqlErrorKind::RowNotFound => DatabaseError::NotFound,
        SqlErrorKind::PoolTimedOut => DatabaseError::ConnectionError,
        SqlErrorKind::Other => DatabaseError::QueryError,
    }
}

impl From<SqlErrorKind> for DatabaseError {
    fn from(kind: SqlErrorKind) -> (error: Self) {
        match kind {
            SqlErrorKind::RowNotFound => DatabaseError::NotFound,
            SqlErrorKind::PoolTimedOut => DatabaseError::ConnectionError,
            SqlErrorKind::Other => DatabaseError::QueryError,
        }
    }
}

impl vstd::std_specs::convert::FromSpecImpl<SqlErrorKind> for DatabaseError {
    open spec fn obeys_from_spec() -> bool {
        true
    }

    open spec fn from_spec(kind: SqlErrorKind) -> Self {
        database_error_for(kind)
    }
}

/// The outcome of a database call as the database layer reports it: the value
/// when the driver succeeded, the matching database error otherwise.
pub fn query_outcome<T>(result: Result<T, SqlErrorKind>) -> (outcome: Result<T, DatabaseError>)
    ensures
        match result {
            Ok(v) => outcome matches Ok(w) && w == v,
            Err(kind) => outcome == Err::<T, DatabaseError>(database_error_for(kind)),
        },
{
    match result {
        Ok(v) => Ok(v),
        Err(kind) => Err(DatabaseError::from(kind)),
    }
}

} // verus!
