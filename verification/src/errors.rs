//! The two error taxonomies of the protocol.
//!
//! A [`StorageError`] is raised by the server side: a retrieval with a query
//! vector whose length differs from the database size, or an insertion at an
//! index beyond the database size.  A [`QueryError`] is raised by the client
//! side: building a query for an index beyond the query size, or decoding an
//! answer whose plaintext lies outside the searched range.  Each carries a
//! human-readable cause; the exact text identifies the kind.

use vstd::prelude::*;
use vstd::string::StringExecFns;

verus! {

/// An error raised by the storage engine (the server side).
#[derive(Debug)]
pub struct StorageError {
    pub error: String,
}

/// An error raised by the query builder (the client side).
#[derive(Debug)]
pub struct QueryError {
    pub error: String,
}

/// The cause text of a storage `IndexOutOfRange` error.
pub open spec fn storage_index_out_of_range_msg() -> Seq<char> {
    "Index should not be larger than the size of the storage"@
}

/// The cause text of a storage `SizeMismatch` error.
pub open spec fn storage_size_mismatch_msg() -> Seq<char> {
    "Query vector should have the same size as the storage"@
}

/// The cause text of a query `IndexOutOfRange` error.
pub open spec fn query_index_out_of_range_msg() -> Seq<char> {
    "Index of query should not be larger than the size of the query"@
}

/// The cause text of a query `OutOfRange` decoding error.
pub open spec fn query_out_of_range_msg() -> Seq<char> {
    "Scalar is not within the searched range"@
}

impl StorageError {
    /// The `IndexOutOfRange` kind: an insertion index is at or beyond the
    /// database size.
    pub fn index_out_of_range() -> (r: StorageError)
        ensures
            r.error@ == storage_index_out_of_range_msg(),
    {
        StorageError {
            error: "Index should not be larger than the size of the storage".to_string(),
        }
    }

    /// The full cause text, prefixed as a reader of the error sees it.
    pub fn cause(&self) -> (r: String)
        ensures
            r@ == "Cause: "@ + self.error@,
    {
        let mut text = String::from_str("Cause: ");
        text.append(self.error.as_str());
        text
    }

    /// The `SizeMismatch` kind: a query vector's length differs from the
    /// database size.
    pub fn size_mismatch() -> (r: StorageError)
        ensures
            r.error@ == storage_size_mismatch_msg(),
    {
        StorageError {
            error: "Query vector should have the same size as the storage".to_string(),
        }
    }
}

impl QueryError {
    /// The `IndexOutOfRange` kind: the selector index is at or beyond the
    /// query size.
    pub fn index_out_of_range() -> (r: QueryError)
        ensures
            r.error@ == query_index_out_of_range_msg(),
    {
        QueryError {
            error: "Index of query should not be larger than the size of the query".to_string(),
        }
    }

    /// The full cause text, prefixed as a reader of the error sees it.
    pub fn cause(&self) -> (r: String)
        ensures
            r@ == "Cause: "@ + self.error@,
    {
        let mut text = String::from_str("Cause: ");
        text.append(self.error.as_str());
        text
    }

    /// The `OutOfRange` kind: the decoded plaintext matches no scalar in the
    /// searched range.
    pub fn out_of_range() -> (r: QueryError)
        ensures
            r.error@ == query_out_of_range_msg(),
    {
        QueryError {
            error: "Scalar is not within the searched range".to_string(),
        }
    }
}

} // verus!
