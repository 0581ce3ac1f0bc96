//! The failure surface of a backing store.

use crate::text::{chars_to_string, push_str};
use vstd::prelude::*;

verus! {

/// A stored item whose top-level fields can be read as text, so that a
/// store can look items up by the value of a field.
pub trait Document {
    /// The text of field `name`, or `None` where the item has no field of
    /// that name that lookups can address.
    spec fn spec_field(&self, name: Seq<char>) -> Option<Seq<char>>;

    /// The text of field `name`.
    fn field(&self, name: &str) -> (r: Option<String>)
        ensures
            match r {
                Some(text) => self.spec_field(name@) == Some(text@),
                None => self.spec_field(name@) is None,
            },
    ;
}

/// Why a store operation failed. Each variant carries the message of the
/// underlying failure.
#[derive(Debug)]
pub enum DbError {
    /// The database refused or could not be reached.
    SqlxError(String),
    /// A stored document could not be written or read back.
    SerdeError(String),
    /// The runtime failed underneath the store.
    TokioError(String),
}

/// The mathematical value of a [`DbError`].
pub enum DbErrorView {
    SqlxError(Seq<char>),
    SerdeError(Seq<char>),
    TokioError(Seq<char>),
}

impl View for DbError {
    type V = DbErrorView;

    open spec fn view(&self) -> DbErrorView {
        match self {
            DbError::SqlxError(m) => DbErrorView::SqlxError(m@),
            DbError::SerdeError(m) => DbErrorView::SerdeError(m@),
            DbError::TokioError(m) => DbErrorView::TokioError(m@),
        }
    }
}

impl DbErrorView {
    /// The text shown for this failure.
    pub open spec fn message(self) -> Seq<char> {
        match self {
            DbErrorView::SqlxError(m) => "Database error: "@ + m,
            DbErrorView::SerdeError(m) => "Serialization error: "@ + m,
            DbErrorView::TokioError(m) => "Runtime error: "@ + m,
        }
    }
}

impl DbError {
    /// The text shown for this failure.
    pub fn message(&self) -> (s: String)
        ensures
            s@ == self@.message(),
    {
        let mut out: Vec<char> = Vec::new();
        match self {
            DbError::SqlxError(m) => {
                push_str("Database error: ", &mut out);
                push_str(m.as_str(), &mut out);
            },
            DbError::SerdeError(m) => {
                push_str("Serialization error: ", &mut out);
                push_str(m.as_str(), &mut out);
            },
            DbError::TokioError(m) => {
                push_str("Runtime error: ", &mut out);
                push_str(m.as_str(), &mut out);
            },
        }
        assert(out@ =~= self@.message());
        chars_to_string(&out)
    }
}

} // verus!
