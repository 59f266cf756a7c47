//! The failure values that helper operations return.
//!
//! All failures here are deterministic structural errors: a helper that
//! required one node kind and received another, or a list entry of the
//! wrong arity.  Every failure keeps the tag of the node it refused, so a
//! caller can render a diagnostic naming the offending construct.

use vstd::prelude::*;
use vstd::string::StringExecFns;

verus! {

/// Model of an [`Error`].
#[verifier::ext_equal]
pub enum ErrorModel {
    TypeMismatch { expected: Seq<char>, actual: Seq<char> },
    ArityMismatch { found: int },
    Unimplemented { description: Seq<char> },
}

/// A recoverable structural failure.
#[derive(Debug)]
pub enum Error {
    /// A helper required a specific variant and received another; the
    /// fields carry the kind that was required and the kind of the node
    /// that arrived.
    TypeMismatch { expected: String, actual: String },
    /// A list helper required each entry to hold exactly one element and
    /// found `found` elements instead.
    ArityMismatch { found: usize },
    /// A `Todo` node reached a point that requires a concrete value.
    Unimplemented { description: String },
}

impl View for Error {
    type V = ErrorModel;

    open spec fn view(&self) -> ErrorModel {
        match self {
            Error::TypeMismatch { expected, actual } => ErrorModel::TypeMismatch {
                expected: expected@,
                actual: actual@,
            },
            Error::ArityMismatch { found } => ErrorModel::ArityMismatch { found: *found as int },
            Error::Unimplemented { description } => ErrorModel::Unimplemented {
                description: description@,
            },
        }
    }
}

/// The diagnostic text of a failure; a mismatch names the kind of the
/// node that was actually received.
pub open spec fn message_of(e: ErrorModel) -> Seq<char> {
    match e {
        ErrorModel::TypeMismatch { expected, actual } => "expected "@ + expected + ", got "@
            + actual,
        ErrorModel::ArityMismatch { found: _ } => "expected exactly one element"@,
        ErrorModel::Unimplemented { description } => "not implemented: "@ + description,
    }
}

impl Error {
    /// Renders the failure for diagnostics.
    pub fn message(&self) -> (r: String)
        ensures
            r@ == message_of(self@),
    {
        match self {
            Error::TypeMismatch { expected, actual } => {
                let r = String::from_str("expected ").concat(expected.as_str()).concat(
                    ", got ",
                ).concat(actual.as_str());
                assert(r@ =~= message_of(self@));
                r
            },
            Error::ArityMismatch { found: _ } => String::from_str(
                "expected exactly one element",
            ),
            Error::Unimplemented { description } => {
                let r = String::from_str("not implemented: ").concat(description.as_str());
                assert(r@ =~= message_of(self@));
                r
            },
        }
    }
}

} // verus!
