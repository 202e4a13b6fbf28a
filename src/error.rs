//! The errors of queries and of index construction.
use vstd::prelude::*;

verus! {

#[verifier::external_type_specification]
#[verifier::external_body]
pub struct ExHeedError(heed::Error);

#[verifier::external_type_specification]
#[verifier::external_body]
pub struct ExArroyError(arroy::Error);

/// The setting's name, where it was never given.
pub open spec fn name_if_missing<T>(field: Option<T>, name: &'static str) -> Seq<&'static str> {
    if field is None {
        seq![name]
    } else {
        Seq::empty()
    }
}

/// Why a query produced no recommendation list.
#[derive(Debug)]
pub enum RecommendError {
    /// The storage environment could not be reached, or a transaction failed.
    DatabaseError(heed::Error),
    /// The forest index could not be searched.
    AnnoyError(arroy::Error),
    /// The subject's id cannot be converted into the backend's key type.
    IncompatibleId,
    /// The subject has no vector, or no mapping to a key that has one.
    NotFound,
}

/// A construction-time invariant that the loaded data broke.
#[derive(Debug, Clone, Copy, PartialEq, Eq, Structural)]
pub enum ValidationFailure {
    /// The provider ended after `produced` vectors, fewer than it declared.
    TooFewVectors { declared: usize, produced: usize },
    /// The provider yielded more vectors than the `declared` count.
    TooManyVectors { declared: usize },
    /// The vector at position `row` has `found` components, not `expected`.
    DimensionMismatch { row: usize, expected: usize, found: usize },
}

} // verus!
