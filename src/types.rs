//! A scored candidate.
use vstd::prelude::*;

use crate::score::Score;

verus! {

/// A candidate item and how similar it is to the subject of a query.
#[derive(Debug)]
pub struct Recommendation<T> {
    pub item_id: T,
    pub score: Score,
}

impl<T> Recommendation<T> {
    pub fn new(item_id: T, score: Score) -> (r: Self)
        ensures
            r.item_id == item_id,
            r.score == score,
    {
        Recommendation { item_id, score }
    }
}

impl<T> From<(T, Score)> for Recommendation<T> {
    fn from(value: (T, Score)) -> (r: Self) {
        Recommendation::new(value.0, value.1)
    }
}

impl<T> vstd::std_specs::convert::FromSpecImpl<(T, Score)> for Recommendation<T> {
    open spec fn obeys_from_spec() -> bool {
        true
    }

    open spec fn from_spec(v: (T, Score)) -> Self {
        Recommendation { item_id: v.0, score: v.1 }
    }
}

} // verus!
