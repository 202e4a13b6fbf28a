//! A backend-agnostic nearest-neighbour recommendation layer.
use vstd::prelude::*;

pub mod annoy_recommender;
pub mod cache;
pub mod error;
pub mod hnsw_recommender;
pub mod list;
pub mod mapping;
pub mod random;
pub mod row_index;
pub mod score;
pub mod types;
pub mod vectors;

use crate::error::RecommendError;
use crate::list::{is_ranked, RecommendationList};

verus! {

/// Anything that answers "which items are most like this one?".
pub trait Recommender<K, R> {
    /// At most `n_items` recommendations for `item_id`, best first.
    fn recommend(&self, item_id: &K, n_items: u16) -> (r: Result<RecommendationList<R>, RecommendError>)
        ensures
            r is Ok ==> is_ranked(r->Ok_0.0@) && r->Ok_0.0@.len() <= n_items,
    ;
}

} // verus!
