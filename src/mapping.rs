//! A decorator that maps an external key space onto the key space of
//! the recommender it wraps.
use vstd::prelude::*;

use core::marker::PhantomData;

use crate::error::RecommendError;
use crate::list::RecommendationList;
use crate::Recommender;

verus! {

/// Maps each subject key of type `K` to an internal key of type `O` and asks
/// the wrapped recommender.
#[verifier::reject_recursive_types(K)]
#[verifier::reject_recursive_types(O)]
pub struct IdMappingRecommender<M, R, K, O> where M: Fn(&K) -> Option<&O> {
    mapper: M,
    recommender: R,
    keys: PhantomData<(K, O)>,
}

impl<M, R, K, O> IdMappingRecommender<M, R, K, O> where M: Fn(&K) -> Option<&O> {
    #[verifier::type_invariant]
    spec fn mapper_total(self) -> bool {
        forall|k: &K| self.mapper.requires((k,))
    }

    /// Wraps `recommender` behind `mapper`, which must accept every key.
    pub fn new(mapper: M, recommender: R) -> (r: Self)
        requires
            forall|k: &K| mapper.requires((k,)),
        ensures
            r.mapper() == mapper,
            r.recommender() == recommender,
    {
        IdMappingRecommender { mapper, recommender, keys: PhantomData }
    }

    /// The function from external keys to internal ones.
    pub closed spec fn mapper(self) -> M {
        self.mapper
    }

    /// The wrapped recommender.
    pub closed spec fn recommender(self) -> R {
        self.recommender
    }
}

impl<M, R, K, O, Rec> Recommender<K, Rec> for IdMappingRecommender<M, R, K, O> where
    R: Recommender<O, Rec>,
    M: Fn(&K) -> Option<&O>,
 {
    /// Fails with `NotFound` where the key has no mapping; otherwise hands
    /// the mapped key to the wrapped recommender and returns its answer.
    fn recommend(&self, item_id: &K, n_items: u16) -> (r: Result<RecommendationList<Rec>, RecommendError>)
        ensures
            (forall|m: Option<&O>| #[trigger] self.mapper().ensures((item_id,), m) ==> m is None) ==> r is Err
                && r->Err_0 is NotFound,
            exists|m: Option<&O>| #[trigger]
                self.mapper().ensures((item_id,), m) && match m {
                    None => r is Err && r->Err_0 is NotFound,
                    Some(k) => call_ensures(R::recommend, (&self.recommender(), k, n_items), r),
                },
    {
        proof {
            use_type_invariant(self);
        }
        let mapped = (self.mapper)(item_id);
        assert(self.mapper().ensures((item_id,), mapped));
        match mapped {
            Some(key) => self.recommender.recommend(key, n_items),
            None => Err(RecommendError::NotFound),
        }
    }
}

} // verus!
