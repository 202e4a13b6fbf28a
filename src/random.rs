//! A randomized recommender: a stand-in backend for resilience tests.
use vstd::prelude::*;

use rand::Rng;

use crate::error::RecommendError;
use crate::list::{is_ranked, is_stable_ranking, is_stable_reordering, reversed, stable_ranking_of, RecommendationList};
use crate::score::{encodes_fraction, rank_of, Score, FRACTION_SCALE, ONE_BITS};
use crate::types::Recommendation;
use crate::Recommender;

verus! {

/// The empty rate that stands for certainty: every call fails.
pub const ALWAYS_EMPTY: u32 = FRACTION_SCALE;

/// The default empty rate: one call in five fails, to the precision of the draw.
pub const DEFAULT_EMPTY_RATE: u32 = 3_355_444;

/// Relies on `rand::Rng::gen_range` on the thread-local generator: a number
/// in `[0, bound)`. It panics on an empty range, so `bound` is positive.
#[verifier::external_body]
fn draw_below(bound: u32) -> (r: u32)
    requires
        bound > 0,
    ensures
        r < bound,
{
    rand::thread_rng().gen_range(0..bound)
}

/// Recommends `n` generated ids with random scores in `[0, 1)`, or fails with
/// `NotFound` at a given rate.
#[verifier::reject_recursive_types(Rec)]
pub struct RandomRecommender<Provider, Rec> where Provider: Fn() -> Rec {
    id_provider: Provider,
    /// The chance of failing, in units of `1 / FRACTION_SCALE`.
    empty_rate: u32,
}

impl<Provider, Rec> RandomRecommender<Provider, Rec> where Provider: Fn() -> Rec {
    #[verifier::type_invariant]
    spec fn provider_callable(self) -> bool {
        self.id_provider.requires(())
    }

    /// The generator of recommended ids.
    pub closed spec fn id_provider(self) -> Provider {
        self.id_provider
    }

    /// The chance that a call fails, in units of `1 / FRACTION_SCALE`.
    pub closed spec fn empty_rate_spec(self) -> u32 {
        self.empty_rate
    }

    /// `empty_rate` is in units of `1 / FRACTION_SCALE`: `0` never fails,
    /// `ALWAYS_EMPTY` (or more) always does.
    pub fn new(id_provider: Provider, empty_rate: u32) -> (r: Self)
        requires
            id_provider.requires(()),
        ensures
            r.empty_rate_spec() == empty_rate,
            r.id_provider() == id_provider,
    {
        RandomRecommender { id_provider, empty_rate }
    }
}

/// Why a randomized recommender could not be built.
#[derive(Debug)]
pub enum RandomRecommenderBuilderError {
    /// Every setting that was never given.
    UninitializedFields(Vec<&'static str>),
}

/// Collects the settings of a randomized recommender.
#[verifier::reject_recursive_types(Rec)]
pub struct RandomRecommenderBuilder<Provider, Rec> where Provider: Fn() -> Rec {
    pub id_provider: Option<Provider>,
    /// Defaults to `DEFAULT_EMPTY_RATE`.
    pub empty_rate: Option<u32>,
}

impl<Provider, Rec> RandomRecommender<Provider, Rec> where Provider: Fn() -> Rec {
    /// A builder with no setting given.
    pub fn builder() -> (r: RandomRecommenderBuilder<Provider, Rec>)
        ensures
            r.id_provider is None,
            r.empty_rate is None,
    {
        RandomRecommenderBuilder { id_provider: None, empty_rate: None }
    }
}

impl<Provider, Rec> RandomRecommenderBuilder<Provider, Rec> where Provider: Fn() -> Rec {
    /// Sets the generator of recommended ids.
    pub fn id_provider(self, id_provider: Provider) -> (r: Self)
        ensures
            r.id_provider == Some(id_provider),
            r.empty_rate == self.empty_rate,
    {
        RandomRecommenderBuilder { id_provider: Some(id_provider), empty_rate: self.empty_rate }
    }

    /// Sets the chance of failing, in units of `1 / FRACTION_SCALE`.
    pub fn empty_rate(self, empty_rate: u32) -> (r: Self)
        ensures
            r.empty_rate == Some(empty_rate),
            r.id_provider == self.id_provider,
    {
        RandomRecommenderBuilder { id_provider: self.id_provider, empty_rate: Some(empty_rate) }
    }

    /// The recommender, where the id generator was given.
    pub fn build(self) -> (r: Result<RandomRecommender<Provider, Rec>, RandomRecommenderBuilderError>)
        requires
            self.id_provider is Some ==> self.id_provider->Some_0.requires(()),
        ensures
            self.id_provider is None ==> r is Err && r->Err_0->UninitializedFields_0@ == seq!["id_provider"],
            self.id_provider is Some ==> r is Ok && r->Ok_0.id_provider() == self.id_provider->Some_0,
            self.id_provider is Some ==> r is Ok && r->Ok_0.empty_rate_spec() == match self.empty_rate {
                Some(rate) => rate,
                None => DEFAULT_EMPTY_RATE,
            },
    {
        let empty_rate = match self.empty_rate {
            Some(rate) => rate,
            None => DEFAULT_EMPTY_RATE,
        };
        match self.id_provider {
            Some(id_provider) => Ok(RandomRecommender::new(id_provider, empty_rate)),
            None => Err(RandomRecommenderBuilderError::UninitializedFields(vec!["id_provider"])),
        }
    }
}

impl<Provider, Key, Rec> Recommender<Key, Rec> for RandomRecommender<Provider, Rec> where Provider: Fn() -> Rec {
    /// Fails with `NotFound` with chance `empty_rate / FRACTION_SCALE`, and
    /// otherwise returns `n_items` generated ids ranked by random score.
    fn recommend(&self, _subject_id: &Key, n_items: u16) -> (r: Result<RecommendationList<Rec>, RecommendError>)
        ensures
            self.empty_rate_spec() >= ALWAYS_EMPTY ==> r is Err,
            r is Err ==> r->Err_0 is NotFound,
            self.empty_rate_spec() == 0 ==> r is Ok,
            exists|failure_draw: u32|
                failure_draw < FRACTION_SCALE && (r is Err <==> #[trigger] draw_fails(self.empty_rate_spec(), failure_draw)),
            r is Ok ==> {
                &&& r->Ok_0.0@.len() == n_items
                &&& is_ranked(r->Ok_0.0@)
                &&& forall|i: int| 0 <= i < n_items ==> 0 <= #[trigger] r->Ok_0.0@[i].score.rank() < rank_of(ONE_BITS)
                &&& forall|i: int| 0 <= i < n_items ==> self.id_provider().ensures((), #[trigger] r->Ok_0.0@[i].item_id)
            },
    {
        proof {
            use_type_invariant(self);
        }
        let failure_draw = draw_below(FRACTION_SCALE);
        if failure_draw < self.empty_rate {
            let r = outcome_of_draws(self.empty_rate, failure_draw, Vec::new(), Vec::new());
            assert(draw_fails(self.empty_rate_spec(), failure_draw));
            return r;
        }
        assert(!draw_fails(self.empty_rate_spec(), failure_draw));
        let mut ids: Vec<Rec> = Vec::new();
        let mut score_draws: Vec<u32> = Vec::new();
        let mut i: u16 = 0;
        while i < n_items
            invariant
                i <= n_items,
                ids@.len() == i,
                score_draws@.len() == i,
                self.id_provider.requires(()),
                forall|t: int| 0 <= t < i ==> #[trigger] score_draws@[t] < FRACTION_SCALE,
                forall|t: int| 0 <= t < i ==> self.id_provider.ensures((), #[trigger] ids@[t]),
            decreases n_items - i,
        {
            ids.push((self.id_provider)());
            score_draws.push(draw_below(FRACTION_SCALE));
            i = i + 1;
        }
        let ghost generated = ids@;
        let ghost drawn = score_draws@;
        let r = outcome_of_draws(self.empty_rate, failure_draw, ids, score_draws);
        proof {
            assert(self.id_provider() == self.id_provider);
            if r is Ok {
                let scores = choose|scores: Seq<Score>| is_ranking_of_draws(generated, drawn, scores, r->Ok_0.0@);
                let input = paired(generated, scores);
                let p = choose|p: Seq<int>| is_stable_reordering(input, r->Ok_0.0@, p);
                assert forall|t: int| 0 <= t < n_items implies 0 <= #[trigger] r->Ok_0.0@[t].score.rank() < rank_of(
                    ONE_BITS,
                ) by {
                    assert(r->Ok_0.0@[t] == input[p[t]]);
                };
                assert forall|t: int| 0 <= t < n_items implies self.id_provider().ensures(
                    (),
                    #[trigger] r->Ok_0.0@[t].item_id,
                ) by {
                    assert(r->Ok_0.0@[t] == input[p[t]]);
                    assert(input[p[t]].item_id == generated[p[t]]);
                    assert(self.id_provider.ensures((), generated[p[t]]));
                };
            }
        }
        r
    }
}

/// A failure draw that falls below the empty rate fails the call.
pub open spec fn draw_fails(empty_rate: u32, failure_draw: u32) -> bool {
    failure_draw < empty_rate
}

/// The recommendations that pair each id with the score at its position.
pub open spec fn paired<Rec>(ids: Seq<Rec>, scores: Seq<Score>) -> Seq<Recommendation<Rec>> {
    Seq::new(ids.len(), |i: int| Recommendation { item_id: ids[i], score: scores[i] })
}

/// `scores` are the scores of the draws, and `out` ranks the ids paired with
/// them by descending score, ties in draw order.
pub open spec fn is_ranking_of_draws<Rec>(
    ids: Seq<Rec>,
    score_draws: Seq<u32>,
    scores: Seq<Score>,
    out: Seq<Recommendation<Rec>>,
) -> bool {
    &&& scores.len() == ids.len()
    &&& forall|t: int| 0 <= t < scores.len() ==> encodes_fraction(#[trigger] scores[t].bits, score_draws[t] as nat)
    &&& forall|t: int| 0 <= t < scores.len() ==> 0 <= #[trigger] scores[t].rank() < rank_of(ONE_BITS)
    &&& is_stable_ranking(paired(ids, scores), out)
    &&& out == stable_ranking_of(paired(ids, scores))
}

/// The answer of a randomized recommender for given draws: `NotFound` where
/// the failure draw falls below the empty rate; otherwise each id with the
/// score `m / FRACTION_SCALE` of its draw `m`, ranked by descending score.
pub fn outcome_of_draws<Rec>(empty_rate: u32, failure_draw: u32, ids: Vec<Rec>, score_draws: Vec<u32>) -> (r: Result<
    RecommendationList<Rec>,
    RecommendError,
>)
    requires
        ids@.len() == score_draws@.len(),
        forall|t: int| 0 <= t < score_draws@.len() ==> #[trigger] score_draws@[t] < FRACTION_SCALE,
    ensures
        r is Err <==> draw_fails(empty_rate, failure_draw),
        r is Err ==> r->Err_0 is NotFound,
        r is Ok ==> exists|scores: Seq<Score>| #[trigger] is_ranking_of_draws(ids@, score_draws@, scores, r->Ok_0.0@),
{
    if failure_draw < empty_rate {
        return Err(RecommendError::NotFound);
    }
    let ghost input = ids@;
    let n = ids.len();
    let mut rest = reversed(ids);
    let mut recs: Vec<Recommendation<Rec>> = Vec::new();
    let ghost mut scores: Seq<Score> = Seq::empty();
    let mut i: usize = 0;
    while i < n
        invariant
            n == input.len(),
            input == ids@,
            n == score_draws@.len(),
            i + rest@.len() == n,
            forall|t: int| 0 <= t < n ==> #[trigger] score_draws@[t] < FRACTION_SCALE,
            forall|t: int| 0 <= t < rest@.len() ==> #[trigger] rest@[t] == input[n - 1 - t],
            scores.len() == i,
            forall|t: int| 0 <= t < i ==> encodes_fraction(#[trigger] scores[t].bits, score_draws@[t] as nat),
            forall|t: int| 0 <= t < i ==> 0 <= #[trigger] scores[t].rank() < rank_of(ONE_BITS),
            recs@ == paired(input.take(i as int), scores),
        decreases n - i,
    {
        let id = rest.pop().unwrap();
        let score = Score::from_fraction(score_draws[i]);
        recs.push(Recommendation::new(id, score));
        proof {
            scores = scores.push(score);
        }
        i = i + 1;
        assert(recs@ =~= paired(input.take(i as int), scores));
    }
    assert(input.take(n as int) =~= input);
    let list = RecommendationList::new_with_sort(recs);
    assert(is_ranking_of_draws(input, score_draws@, scores, list.0@));
    let r: Result<RecommendationList<Rec>, RecommendError> = Ok(list);
    assert(is_ranking_of_draws(ids@, score_draws@, scores, r->Ok_0.0@));
    assert(exists|scores: Seq<Score>| #[trigger] is_ranking_of_draws(ids@, score_draws@, scores, r->Ok_0.0@));
    r
}

} // verus!
