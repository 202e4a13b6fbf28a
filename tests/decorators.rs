use std::collections::HashMap;

use recommender::error::RecommendError;
use recommender::list::RecommendationList;
use recommender::mapping::IdMappingRecommender;
use recommender::random::{outcome_of_draws, RandomRecommender, RandomRecommenderBuilderError, ALWAYS_EMPTY, DEFAULT_EMPTY_RATE};
use recommender::score::Score;
use recommender::types::Recommendation;
use recommender::Recommender;

/// Answers every subject with the same two items.
struct Fixed;

impl Recommender<usize, usize> for Fixed {
    fn recommend(&self, item_id: &usize, n_items: u16) -> Result<RecommendationList<usize>, RecommendError> {
        let candidates = vec![
            Recommendation::new(100, Score::from_bits(0.5f32.to_bits())),
            Recommendation::new(*item_id, Score::from_bits(1.0f32.to_bits())),
            Recommendation::new(200, Score::from_bits(0.75f32.to_bits())),
        ];
        Ok(RecommendationList::assemble(item_id, candidates, n_items))
    }
}

#[test]
fn unknown_external_key_is_not_found() {
    let table: &'static HashMap<String, usize> = Box::leak(Box::new(HashMap::from([("a".to_string(), 1)])));
    let mapped = IdMappingRecommender::new(|k: &String| table.get(k), Fixed);
    assert!(matches!(mapped.recommend(&"zzz".to_string(), 5), Err(RecommendError::NotFound)));
    assert!(Fixed.recommend(&0, 5).is_ok());
}

#[test]
fn known_external_key_delegates() {
    let table: &'static HashMap<String, usize> = Box::leak(Box::new(HashMap::from([("a".to_string(), 1)])));
    let mapped = IdMappingRecommender::new(|k: &String| table.get(k), Fixed);
    let list = mapped.recommend(&"a".to_string(), 5).unwrap();
    let ids: Vec<usize> = list.0.iter().map(|r| r.item_id).collect();
    assert_eq!(ids, vec![200, 100]);
}

#[test]
fn always_empty_rate_always_fails() {
    let random = RandomRecommender::new(|| 7usize, ALWAYS_EMPTY);
    for _ in 0..50 {
        assert!(matches!(random.recommend(&0u8, 4), Err(RecommendError::NotFound)));
    }
}

#[test]
fn zero_rate_returns_n_ranked_scores_below_one() {
    let random = RandomRecommender::new(|| 7usize, 0);
    for n in [0u16, 1, 5, 40] {
        let list = random.recommend(&0u8, n).unwrap();
        assert_eq!(list.len(), n as usize);
        let scores: Vec<f32> = list.0.iter().map(|r| f32::from_bits(r.score.bits)).collect();
        for s in &scores {
            assert!(*s >= 0.0 && *s < 1.0);
        }
        for pair in scores.windows(2) {
            assert!(pair[0] >= pair[1]);
        }
        assert!(list.0.iter().all(|r| r.item_id == 7));
    }
}

#[test]
fn random_scores_vary() {
    let random = RandomRecommender::new(|| 1usize, 0);
    let list = random.recommend(&0u8, 40).unwrap();
    let first = list.0[0].score;
    assert!(list.0.iter().any(|r| r.score != first));
}

#[test]
fn random_builder_needs_an_id_provider() {
    let missing = RandomRecommender::<fn() -> u8, u8>::builder().empty_rate(0).build();
    match missing {
        Err(RandomRecommenderBuilderError::UninitializedFields(names)) => assert_eq!(names, vec!["id_provider"]),
        _ => panic!("a builder without an id provider must fail"),
    }
    let never_empty = RandomRecommender::builder().id_provider(|| 3u8).empty_rate(0).build().ok().unwrap();
    assert_eq!(never_empty.recommend(&1u8, 3).ok().unwrap().len(), 3);
    let always_empty = RandomRecommender::builder().id_provider(|| 3u8).empty_rate(ALWAYS_EMPTY).build().ok().unwrap();
    assert!(matches!(always_empty.recommend(&1u8, 3), Err(RecommendError::NotFound)));
    assert!(RandomRecommender::builder().id_provider(|| 3u8).build().is_ok());
    assert_eq!(DEFAULT_EMPTY_RATE, 3_355_444);
}

#[test]
fn draws_decide_failure_and_ranking() {
    assert!(matches!(outcome_of_draws(100, 99, vec![1u8], vec![5]), Err(RecommendError::NotFound)));
    let list = outcome_of_draws(100, 100, vec![1u8, 2, 3, 4], vec![10, 8_388_608, 10, 0]).unwrap();
    let ids: Vec<u8> = list.0.iter().map(|r| r.item_id).collect();
    assert_eq!(ids, vec![2, 1, 3, 4]);
    assert_eq!(f32::from_bits(list.0[0].score.bits), 0.5);
    assert_eq!(list.0[1].score.bits, (10.0f32 / 16_777_216.0).to_bits());
    assert_eq!(list.0[3].score.bits, 0);
    assert!(outcome_of_draws::<u8>(0, 0, vec![], vec![]).unwrap().0.is_empty());
}
