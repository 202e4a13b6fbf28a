use recommender::annoy_recommender::{forest_key, stored_subject};
use recommender::cache::KeyedVectorCache;
use recommender::error::{RecommendError, ValidationFailure};
use recommender::vectors::{validate_vectors, KeyedVector, VectorProvider};

fn bits(v: &[f32]) -> Vec<u32> {
    v.iter().map(|x| x.to_bits()).collect()
}

fn kv(key: usize, v: &[f32]) -> KeyedVector<usize> {
    KeyedVector::new(key, bits(v))
}

struct ListProvider {
    declared: usize,
    dimensions: u16,
    items: std::vec::IntoIter<KeyedVector<usize>>,
    pulled: usize,
}

impl ListProvider {
    fn new(declared: usize, dimensions: u16, items: Vec<KeyedVector<usize>>) -> Self {
        ListProvider { declared, dimensions, items: items.into_iter(), pulled: 0 }
    }
}

impl Iterator for ListProvider {
    type Item = KeyedVector<usize>;

    fn next(&mut self) -> Option<KeyedVector<usize>> {
        self.pulled += 1;
        self.items.next()
    }
}

impl VectorProvider<usize> for ListProvider {
    fn length(&self) -> usize {
        self.declared
    }

    fn vector_dimensions(&self) -> u16 {
        self.dimensions
    }
}

/// Yields the same vector forever.
struct EndlessProvider;

impl Iterator for EndlessProvider {
    type Item = KeyedVector<usize>;

    fn next(&mut self) -> Option<KeyedVector<usize>> {
        Some(kv(1, &[0.0]))
    }
}

impl VectorProvider<usize> for EndlessProvider {
    fn length(&self) -> usize {
        4
    }

    fn vector_dimensions(&self) -> u16 {
        1
    }
}

#[test]
fn cache_returns_each_vector_by_key() {
    let items = vec![kv(1, &[1.0, 0.0]), kv(2, &[0.0, 1.0]), kv(3, &[1.0, 1.0])];
    let ctx = KeyedVectorCache::from_keyed_vectors(3, 2, items).unwrap();
    assert_eq!(ctx.cache.n_rows(), 3);
    assert_eq!(ctx.cache.dimensions(), 2);
    assert_eq!(ctx.insertion_order, vec![1, 2, 3]);
    assert_eq!(ctx.cache.get_vector(&1), Some(bits(&[1.0, 0.0])));
    assert_eq!(ctx.cache.get_vector(&2), Some(bits(&[0.0, 1.0])));
    assert_eq!(ctx.cache.get_vector(&3), Some(bits(&[1.0, 1.0])));
    assert_eq!(ctx.cache.get_vector(&4), None);
    assert_eq!(ctx.cache.row(2), bits(&[1.0, 1.0]));
}

#[test]
fn repeated_key_resolves_to_its_last_vector() {
    let items = vec![kv(7, &[1.0]), kv(8, &[2.0]), kv(7, &[3.0])];
    let ctx = KeyedVectorCache::from_keyed_vectors(3, 1, items).unwrap();
    assert_eq!(ctx.cache.get_vector(&7), Some(bits(&[3.0])));
    assert_eq!(ctx.insertion_order, vec![7, 8, 7]);
}

#[test]
fn empty_provider_gives_an_empty_cache() {
    let ctx = KeyedVectorCache::from_keyed_vectors(0, 3, Vec::new()).unwrap();
    assert_eq!(ctx.cache.n_rows(), 0);
    assert_eq!(ctx.cache.get_vector(&0), None);
}

#[test]
fn too_few_vectors_fail() {
    let r = KeyedVectorCache::from_keyed_vectors(3, 1, vec![kv(1, &[1.0])]);
    assert!(matches!(r, Err(ValidationFailure::TooFewVectors { declared: 3, produced: 1 })));
}

#[test]
fn too_many_vectors_fail() {
    let r = KeyedVectorCache::from_keyed_vectors(1, 1, vec![kv(1, &[1.0]), kv(2, &[2.0])]);
    assert!(matches!(r, Err(ValidationFailure::TooManyVectors { declared: 1 })));
}

#[test]
fn wrong_dimension_fails_at_its_row() {
    let items = vec![kv(1, &[1.0, 2.0]), kv(2, &[1.0]), kv(3, &[1.0, 2.0, 3.0])];
    let r = KeyedVectorCache::from_keyed_vectors(3, 2, items);
    assert!(matches!(r, Err(ValidationFailure::DimensionMismatch { row: 1, expected: 2, found: 1 })));
}

#[test]
fn validation_accepts_what_was_declared() {
    let items = vec![kv(1, &[1.0, 2.0]), kv(2, &[3.0, 4.0])];
    assert_eq!(validate_vectors(2, 2, &items), Ok(()));
    assert_eq!(validate_vectors(2, 3, &items), Err(ValidationFailure::DimensionMismatch { row: 0, expected: 3, found: 2 }));
}

#[test]
fn provider_that_lies_about_its_length_fails() {
    let short = ListProvider::new(3, 1, vec![kv(1, &[1.0]), kv(2, &[2.0])]);
    assert!(matches!(
        KeyedVectorCache::for_provider(short),
        Err(ValidationFailure::TooFewVectors { declared: 3, produced: 2 })
    ));
    let long = ListProvider::new(1, 1, vec![kv(1, &[1.0]), kv(2, &[2.0]), kv(3, &[3.0])]);
    assert!(matches!(KeyedVectorCache::for_provider(long), Err(ValidationFailure::TooManyVectors { declared: 1 })));
}

#[test]
fn endless_provider_is_read_only_one_past_its_length() {
    assert!(matches!(
        KeyedVectorCache::for_provider(EndlessProvider),
        Err(ValidationFailure::TooManyVectors { declared: 4 })
    ));
}

#[test]
fn honest_provider_loads_every_key() {
    let provider = ListProvider::new(3, 2, vec![kv(5, &[1.0, 0.0]), kv(6, &[0.0, 1.0]), kv(7, &[1.0, 1.0])]);
    let ctx = KeyedVectorCache::for_provider(provider).unwrap();
    for (key, v) in [(5, [1.0f32, 0.0]), (6, [0.0, 1.0]), (7, [1.0, 1.0])] {
        assert_eq!(ctx.cache.get_vector(&key), Some(bits(&v)));
    }
}

#[test]
fn subject_vector_reports_each_failure() {
    let ctx = KeyedVectorCache::from_keyed_vectors(1, 1, vec![kv(1, &[0.5])]).unwrap();
    assert!(matches!(ctx.cache.subject_vector(None), Err(RecommendError::IncompatibleId)));
    assert!(matches!(ctx.cache.subject_vector(Some(2)), Err(RecommendError::NotFound)));
    assert_eq!(ctx.cache.subject_vector(Some(1)).ok(), Some(bits(&[0.5])));
}

#[test]
fn init_context_splits_into_cache_and_order() {
    let ctx = KeyedVectorCache::from_keyed_vectors(2, 1, vec![kv(4, &[4.0]), kv(2, &[2.0])]).unwrap();
    let (cache, order): (KeyedVectorCache, Vec<usize>) = ctx.into();
    assert_eq!(order, vec![4, 2]);
    assert_eq!(cache.get_vector(&2), Some(bits(&[2.0])));
}

#[test]
fn forest_subject_reports_each_failure() {
    assert!(matches!(forest_key(None), Err(RecommendError::IncompatibleId)));
    assert!(matches!(forest_key(Some(7)), Ok(7)));
    assert!(matches!(stored_subject::<Vec<u32>>(None), Err(RecommendError::NotFound)));
    assert_eq!(stored_subject(Some(vec![1u32])).ok(), Some(vec![1u32]));
}
