use recommender::annoy_recommender::{AnnoyRecommenderBuilder, AnnoyRecommenderBuilderError};
use recommender::error::ValidationFailure;
use recommender::hnsw_recommender::{
    search_breadth_for, HnswRecommenderBuilder, HnswRecommenderBuilderError, DEFAULT_SEARCH_BREADTH,
};
use recommender::vectors::{KeyedVector, VectorProvider};

struct Rows {
    declared: usize,
    items: std::vec::IntoIter<KeyedVector<usize>>,
}

impl Iterator for Rows {
    type Item = KeyedVector<usize>;

    fn next(&mut self) -> Option<KeyedVector<usize>> {
        self.items.next()
    }
}

impl VectorProvider<usize> for Rows {
    fn length(&self) -> usize {
        self.declared
    }

    fn vector_dimensions(&self) -> u16 {
        2
    }
}

fn rows(declared: usize, n: usize) -> Rows {
    let items: Vec<KeyedVector<usize>> =
        (0..n).map(|i| KeyedVector::new(i, vec![(i as f32).to_bits(), 1.0f32.to_bits()])).collect();
    Rows { declared, items: items.into_iter() }
}

impl Rows {
    fn dimension_mismatch(self) -> Rows {
        let mut items: Vec<KeyedVector<usize>> = self.items.collect();
        if items.len() > 1 {
            items[1].vector.pop();
        }
        Rows { declared: self.declared, items: items.into_iter() }
    }
}

fn full_builder(provider: Rows) -> HnswRecommenderBuilder<Rows, &'static str> {
    let mut b = HnswRecommenderBuilder::new();
    b.vector_provider = Some(provider);
    b.max_connections = Some(16);
    b.n_layers = Some(8);
    b.ef_coef = Some(100);
    b.metric = Some("l2");
    b
}

fn missing(r: Result<impl Sized, HnswRecommenderBuilderError>) -> Vec<&'static str> {
    match r {
        Err(HnswRecommenderBuilderError::UninitializedFields(names)) => names,
        _ => Vec::new(),
    }
}

#[test]
fn unwrap_field_names_the_missing_setting() {
    assert!(matches!(HnswRecommenderBuilder::<Rows, u8>::unwrap_field(Some(3), "x"), Ok(3)));
    assert_eq!(missing(HnswRecommenderBuilder::<Rows, u8>::unwrap_field(None::<u8>, "n_layers")), vec!["n_layers"]);
}

#[test]
fn hnsw_error_lists_every_missing_setting() {
    let empty: HnswRecommenderBuilder<Rows, u8> = HnswRecommenderBuilder::new();
    assert_eq!(
        missing(empty.arguments()),
        vec!["vector_provider", "max_connections", "n_layers", "ef_coefficient", "distance_metric"]
    );
    let mut b = full_builder(rows(1, 1));
    b.max_connections = None;
    b.metric = None;
    assert_eq!(missing(b.arguments()), vec!["max_connections", "distance_metric"]);
    let mut b = full_builder(rows(1, 1));
    b.n_layers = None;
    assert_eq!(missing(b.arguments()), vec!["n_layers"]);
    let mut b = full_builder(rows(1, 1));
    b.ef_coef = None;
    assert_eq!(missing(b.arguments()), vec!["ef_coefficient"]);
}

#[test]
fn hnsw_plan_reads_no_provider_when_settings_are_missing() {
    let mut b = full_builder(rows(5, 3));
    b.n_layers = None;
    assert_eq!(missing(b.prepare()), vec!["n_layers"]);
}

#[test]
fn hnsw_arguments_carry_the_settings() {
    let args = full_builder(rows(1, 1)).arguments().ok().unwrap();
    assert_eq!((args.max_connections, args.n_layers, args.ef_coef, args.metric), (16, 8, 100, "l2"));
    assert_eq!(args.search_breadth, DEFAULT_SEARCH_BREADTH);
    let mut b = full_builder(rows(1, 1));
    b.search_breadth = Some(64);
    assert_eq!(b.arguments().ok().unwrap().search_breadth, 64);
}

#[test]
fn hnsw_plan_loads_the_cache() {
    let plan = full_builder(rows(4, 4)).prepare().ok().unwrap();
    assert_eq!(plan.loaded.cache.n_rows(), 4);
    assert_eq!(plan.loaded.insertion_order, vec![0, 1, 2, 3]);
    assert_eq!(plan.loaded.cache.get_vector(&2), Some(vec![2.0f32.to_bits(), 1.0f32.to_bits()]));
}

#[test]
fn hnsw_plan_rejects_a_provider_with_the_wrong_length() {
    match full_builder(rows(5, 3)).prepare() {
        Err(HnswRecommenderBuilderError::ValidationError(f)) => {
            assert_eq!(f, ValidationFailure::TooFewVectors { declared: 5, produced: 3 })
        },
        _ => panic!("a short provider must not give a plan"),
    }
    match full_builder(rows(2, 2).dimension_mismatch()).prepare() {
        Err(HnswRecommenderBuilderError::ValidationError(f)) => {
            assert_eq!(f, ValidationFailure::DimensionMismatch { row: 1, expected: 2, found: 1 })
        },
        _ => panic!("a vector of the wrong length must not give a plan"),
    }
    match full_builder(rows(2, 3)).prepare() {
        Err(HnswRecommenderBuilderError::ValidationError(f)) => {
            assert_eq!(f, ValidationFailure::TooManyVectors { declared: 2 })
        },
        _ => panic!("a long provider must not give a plan"),
    }
}

fn annoy_error(r: Result<impl Sized, AnnoyRecommenderBuilderError>) -> (Vec<&'static str>, Vec<&'static str>) {
    match r {
        Err(AnnoyRecommenderBuilderError::InvalidSettings { missing, invalid }) => (missing, invalid),
        _ => (Vec::new(), Vec::new()),
    }
}

#[test]
fn annoy_error_lists_every_missing_and_invalid_setting() {
    let b: AnnoyRecommenderBuilder<Rows, &str> = AnnoyRecommenderBuilder::new();
    assert_eq!(annoy_error(b.arguments()), (vec!["map_size", "max_dbs", "path", "vector_provider"], vec![]));
    let mut b: AnnoyRecommenderBuilder<Rows, &str> = AnnoyRecommenderBuilder::new();
    b.max_dbs = Some(usize::MAX);
    b.path = Some("db");
    assert_eq!(annoy_error(b.arguments()), (vec!["map_size", "vector_provider"], vec!["max_dbs"]));
    let mut b: AnnoyRecommenderBuilder<Rows, &str> = AnnoyRecommenderBuilder::new();
    b.map_size = Some(1 << 20);
    b.max_dbs = Some(usize::MAX);
    b.path = Some("db");
    b.vector_provider = Some(None);
    assert_eq!(annoy_error(b.arguments()), (vec![], vec!["max_dbs"]));
    b = AnnoyRecommenderBuilder::new();
    b.map_size = Some(1 << 20);
    b.max_dbs = Some(4);
    b.path = Some("db");
    b.vector_provider = Some(None);
    let args = b.arguments().ok().unwrap();
    assert_eq!((args.map_size, args.max_dbs, args.path), (1 << 20, 4, "db"));
    assert!(args.vector_provider.is_none());
}

#[test]
fn setters_fill_the_builders() {
    let b: HnswRecommenderBuilder<Rows, &str> = HnswRecommenderBuilder::new()
        .vector_provider(rows(2, 2))
        .max_connections(8)
        .n_layers(4)
        .ef_coef(50)
        .metric("dot")
        .search_breadth(10);
    let plan = b.prepare().ok().unwrap();
    assert_eq!((plan.max_connections, plan.n_layers, plan.ef_coef, plan.metric, plan.search_breadth), (8, 4, 50, "dot", 10));
    let a: AnnoyRecommenderBuilder<Rows, &str> =
        AnnoyRecommenderBuilder::new().map_size(4096).max_dbs(2).path("here").vector_provider(Some(rows(0, 0)));
    let args = a.arguments().ok().unwrap();
    assert_eq!((args.map_size, args.max_dbs, args.path), (4096, 2, "here"));
    assert!(args.vector_provider.is_some());
}

#[test]
fn search_breadth_covers_the_request() {
    assert_eq!(search_breadth_for(20, 3), 20);
    assert_eq!(search_breadth_for(20, 41), 41);
}
