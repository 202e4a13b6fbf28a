//! Configuration of the graph-based backend, and the part of its construction
//! that needs no similarity engine: checking the settings and loading the
//! vector cache.
use vstd::prelude::*;

use vstd::std_specs::iter::IteratorSpec;

use crate::cache::{is_built_from, KeyedVectorCache, KeyedVectorCacheInitContext};
use crate::error::{name_if_missing, ValidationFailure};
use crate::vectors::{declares, is_validation_failure, matches_declaration, read_prefix, KeyedVector, VectorProvider};

verus! {

/// How many candidates a graph search examines when none is configured.
pub const DEFAULT_SEARCH_BREADTH: usize = 20;

/// Why a graph backend could not be built.
#[derive(Debug)]
pub enum HnswRecommenderBuilderError {
    /// Every setting that was never given, in the order the builder lists them.
    UninitializedFields(Vec<&'static str>),
    /// The loaded data broke a construction-time invariant.
    ValidationError(ValidationFailure),
}

/// The settings of a graph backend, each one given.
pub struct HnswRecommenderArguments<P, D> {
    pub max_connections: usize,
    pub n_layers: usize,
    pub ef_coef: usize,
    pub metric: D,
    pub vector_provider: P,
    /// How many candidates a search examines; at least the number requested
    /// is examined in any case.
    pub search_breadth: usize,
}

/// Collects the settings of a graph backend; any may still be missing.
pub struct HnswRecommenderBuilder<P, D> {
    pub max_connections: Option<usize>,
    pub n_layers: Option<usize>,
    pub ef_coef: Option<usize>,
    pub metric: Option<D>,
    pub vector_provider: Option<P>,
    pub search_breadth: Option<usize>,
}

/// Everything a graph index is built from: the settings and the loaded cache,
/// with the keys in the order their vectors were loaded.
pub struct HnswIndexPlan<D> {
    pub max_connections: usize,
    pub n_layers: usize,
    pub ef_coef: usize,
    pub metric: D,
    pub search_breadth: usize,
    pub loaded: KeyedVectorCacheInitContext,
}

/// How many candidates a graph search examines: the configured breadth, but
/// never fewer than the number of neighbours asked for.
pub fn search_breadth_for(configured: usize, wanted: usize) -> (r: usize)
    ensures
        r == if configured < wanted { wanted } else { configured },
{
    if configured < wanted {
        wanted
    } else {
        configured
    }
}

impl<P, D> HnswRecommenderBuilder<P, D> {
    /// A builder with no setting given.
    pub fn new() -> (r: Self)
        ensures
            r.max_connections is None,
            r.n_layers is None,
            r.ef_coef is None,
            r.metric is None,
            r.vector_provider is None,
            r.search_breadth is None,
    {
        HnswRecommenderBuilder {
            max_connections: None,
            n_layers: None,
            ef_coef: None,
            metric: None,
            vector_provider: None,
            search_breadth: None,
        }
    }

    /// Sets `max_connections`.
    pub fn max_connections(self, max_connections: usize) -> (r: Self)
        ensures
            r.max_connections == Some(max_connections),
            r.n_layers == self.n_layers,
            r.ef_coef == self.ef_coef,
            r.metric == self.metric,
            r.vector_provider == self.vector_provider,
            r.search_breadth == self.search_breadth,
    {
        let mut b = self;
        b.max_connections = Some(max_connections);
        b
    }

    /// Sets `n_layers`.
    pub fn n_layers(self, n_layers: usize) -> (r: Self)
        ensures
            r.n_layers == Some(n_layers),
            r.max_connections == self.max_connections,
            r.ef_coef == self.ef_coef,
            r.metric == self.metric,
            r.vector_provider == self.vector_provider,
            r.search_breadth == self.search_breadth,
    {
        let mut b = self;
        b.n_layers = Some(n_layers);
        b
    }

    /// Sets `ef_coef`.
    pub fn ef_coef(self, ef_coef: usize) -> (r: Self)
        ensures
            r.ef_coef == Some(ef_coef),
            r.max_connections == self.max_connections,
            r.n_layers == self.n_layers,
            r.metric == self.metric,
            r.vector_provider == self.vector_provider,
            r.search_breadth == self.search_breadth,
    {
        let mut b = self;
        b.ef_coef = Some(ef_coef);
        b
    }

    /// Sets `metric`.
    pub fn metric(self, metric: D) -> (r: Self)
        ensures
            r.metric == Some(metric),
            r.max_connections == self.max_connections,
            r.n_layers == self.n_layers,
            r.ef_coef == self.ef_coef,
            r.vector_provider == self.vector_provider,
            r.search_breadth == self.search_breadth,
    {
        let mut b = self;
        b.metric = Some(metric);
        b
    }

    /// Sets `vector_provider`.
    pub fn vector_provider(self, vector_provider: P) -> (r: Self)
        ensures
            r.vector_provider == Some(vector_provider),
            r.max_connections == self.max_connections,
            r.n_layers == self.n_layers,
            r.ef_coef == self.ef_coef,
            r.metric == self.metric,
            r.search_breadth == self.search_breadth,
    {
        let mut b = self;
        b.vector_provider = Some(vector_provider);
        b
    }

    /// Sets `search_breadth`.
    pub fn search_breadth(self, search_breadth: usize) -> (r: Self)
        ensures
            r.search_breadth == Some(search_breadth),
            r.max_connections == self.max_connections,
            r.n_layers == self.n_layers,
            r.ef_coef == self.ef_coef,
            r.metric == self.metric,
            r.vector_provider == self.vector_provider,
    {
        let mut b = self;
        b.search_breadth = Some(search_breadth);
        b
    }

    /// The settings never given, in the order vector provider, connections,
    /// layers, construction breadth, metric.
    pub open spec fn missing_fields(self) -> Seq<&'static str> {
        name_if_missing(self.vector_provider, "vector_provider") + name_if_missing(
            self.max_connections,
            "max_connections",
        ) + name_if_missing(self.n_layers, "n_layers") + name_if_missing(self.ef_coef, "ef_coefficient")
            + name_if_missing(self.metric, "distance_metric")
    }

    /// Every required setting was given.
    pub open spec fn is_complete(self) -> bool {
        &&& self.vector_provider is Some
        &&& self.max_connections is Some
        &&& self.n_layers is Some
        &&& self.ef_coef is Some
        &&& self.metric is Some
    }

    /// The value of a setting, or the error that names it where it is missing.
    pub fn unwrap_field<T>(val: Option<T>, name: &'static str) -> (r: Result<T, HnswRecommenderBuilderError>)
        ensures
            match val {
                Some(v) => r == Ok::<T, HnswRecommenderBuilderError>(v),
                None => r is Err && r->Err_0 is UninitializedFields && r->Err_0->UninitializedFields_0@ == seq![
                    name,
                ],
            },
    {
        match val {
            Some(v) => Ok(v),
            None => Err(HnswRecommenderBuilderError::UninitializedFields(vec![name])),
        }
    }

    /// The names of the settings never given, in the builder's order.
    fn collect_missing(&self) -> (r: Vec<&'static str>)
        ensures
            r@ == self.missing_fields(),
    {
        let mut missing: Vec<&'static str> = Vec::new();
        if self.vector_provider.is_none() {
            missing.push("vector_provider");
        }
        if self.max_connections.is_none() {
            missing.push("max_connections");
        }
        if self.n_layers.is_none() {
            missing.push("n_layers");
        }
        if self.ef_coef.is_none() {
            missing.push("ef_coefficient");
        }
        if self.metric.is_none() {
            missing.push("distance_metric");
        }
        assert(missing@ =~= self.missing_fields());
        missing
    }

    /// Checks that every required setting was given; where some are missing,
    /// the error lists all of them.
    pub fn arguments(self) -> (r: Result<HnswRecommenderArguments<P, D>, HnswRecommenderBuilderError>)
        ensures
            r is Ok <==> self.is_complete(),
            r is Ok <==> self.missing_fields().len() == 0,
            r is Err ==> r->Err_0 is UninitializedFields && r->Err_0->UninitializedFields_0@ == self.missing_fields(),
            r is Ok ==> {
                &&& r->Ok_0.vector_provider == self.vector_provider->Some_0
                &&& r->Ok_0.max_connections == self.max_connections->Some_0
                &&& r->Ok_0.n_layers == self.n_layers->Some_0
                &&& r->Ok_0.ef_coef == self.ef_coef->Some_0
                &&& r->Ok_0.metric == self.metric->Some_0
                &&& r->Ok_0.search_breadth == match self.search_breadth {
                    Some(b) => b,
                    None => DEFAULT_SEARCH_BREADTH,
                }
            },
    {
        let missing = self.collect_missing();
        if missing.len() > 0 {
            return Err(HnswRecommenderBuilderError::UninitializedFields(missing));
        }
        let search_breadth = match self.search_breadth {
            Some(b) => b,
            None => DEFAULT_SEARCH_BREADTH,
        };
        match (self.vector_provider, self.max_connections, self.n_layers, self.ef_coef, self.metric) {
            (Some(vector_provider), Some(max_connections), Some(n_layers), Some(ef_coef), Some(metric)) => Ok(
                HnswRecommenderArguments {
                    max_connections,
                    n_layers,
                    ef_coef,
                    metric,
                    vector_provider,
                    search_breadth,
                },
            ),
            _ => Err(HnswRecommenderBuilderError::UninitializedFields(missing)),
        }
    }

    /// Checks the settings, then consumes the provider into a vector cache.
    /// Nothing is read from the provider where a setting is missing, and
    /// nothing is produced where the provider's output breaks its
    /// declaration. Where the provider's iterator keeps to the iterator laws,
    /// the outcome is exactly that of checking and loading what it yields.
    pub fn prepare(self) -> (r: Result<HnswIndexPlan<D>, HnswRecommenderBuilderError>)
        where
            P: VectorProvider<usize>,
        ensures
            !self.is_complete() ==> r is Err && r->Err_0 is UninitializedFields
                && r->Err_0->UninitializedFields_0@ == self.missing_fields(),
            r is Err && r->Err_0 is ValidationError ==> self.is_complete(),
            r is Ok ==> self.is_complete(),
            r is Ok ==> {
                &&& r->Ok_0.max_connections == self.max_connections->Some_0
                &&& r->Ok_0.n_layers == self.n_layers->Some_0
                &&& r->Ok_0.ef_coef == self.ef_coef->Some_0
                &&& r->Ok_0.metric == self.metric->Some_0
                &&& r->Ok_0.search_breadth == match self.search_breadth {
                    Some(b) => b,
                    None => DEFAULT_SEARCH_BREADTH,
                }
                &&& exists|items: Seq<KeyedVector<usize>>| is_built_from(r->Ok_0.loaded, items)
                &&& exists|declared: usize, dimensions: u16|
                    #[trigger] declares(self.vector_provider->Some_0, declared, dimensions)
                        && r->Ok_0.loaded.cache.row_count() == declared && r->Ok_0.loaded.cache.dims() == dimensions
            },
            self.is_complete() && self.vector_provider->Some_0.obeys_prophetic_iter_laws() ==> exists|
                declared: usize,
                dimensions: u16,
            |
                {
                    &&& #[trigger] declares(self.vector_provider->Some_0, declared, dimensions)
                    &&& r is Ok <==> matches_declaration(
                        declared,
                        dimensions,
                        read_prefix(self.vector_provider->Some_0.remaining(), declared),
                    )
                    &&& r is Ok ==> is_built_from(
                        r->Ok_0.loaded,
                        read_prefix(self.vector_provider->Some_0.remaining(), declared),
                    )
                    &&& r is Err ==> r->Err_0 is ValidationError && is_validation_failure(
                        declared,
                        dimensions,
                        read_prefix(self.vector_provider->Some_0.remaining(), declared),
                        r->Err_0->ValidationError_0,
                    )
                },
    {
        let args = match self.arguments() {
            Ok(a) => a,
            Err(e) => return Err(e),
        };
        let ghost provider = args.vector_provider;
        let loaded = match KeyedVectorCache::for_provider(args.vector_provider) {
            Ok(c) => c,
            Err(failure) => return Err(HnswRecommenderBuilderError::ValidationError(failure)),
        };
        proof {
            let (declared, dimensions) = choose|declared: usize, dimensions: u16|
                #[trigger] declares(provider, declared, dimensions) && loaded.cache.row_count() == declared
                    && loaded.cache.dims() == dimensions;
            assert(declares(self.vector_provider->Some_0, declared, dimensions));
        }
        Ok(HnswIndexPlan {
            max_connections: args.max_connections,
            n_layers: args.n_layers,
            ef_coef: args.ef_coef,
            metric: args.metric,
            search_breadth: args.search_breadth,
            loaded,
        })
    }
}

} // verus!
