//! Configuration of the forest-based backend: the settings of its storage
//! environment and the optional provider that a fresh index is loaded from.
use vstd::prelude::*;

use std::path::PathBuf;

use crate::error::{name_if_missing, RecommendError};

verus! {

#[verifier::external_type_specification]
#[verifier::external_body]
pub struct ExPathBuf(PathBuf);

/// The subject's key as the forest stores it, given the id as converted to
/// a `u32` (`None` where it did not convert).
pub fn forest_key(converted: Option<u32>) -> (r: Result<u32, RecommendError>)
    ensures
        match converted {
            Some(k) => r == Ok::<u32, RecommendError>(k),
            None => r is Err && r->Err_0 is IncompatibleId,
        },
{
    match converted {
        Some(k) => Ok(k),
        None => Err(RecommendError::IncompatibleId),
    }
}

/// The vector a forest query starts from, given what the forest holds under
/// the subject's key: `NotFound` where it holds nothing.
pub fn stored_subject<V>(stored: Option<V>) -> (r: Result<V, RecommendError>)
    ensures
        match stored {
            Some(v) => r is Ok && r->Ok_0 == v,
            None => r is Err && r->Err_0 is NotFound,
        },
{
    match stored {
        Some(v) => Ok(v),
        None => Err(RecommendError::NotFound),
    }
}

/// Why a forest backend could not be built.
#[derive(Debug)]
pub enum AnnoyRecommenderBuilderError {
    /// Every setting that was never given, and every setting out of the
    /// range that the storage engine takes, each in the builder's order.
    InvalidSettings { missing: Vec<&'static str>, invalid: Vec<&'static str> },
    /// The environment or the index could not be opened, loaded or committed.
    ValidationError(String),
}

/// The settings of a forest backend, each one given.
pub struct AnnoyRecommenderArguments<P, PathRef> {
    pub map_size: usize,
    /// At most `u32::MAX`, the largest count that the storage engine takes.
    pub max_dbs: usize,
    /// the path the DB directory
    pub path: PathRef,
    /// instructions for loading vectors into the db. If none is provided,
    /// no vectors will be loaded into the DB
    pub vector_provider: Option<P>,
}

/// Collects the settings of a forest backend; any may still be missing.
pub struct AnnoyRecommenderBuilder<P, PathRef> {
    pub map_size: Option<usize>,
    pub max_dbs: Option<usize>,
    pub path: Option<PathRef>,
    pub vector_provider: Option<Option<P>>,
}

/// Where the vectors of a new database are read from, and their dimensionality.
pub struct DatabaseInitConfig {
    pub listing_vectors: PathBuf,
    pub vector_dimensions: usize,
}

impl<P, PathRef> AnnoyRecommenderBuilder<P, PathRef> {
    /// A builder with no setting given.
    pub fn new() -> (r: Self)
        ensures
            r.map_size is None,
            r.max_dbs is None,
            r.path is None,
            r.vector_provider is None,
    {
        AnnoyRecommenderBuilder { map_size: None, max_dbs: None, path: None, vector_provider: None }
    }

    /// Sets `map_size`.
    pub fn map_size(self, map_size: usize) -> (r: Self)
        ensures
            r.map_size == Some(map_size),
            r.max_dbs == self.max_dbs,
            r.path == self.path,
            r.vector_provider == self.vector_provider,
    {
        let mut b = self;
        b.map_size = Some(map_size);
        b
    }

    /// Sets `max_dbs`.
    pub fn max_dbs(self, max_dbs: usize) -> (r: Self)
        ensures
            r.max_dbs == Some(max_dbs),
            r.map_size == self.map_size,
            r.path == self.path,
            r.vector_provider == self.vector_provider,
    {
        let mut b = self;
        b.max_dbs = Some(max_dbs);
        b
    }

    /// Sets `path`.
    pub fn path(self, path: PathRef) -> (r: Self)
        ensures
            r.path == Some(path),
            r.map_size == self.map_size,
            r.max_dbs == self.max_dbs,
            r.vector_provider == self.vector_provider,
    {
        let mut b = self;
        b.path = Some(path);
        b
    }

    /// Sets `vector_provider`.
    pub fn vector_provider(self, vector_provider: Option<P>) -> (r: Self)
        ensures
            r.vector_provider == Some(vector_provider),
            r.map_size == self.map_size,
            r.max_dbs == self.max_dbs,
            r.path == self.path,
    {
        let mut b = self;
        b.vector_provider = Some(vector_provider);
        b
    }

    /// The settings never given, in the order map size, number of databases,
    /// path, provider.
    pub open spec fn missing_fields(self) -> Seq<&'static str> {
        name_if_missing(self.map_size, "map_size") + name_if_missing(self.max_dbs, "max_dbs") + name_if_missing(
            self.path,
            "path",
        ) + name_if_missing(self.vector_provider, "vector_provider")
    }

    /// The settings given out of range: a number of databases that does not
    /// fit in a `u32`.
    pub open spec fn invalid_fields(self) -> Seq<&'static str> {
        if self.max_dbs is Some && self.max_dbs->Some_0 > u32::MAX {
            seq!["max_dbs"]
        } else {
            Seq::empty()
        }
    }

    /// Checks every setting; where any is missing or out of range, the error
    /// lists all that are.
    pub fn arguments(self) -> (r: Result<AnnoyRecommenderArguments<P, PathRef>, AnnoyRecommenderBuilderError>)
        ensures
            r is Ok <==> self.missing_fields().len() == 0 && self.invalid_fields().len() == 0,
            r is Ok <==> (self.map_size is Some && self.max_dbs is Some && self.max_dbs->Some_0 <= u32::MAX
                && self.path is Some && self.vector_provider is Some),
            r is Err ==> {
                &&& r->Err_0 is InvalidSettings
                &&& r->Err_0->InvalidSettings_missing@ == self.missing_fields()
                &&& r->Err_0->InvalidSettings_invalid@ == self.invalid_fields()
            },
            r is Ok ==> {
                &&& r->Ok_0.map_size == self.map_size->Some_0
                &&& r->Ok_0.max_dbs == self.max_dbs->Some_0
                &&& r->Ok_0.path == self.path->Some_0
                &&& r->Ok_0.vector_provider == self.vector_provider->Some_0
            },
    {
        let mut missing: Vec<&'static str> = Vec::new();
        if self.map_size.is_none() {
            missing.push("map_size");
        }
        if self.max_dbs.is_none() {
            missing.push("max_dbs");
        }
        if self.path.is_none() {
            missing.push("path");
        }
        if self.vector_provider.is_none() {
            missing.push("vector_provider");
        }
        let mut invalid: Vec<&'static str> = Vec::new();
        match self.max_dbs {
            Some(n) => {
                if n > u32::MAX as usize {
                    invalid.push("max_dbs");
                }
            },
            None => {},
        }
        assert(missing@ =~= self.missing_fields());
        assert(invalid@ =~= self.invalid_fields());
        if missing.len() > 0 || invalid.len() > 0 {
            return Err(AnnoyRecommenderBuilderError::InvalidSettings { missing, invalid });
        }
        match (self.map_size, self.max_dbs, self.path, self.vector_provider) {
            (Some(map_size), Some(max_dbs), Some(path), Some(vector_provider)) => Ok(
                AnnoyRecommenderArguments { map_size, max_dbs, path, vector_provider },
            ),
            _ => Err(AnnoyRecommenderBuilderError::InvalidSettings { missing, invalid }),
        }
    }
}

} // verus!
