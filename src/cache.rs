//! The dense vector cache: an `n × d` row-major matrix of vector components
//! and a concurrent map from each key to the row that holds its vector.
use vstd::prelude::*;

use dashmap::DashMap;

use vstd::std_specs::iter::IteratorSpec;

use crate::error::{RecommendError, ValidationFailure};
use crate::list::reversed;
use crate::row_index::{insert_row, lookup_row, new_row_index, row_entries};
use crate::vectors::{
    all_have_dimension, collect_provider, declares, is_check_of_read, is_validation_failure, matches_declaration,
    read_prefix, validate_vectors,
    KeyedVector, VectorProvider,
};

verus! {

/// Row `i` of a row-major matrix whose rows have `d` components.
pub open spec fn row_of(m: Seq<u32>, d: nat, i: int) -> Seq<u32> {
    m.subrange(i * d, i * d + d)
}

/// The keys of the keyed vectors, in their order.
pub open spec fn keys_of(items: Seq<KeyedVector<usize>>) -> Seq<usize> {
    items.map_values(|v: KeyedVector<usize>| v.key)
}

/// `index` maps each key of `keys` to the last position that holds it, and
/// maps no other key.
pub open spec fn indexes_last_positions(index: Map<usize, usize>, keys: Seq<usize>) -> bool {
    &&& forall|i: int| 0 <= i < keys.len() ==> index.contains_key(#[trigger] keys[i])
    &&& forall|k: usize| #[trigger] index.contains_key(k) ==> {
        &&& index[k] < keys.len()
        &&& keys[index[k] as int] == k
        &&& forall|j: int| index[k] < j < keys.len() ==> keys[j] != k
    }
}

/// Adding the key at the next position keeps the map at the last position of each key.
proof fn lemma_index_push(index: Map<usize, usize>, keys: Seq<usize>, k: usize)
    requires
        indexes_last_positions(index, keys),
        keys.len() <= usize::MAX,
    ensures
        indexes_last_positions(index.insert(k, keys.len() as usize), keys.push(k)),
{
    let new_index = index.insert(k, keys.len() as usize);
    let new_keys = keys.push(k);
    assert forall|i: int| 0 <= i < new_keys.len() implies new_index.contains_key(#[trigger] new_keys[i]) by {
        if i < keys.len() {
            assert(new_keys[i] == keys[i]);
        }
    };
    assert forall|k2: usize| #[trigger] new_index.contains_key(k2) implies {
        &&& new_index[k2] < new_keys.len()
        &&& new_keys[new_index[k2] as int] == k2
        &&& forall|j: int| new_index[k2] < j < new_keys.len() ==> new_keys[j] != k2
    } by {
        if k2 != k {
            assert(index.contains_key(k2));
            assert forall|j: int| new_index[k2] < j < new_keys.len() implies new_keys[j] != k2 by {
                if j < keys.len() {
                    assert(new_keys[j] == keys[j]);
                }
            };
        }
    };
}

/// The cache and load order hold `items`: the vector at position `i` is row
/// `i`, each key is found at the last row that carries it, and the load order
/// lists the keys as they came.
pub open spec fn is_built_from(ctx: KeyedVectorCacheInitContext, items: Seq<KeyedVector<usize>>) -> bool {
    &&& ctx.cache.row_count() == items.len()
    &&& forall|i: int| 0 <= i < items.len() ==> #[trigger] ctx.cache.row_spec(i) == items[i].vector@
    &&& ctx.insertion_order@ == keys_of(items)
    &&& indexes_last_positions(ctx.cache.index(), keys_of(items))
}

/// No key comes twice.
pub open spec fn distinct_keys(items: Seq<KeyedVector<usize>>) -> bool {
    forall|i: int, j: int| 0 <= i < j < items.len() ==> items[i].key != items[j].key
}

/// Round trip: in a cache built from vectors with distinct keys, each key
/// resolves to its own vector, so a query for a loaded key never fails with
/// `NotFound`.
pub proof fn lemma_loaded_keys_resolve(ctx: KeyedVectorCacheInitContext, items: Seq<KeyedVector<usize>>)
    requires
        is_built_from(ctx, items),
        distinct_keys(items),
    ensures
        forall|i: int| 0 <= i < items.len() ==> ctx.cache.vector_of(#[trigger] items[i].key) == Some(items[i].vector@),
{
    let keys = keys_of(items);
    assert forall|i: int| 0 <= i < items.len() implies ctx.cache.vector_of(#[trigger] items[i].key) == Some(
        items[i].vector@,
    ) by {
        assert(keys[i] == items[i].key);
        let j = ctx.cache.index()[items[i].key] as int;
        assert(keys[j] == items[j].key);
        if j < i {
            assert(items[j].key != items[i].key);
        }
        if j > i {
            assert(items[i].key != items[j].key);
        }
    };
}

/// A read-only store of vectors, each found by its key.
pub struct KeyedVectorCache {
    id_to_vector: DashMap<usize, usize>,
    vectors: Vec<u32>,
    n_rows: usize,
    dimensions: usize,
}

/// A newly built cache and the keys in the order their vectors were loaded.
pub struct KeyedVectorCacheInitContext {
    /// the newly constructed cache
    pub cache: KeyedVectorCache,
    /// the order that the vectors were inserted into the map
    pub insertion_order: Vec<usize>,
}

impl From<KeyedVectorCacheInitContext> for (KeyedVectorCache, Vec<usize>) {
    fn from(value: KeyedVectorCacheInitContext) -> (r: Self) {
        (value.cache, value.insertion_order)
    }
}

impl vstd::std_specs::convert::FromSpecImpl<KeyedVectorCacheInitContext> for (KeyedVectorCache, Vec<usize>) {
    open spec fn obeys_from_spec() -> bool {
        true
    }

    open spec fn from_spec(v: KeyedVectorCacheInitContext) -> Self {
        (v.cache, v.insertion_order)
    }
}

impl KeyedVectorCache {
    #[verifier::type_invariant]
    spec fn well_formed(self) -> bool {
        &&& self.vectors@.len() == self.n_rows * self.dimensions
        &&& forall|k: usize| #[trigger] row_entries(self.id_to_vector).contains_key(k)
            ==> row_entries(self.id_to_vector)[k] < self.n_rows
    }

    /// The row that holds each key's vector.
    pub closed spec fn index(self) -> Map<usize, usize> {
        row_entries(self.id_to_vector)
    }

    /// The number of rows.
    pub closed spec fn row_count(self) -> nat {
        self.n_rows as nat
    }

    /// The number of components of every row.
    pub closed spec fn dims(self) -> nat {
        self.dimensions as nat
    }

    /// The components of row `i`.
    pub closed spec fn row_spec(self, i: int) -> Seq<u32> {
        row_of(self.vectors@, self.dimensions as nat, i)
    }

    /// The stored vector of `key`, if it has one.
    pub open spec fn vector_of(self, key: usize) -> Option<Seq<u32>> {
        if self.index().contains_key(key) {
            Some(self.row_spec(self.index()[key] as int))
        } else {
            None
        }
    }

    /// Wraps a map and a row-major matrix of `n_rows` rows of `dimensions`
    /// components, where every key maps to an existing row.
    fn new(id_to_vector: DashMap<usize, usize>, vectors: Vec<u32>, n_rows: usize, dimensions: usize) -> (r: Self)
        requires
            vectors@.len() == n_rows * dimensions,
            forall|k: usize| #[trigger] row_entries(id_to_vector).contains_key(k)
                ==> row_entries(id_to_vector)[k] < n_rows,
        ensures
            r.index() == row_entries(id_to_vector),
            r.row_count() == n_rows,
            r.dims() == dimensions,
            forall|i: int| 0 <= i < n_rows ==> #[trigger] r.row_spec(i) == row_of(vectors@, dimensions as nat, i),
    {
        KeyedVectorCache { id_to_vector, vectors, n_rows, dimensions }
    }

    /// The number of rows.
    pub fn n_rows(&self) -> (r: usize)
        ensures
            r == self.row_count(),
    {
        self.n_rows
    }

    /// The number of components of every row.
    pub fn dimensions(&self) -> (r: usize)
        ensures
            r == self.dims(),
    {
        self.dimensions
    }

    /// A copy of row `i`.
    pub fn row(&self, i: usize) -> (r: Vec<u32>)
        requires
            i < self.row_count(),
        ensures
            r@ == self.row_spec(i as int),
    {
        proof {
            use_type_invariant(self);
        }
        let d = self.dimensions;
        let total = self.vectors.len();
        proof {
            assert(i * d + d <= self.n_rows * d) by (nonlinear_arith)
                requires
                    i < self.n_rows,
            ;
        }
        let start = i * d;
        let mut out: Vec<u32> = Vec::new();
        let mut j: usize = 0;
        while j < d
            invariant
                j <= d,
                start == i * d,
                start + d <= self.vectors@.len(),
                self.vectors@.len() == total,
                out@ == self.vectors@.subrange(start as int, start + j),
            decreases d - j,
        {
            out.push(self.vectors[start + j]);
            j = j + 1;
            assert(out@ =~= self.vectors@.subrange(start as int, start + j));
        }
        out
    }

    /// The stored vector of `key`, copied, or `None` where the key is absent.
    pub fn get_vector(&self, key: &usize) -> (r: Option<Vec<u32>>)
        ensures
            match r {
                Some(v) => self.vector_of(*key) == Some(v@),
                None => self.vector_of(*key) is None,
            },
    {
        proof {
            use_type_invariant(self);
        }
        match lookup_row(&self.id_to_vector, *key) {
            Some(i) => Some(self.row(i)),
            None => None,
        }
    }

    /// The vector a query starts from, given the subject's id as converted
    /// to a cache key (`None` where it did not convert).
    pub fn subject_vector(&self, converted: Option<usize>) -> (r: Result<Vec<u32>, RecommendError>)
        ensures
            converted is None ==> r is Err && r->Err_0 is IncompatibleId,
            converted is Some ==> match self.vector_of(converted->Some_0) {
                Some(v) => r is Ok && r->Ok_0@ == v,
                None => r is Err && r->Err_0 is NotFound,
            },
    {
        match converted {
            None => Err(RecommendError::IncompatibleId),
            Some(key) => match self.get_vector(&key) {
                Some(v) => Ok(v),
                None => Err(RecommendError::NotFound),
            },
        }
    }

    /// Builds a cache from the vectors that a provider yielded, where the
    /// provider declared `declared` vectors of `dimensions` components each.
    /// The vector at position `i` becomes row `i`; a key that comes twice
    /// is found at its last row.
    pub fn from_keyed_vectors(declared: usize, dimensions: u16, items: Vec<KeyedVector<usize>>) -> (r: Result<
        KeyedVectorCacheInitContext,
        ValidationFailure,
    >)
        ensures
            r is Ok <==> matches_declaration(declared, dimensions, items@),
            r is Err ==> is_validation_failure(declared, dimensions, items@, r->Err_0),
            r is Ok ==> is_built_from(r->Ok_0, items@),
            r is Ok ==> r->Ok_0.cache.dims() == dimensions,
    {
        match validate_vectors(declared, dimensions, &items) {
            Ok(()) => {},
            Err(e) => {
                return Err(e);
            },
        }
        let n = items.len();
        let d = dimensions as usize;
        let ghost input = items@;
        let ghost keys = keys_of(input);
        let mut rest = reversed(items);
        let mut index = new_row_index();
        let mut matrix: Vec<u32> = Vec::new();
        let mut order: Vec<usize> = Vec::new();
        let mut i: usize = 0;
        assert(keys.take(0) =~= Seq::<usize>::empty());
        while rest.len() > 0
            invariant
                n == input.len(),
                n == declared,
                input == items@,
                i + rest@.len() == n,
                d == dimensions,
                keys == keys_of(input),
                forall|t: int| 0 <= t < rest@.len() ==> #[trigger] rest@[t] == input[n - 1 - t],
                matrix@.len() == i * d,
                forall|t: int| 0 <= t < i ==> #[trigger] row_of(matrix@, d as nat, t) == input[t].vector@,
                order@ == keys.take(i as int),
                indexes_last_positions(row_entries(index), keys.take(i as int)),
                all_have_dimension(input, d as nat),
            decreases rest.len(),
        {
            let mut kv = rest.pop().unwrap();
            assert(kv == input[i as int]);
            let ghost old_matrix = matrix@;
            proof {
                lemma_index_push(row_entries(index), keys.take(i as int), kv.key);
                assert(keys.take(i + 1) =~= keys.take(i as int).push(kv.key));
            }
            order.push(kv.key);
            insert_row(&mut index, kv.key, i);
            matrix.append(&mut kv.vector);
            proof {
                assert((i + 1) * d == i * d + d) by (nonlinear_arith);
                assert forall|t: int| 0 <= t < i + 1 implies #[trigger] row_of(matrix@, d as nat, t) == input[t].vector@ by {
                    if t < i {
                        assert(t * d + d <= i * d) by (nonlinear_arith)
                            requires
                                t < i,
                        ;
                        assert(row_of(matrix@, d as nat, t) =~= row_of(old_matrix, d as nat, t));
                    } else {
                        assert(row_of(matrix@, d as nat, t) =~= input[t].vector@);
                    }
                };
            }
            i = i + 1;
        }
        proof {
            assert(keys.take(n as int) =~= keys);
            assert forall|k: usize| #[trigger] row_entries(index).contains_key(k) implies row_entries(index)[k] < n by {};
        }
        let cache = KeyedVectorCache::new(index, matrix, n, d);
        Ok(KeyedVectorCacheInitContext { cache, insertion_order: order })
    }

    /// Consumes the provider and builds a cache from what it yields. At most
    /// one vector past the declared length is read: a provider that yields
    /// more, or fewer, than it declared fails, as does a vector whose length
    /// is not the declared dimensionality. Where the provider's iterator keeps
    /// to the iterator laws, the outcome is exactly that of `from_keyed_vectors`
    /// on what it yields.
    pub fn for_provider<P: VectorProvider<usize>>(provider: P) -> (r: Result<
        KeyedVectorCacheInitContext,
        ValidationFailure,
    >)
        ensures
            r is Ok ==> exists|items: Seq<KeyedVector<usize>>| is_built_from(r->Ok_0, items),
            r is Ok ==> exists|declared: usize, dimensions: u16|
                #[trigger] declares(provider, declared, dimensions) && r->Ok_0.cache.row_count() == declared
                    && r->Ok_0.cache.dims() == dimensions,
            provider.obeys_prophetic_iter_laws() ==> exists|declared: usize, dimensions: u16|
                {
                    &&& #[trigger] declares(provider, declared, dimensions)
                    &&& is_check_of_read(provider.remaining(), declared, dimensions, r)
                    &&& r is Ok ==> is_built_from(r->Ok_0, read_prefix(provider.remaining(), declared))
                },
    {
        let provided = collect_provider(provider);
        let items = provided.items;
        let ghost produced = items@;
        let ghost declared = provided.declared;
        let ghost dimensions = provided.dimensions;
        let r = Self::from_keyed_vectors(provided.declared, provided.dimensions, items);
        proof {
            if r is Ok {
                assert(is_built_from(r->Ok_0, produced));
            }
        }
        assert(declares(provider, declared, dimensions));
        r
    }
}

} // verus!
