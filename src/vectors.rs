//! Keyed vectors, the providers that bulk-load them, and the checks that a
//! provider's output must pass before anything is built from it.
use vstd::prelude::*;

use vstd::std_specs::iter::IteratorSpec;

use crate::error::ValidationFailure;

verus! {

/// A vector of components, each the bit pattern of a single-precision float,
/// under its key.
pub struct KeyedVector<K> {
    pub key: K,
    pub vector: Vec<u32>,
}

impl<K> KeyedVector<K> {
    pub fn new(key: K, vector: Vec<u32>) -> (r: Self)
        ensures
            r.key == key,
            r.vector@ == vector@,
    {
        KeyedVector { key, vector }
    }
}

impl<K> From<KeyedVector<K>> for (K, Vec<u32>) {
    fn from(value: KeyedVector<K>) -> (r: Self) {
        (value.key, value.vector)
    }
}

impl<K> vstd::std_specs::convert::FromSpecImpl<KeyedVector<K>> for (K, Vec<u32>) {
    open spec fn obeys_from_spec() -> bool {
        true
    }

    open spec fn from_spec(v: KeyedVector<K>) -> Self {
        (v.key, v.vector)
    }
}

/// A one-shot source of keyed vectors that declares how many it yields and
/// their common dimensionality.
pub trait VectorProvider<K>: Iterator<Item = KeyedVector<K>> {
    /// The number of vectors that the provider declares it yields.
    fn length(&self) -> usize;

    /// The number of components of every vector.
    fn vector_dimensions(&self) -> u16;
}

/// `declared` and `dimensions` are what the provider reports of itself.
pub open spec fn declares<K, P: VectorProvider<K>>(provider: P, declared: usize, dimensions: u16) -> bool {
    &&& call_ensures(P::length, (&provider,), declared)
    &&& call_ensures(P::vector_dimensions, (&provider,), dimensions)
}

/// Checking the vectors read from a provider that declared `declared`
/// vectors of `dimensions` components, and whose iterator yields `remaining`,
/// gives `r`: success exactly where they match the declaration, and else the
/// failure that the check reports.
pub open spec fn is_check_of_read<K, T>(
    remaining: Seq<KeyedVector<K>>,
    declared: usize,
    dimensions: u16,
    r: Result<T, ValidationFailure>,
) -> bool {
    let read = read_prefix(remaining, declared);
    &&& r is Ok <==> matches_declaration(declared, dimensions, read)
    &&& r is Err ==> is_validation_failure(declared, dimensions, read, r->Err_0)
}

/// The vectors that draining reads from a provider whose iterator yields
/// `remaining`: all of them, or one past the declared length if there are more.
pub open spec fn read_prefix<K>(remaining: Seq<KeyedVector<K>>, declared: usize) -> Seq<KeyedVector<K>> {
    if remaining.len() <= declared as int + 1 {
        remaining
    } else {
        remaining.take(declared as int + 1)
    }
}

/// Every vector of `items` has `d` components.
pub open spec fn all_have_dimension<K>(items: Seq<KeyedVector<K>>, d: nat) -> bool {
    forall|i: int| 0 <= i < items.len() ==> (#[trigger] items[i]).vector@.len() == d
}

/// The provider's output holds what it declared: `declared` vectors of
/// `dimensions` components each.
pub open spec fn matches_declaration<K>(declared: usize, dimensions: u16, items: Seq<KeyedVector<K>>) -> bool {
    items.len() == declared && all_have_dimension(items, dimensions as nat)
}

/// `e` is the failure that the check of `items` against the declaration
/// reports: a count mismatch first, else the first vector of the wrong length.
pub open spec fn is_validation_failure<K>(
    declared: usize,
    dimensions: u16,
    items: Seq<KeyedVector<K>>,
    e: ValidationFailure,
) -> bool {
    if items.len() < declared {
        e == (ValidationFailure::TooFewVectors { declared, produced: items.len() as usize })
    } else if items.len() > declared {
        e == (ValidationFailure::TooManyVectors { declared })
    } else {
        &&& e is DimensionMismatch
        &&& e->DimensionMismatch_row < items.len()
        &&& e->DimensionMismatch_expected == dimensions
        &&& e->DimensionMismatch_found == items[e->DimensionMismatch_row as int].vector@.len()
        &&& e->DimensionMismatch_found != dimensions
        &&& all_have_dimension(items.take(e->DimensionMismatch_row as int), dimensions as nat)
    }
}

/// Checks the vectors that a provider yielded against what it declared.
pub fn validate_vectors<K>(declared: usize, dimensions: u16, items: &Vec<KeyedVector<K>>) -> (r: Result<(), ValidationFailure>)
    ensures
        r is Ok <==> matches_declaration(declared, dimensions, items@),
        r is Err ==> is_validation_failure(declared, dimensions, items@, r->Err_0),
{
    let n = items.len();
    if n < declared {
        return Err(ValidationFailure::TooFewVectors { declared, produced: n });
    }
    if n > declared {
        return Err(ValidationFailure::TooManyVectors { declared });
    }
    let d = dimensions as usize;
    let mut i: usize = 0;
    while i < n
        invariant
            i <= n,
            n == items@.len(),
            n == declared,
            d == dimensions,
            all_have_dimension(items@.take(i as int), d as nat),
        decreases n - i,
    {
        let found = items[i].vector.len();
        if found != d {
            return Err(ValidationFailure::DimensionMismatch { row: i, expected: d, found });
        }
        assert(items@.take(i + 1) =~= items@.take(i as int).push(items@[i as int]));
        i = i + 1;
    }
    assert(items@.take(n as int) =~= items@);
    Ok(())
}

/// What a provider declared, and the vectors read from it.
pub struct ProvidedVectors<K> {
    pub declared: usize,
    pub dimensions: u16,
    pub items: Vec<KeyedVector<K>>,
}

/// Drains a provider, reading at most one vector past its declared length:
/// enough to tell that it yields more than it declared.
pub fn collect_provider<K, P: VectorProvider<K>>(provider: P) -> (r: ProvidedVectors<K>)
    ensures
        declares(provider, r.declared, r.dimensions),
        r.items@.len() <= r.declared as int + 1,
        provider.obeys_prophetic_iter_laws() ==> r.items@ == read_prefix(provider.remaining(), r.declared),
{
    let ghost start = provider;
    let mut provider = provider;
    let declared = provider.length();
    let dimensions = provider.vector_dimensions();
    let mut items: Vec<KeyedVector<K>> = Vec::new();
    let mut exhausted = false;
    while !exhausted && items.len() <= declared
        invariant
            items@.len() <= declared as int + 1,
            start.obeys_prophetic_iter_laws() ==> {
                &&& provider.obeys_prophetic_iter_laws()
                &&& items@.len() <= start.remaining().len()
                &&& items@ == start.remaining().take(items@.len() as int)
                &&& provider.remaining() == start.remaining().skip(items@.len() as int)
                &&& exhausted ==> items@.len() == start.remaining().len()
            },
        decreases declared as int + 1 - items@.len() + if exhausted { 0int } else { 1int },
    {
        let ghost before = items@;
        match provider.next() {
            Some(kv) => {
                items.push(kv);
                proof {
                    if start.obeys_prophetic_iter_laws() {
                        assert(items@ =~= start.remaining().take(items@.len() as int));
                        assert(provider.remaining() =~= start.remaining().skip(items@.len() as int));
                    }
                }
            },
            None => exhausted = true,
        }
    }
    assert(start.obeys_prophetic_iter_laws() && items@.len() == start.remaining().len() ==> items@
        =~= start.remaining());
    ProvidedVectors { declared, dimensions, items }
}

/// Drains a provider and checks its vectors against its declaration. Where
/// the provider's iterator keeps to the iterator laws, the outcome is exactly
/// that of checking what it yields.
pub fn load_provider<K, P: VectorProvider<K>>(provider: P) -> (r: Result<ProvidedVectors<K>, ValidationFailure>)
    ensures
        r is Ok ==> declares(provider, r->Ok_0.declared, r->Ok_0.dimensions),
        r is Ok ==> matches_declaration(r->Ok_0.declared, r->Ok_0.dimensions, r->Ok_0.items@),
        provider.obeys_prophetic_iter_laws() ==> exists|declared: usize, dimensions: u16|
            {
                &&& #[trigger] declares(provider, declared, dimensions)
                &&& is_check_of_read(provider.remaining(), declared, dimensions, r)
                &&& r is Ok ==> r->Ok_0.items@ == read_prefix(provider.remaining(), declared)
            },
{
    let provided = collect_provider(provider);
    match validate_vectors(provided.declared, provided.dimensions, &provided.items) {
        Ok(()) => Ok(provided),
        Err(e) => Err(e),
    }
}

} // verus!
