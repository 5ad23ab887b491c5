use vstd::prelude::*;
use crate::cache::CacheError;
use crate::currency_service::CurrencyServiceError;
use crate::models::{CurrencyCode, uppercase_of};

verus! {

/// The cache key for the rate between the currencies written `source`
/// and `target`: `"{source}-{target}"`.
pub fn pair_cache_key(source: &str, target: &str) -> (r: String)
    ensures
        r@ == source@ + "-"@ + target@,
{
    let mut r = String::from_str(source);
    r.append("-");
    r.append(target);
    r
}

/// The cache key for the rate of `source` against `target`:
/// `"{SOURCE}-{TARGET}"`, with both codes in their canonical form.
pub fn create_cache_key(source: &CurrencyCode, target: &CurrencyCode) -> (r: String)
    ensures
        r@ == uppercase_of(source@) + "-"@ + uppercase_of(target@),
{
    let s = source.to_string();
    let t = target.to_string();
    pair_cache_key(s.as_str(), t.as_str())
}

/// The cache key for every rate of `source`: `"{SOURCE}"`.
pub fn create_rates_cache_key(source: &CurrencyCode) -> (r: String)
    ensures
        r@ == uppercase_of(source@),
{
    source.to_string()
}

/// What reading the cache at a key gave.
pub enum CacheRead<V> {
    /// A stored text that decoded into a value of the expected shape.
    Found(V),
    /// A stored text that did not decode.
    Undecodable(String),
    /// Nothing is stored at the key.
    Absent,
    /// The backend could not be read.
    Failed(CacheError),
}

/// What the decorator's runner reports back after a step.
pub enum CacheEvent<V> {
    /// The cache was read.
    Read(CacheRead<V>),
    /// The wrapped service answered.
    Delegated(Result<V, CurrencyServiceError>),
    /// The value was encoded and written to the cache, or that failed.
    Stored(Result<(), CacheError>),
}

/// Where a cache-aside lookup stands, and what its runner does next.
pub enum CacheStep<V> {
    /// Read the cache at `key`, decoding what is there.
    Lookup { key: String },
    /// Ask the wrapped service.
    Delegate { key: String },
    /// Encode `value` and write it to the cache at `key`.
    Store { key: String, value: V },
    /// The lookup is over, with this result.
    Done(Result<V, CurrencyServiceError>),
}

/// The step that follows `step` once `event` is reported.  A decoded
/// cached value is returned at once; anything else read from the cache is
/// a miss that goes to the wrapped service.  A success of the wrapped
/// service is stored before it is returned; its failure is returned as
/// it is.  A failed write ends the lookup with that failure.  An event
/// that does not answer the step changes nothing.
pub open spec fn next_step<V>(step: CacheStep<V>, event: CacheEvent<V>) -> CacheStep<V> {
    match step {
        CacheStep::Lookup { key } => match event {
            CacheEvent::Read(CacheRead::Found(value)) => CacheStep::Done(Ok(value)),
            CacheEvent::Read(_) => CacheStep::Delegate { key },
            _ => step,
        },
        CacheStep::Delegate { key } => match event {
            CacheEvent::Delegated(Ok(value)) => CacheStep::Store { key, value },
            CacheEvent::Delegated(Err(e)) => CacheStep::Done(Err(e)),
            _ => step,
        },
        CacheStep::Store { key, value } => match event {
            CacheEvent::Stored(Ok(())) => CacheStep::Done(Ok(value)),
            CacheEvent::Stored(Err(CacheError::UnknownError(detail))) => CacheStep::Done(
                Err(CurrencyServiceError::Other(detail)),
            ),
            _ => step,
        },
        CacheStep::Done(_) => step,
    }
}

impl<V> CacheStep<V> {
    /// The first step of a lookup at `key`.
    pub fn lookup(key: String) -> (r: CacheStep<V>)
        ensures
            r == (CacheStep::<V>::Lookup { key }),
    {
        CacheStep::Lookup { key }
    }

    /// Whether the lookup is over.
    pub fn is_done(&self) -> (r: bool)
        ensures
            r == (*self is Done),
    {
        match self {
            CacheStep::Done(_) => true,
            _ => false,
        }
    }

    /// The step that follows this one once `event` is reported.
    pub fn advance(self, event: CacheEvent<V>) -> (r: CacheStep<V>)
        ensures
            r == next_step(self, event),
    {
        match self {
            CacheStep::Lookup { key } => match event {
                CacheEvent::Read(CacheRead::Found(value)) => CacheStep::Done(Ok(value)),
                CacheEvent::Read(_) => CacheStep::Delegate { key },
                _ => CacheStep::Lookup { key },
            },
            CacheStep::Delegate { key } => match event {
                CacheEvent::Delegated(Ok(value)) => CacheStep::Store { key, value },
                CacheEvent::Delegated(Err(e)) => CacheStep::Done(Err(e)),
                _ => CacheStep::Delegate { key },
            },
            CacheStep::Store { key, value } => match event {
                CacheEvent::Stored(Ok(())) => CacheStep::Done(Ok(value)),
                CacheEvent::Stored(Err(CacheError::UnknownError(detail))) => CacheStep::Done(
                    Err(CurrencyServiceError::Other(detail)),
                ),
                _ => CacheStep::Store { key, value },
            },
            CacheStep::Done(result) => CacheStep::Done(result),
        }
    }
}

/// What a cache that holds `cache` gives when read at `key`.
pub open spec fn read_from<V>(cache: Map<Seq<char>, V>, key: Seq<char>) -> CacheRead<V> {
    if cache.contains_key(key) {
        CacheRead::Found(cache[key])
    } else {
        CacheRead::Absent
    }
}

/// One lookup at `key` run to its end against a cache that holds `cache`
/// and gives back what was written to it, and a wrapped service that
/// answers `wrapped`: the final step, what the cache then holds, and how
/// many times the wrapped service was asked.
pub open spec fn serve<V>(
    key: String,
    cache: Map<Seq<char>, V>,
    wrapped: Result<V, CurrencyServiceError>,
) -> (CacheStep<V>, Map<Seq<char>, V>, nat) {
    let looked = next_step(CacheStep::Lookup { key }, CacheEvent::Read(read_from(cache, key@)));
    match looked {
        CacheStep::Delegate { .. } => {
            let answered = next_step(looked, CacheEvent::Delegated(wrapped));
            match answered {
                CacheStep::Store { key: stored_key, value } => (
                    next_step(answered, CacheEvent::Stored(Ok(()))),
                    cache.insert(stored_key@, value),
                    1,
                ),
                _ => (answered, cache, 1),
            }
        },
        _ => (looked, cache, 0),
    }
}

/// Whatever the cache gives other than a decoded value (nothing, a text
/// that does not decode, a backend failure), the lookup is a miss that
/// goes to the wrapped service, under the same key.
pub proof fn lemma_unusable_entry_is_a_miss<V>(key: String, read: CacheRead<V>)
    requires
        !(read is Found),
    ensures
        next_step(CacheStep::Lookup { key }, CacheEvent::Read(read)) == (CacheStep::<V>::Delegate {
            key,
        }),
{
}

/// Two lookups of one key, from an empty cache and with a wrapped service
/// that succeeds, give the same result; the first stores the value under
/// the key, and only the first reaches the wrapped service.
pub proof fn lemma_second_lookup_hits<V>(key: String, wrapped: Result<V, CurrencyServiceError>)
    requires
        wrapped is Ok,
    ensures
        ({
            let first = serve(key, Map::empty(), wrapped);
            let second = serve(key, first.1, wrapped);
            &&& first.0 == CacheStep::<V>::Done(wrapped)
            &&& second.0 == first.0
            &&& first.1.contains_key(key@)
            &&& Ok::<V, CurrencyServiceError>(first.1[key@]) == wrapped
            &&& second.1 == first.1
            &&& first.2 + second.2 == 1
        }),
{
    let first = serve(key, Map::empty(), wrapped);
    assert(first.1 =~= Map::<Seq<char>, V>::empty().insert(key@, wrapped->Ok_0));
}

} // verus!
