//! The search engine's response envelope, generic over the document and
//! highlight shapes. Relevance scores are floating point and are not carried
//! here; the order of `hits` is the engine's relevance order.

use vstd::prelude::*;

verus! {

/// A full response: timing, shard statistics and the hits.
pub struct EsEnvelope<T, H> {
    pub took: i64,
    pub timed_out: bool,
    pub shards: Shards,
    pub hits: Hits<T, H>,
}

/// Shard statistics of one response.
pub struct Shards {
    pub total: i64,
    pub successful: i64,
    pub skipped: i64,
    pub failed: i64,
}

/// The hit list with the engine's count of all matches.
pub struct Hits<T, H> {
    pub total: Total,
    pub hits: Vec<Hit<T, H>>,
}

/// Count of all matches; `relation` is `"eq"` or `"gte"`.
pub struct Total {
    pub value: i64,
    pub relation: String,
}

/// One matched document with its highlight fragments, if any were found.
pub struct Hit<T, H> {
    pub index: String,
    pub id: String,
    pub ignored: Vec<String>,
    pub source: T,
    pub highlight: Option<H>,
}

} // verus!
