//! The display-ready records handed to the presentation layer.

use vstd::prelude::*;

verus! {

/// A short label shown beside a result.
pub struct ResultItemTag {
    pub label: String,
}

/// One result, flattened for display.
pub struct ResultItem {
    pub id: String,
    pub title: String,
    pub display_text: String,
    pub link: String,
    /// Substance tags: distinct labels in ordinal order.
    pub tags: Vec<ResultItemTag>,
    /// Metadata tags: gender, age, year, in that order, each when present.
    pub entry_tags: Vec<ResultItemTag>,
}

/// What a page is rendered from: the query, the match count, and the
/// page's payload (`data`) with an extra value (`extra`).
pub struct ResultEnvelope<T, P> {
    pub total_results: i64,
    pub title: String,
    pub query: String,
    pub data: T,
    pub extra: P,
}

/// The labels of a tag list, in order.
pub open spec fn tag_labels(tags: Seq<ResultItemTag>) -> Seq<Seq<char>> {
    tags.map_values(|t: ResultItemTag| t.label@)
}

} // verus!
