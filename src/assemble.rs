//! Packaging projected results into the envelopes the pages are rendered from.

use vstd::prelude::*;

use crate::body::{render_body, rendered_body};
use crate::envelope::EsEnvelope;
use crate::error::PlebisError;
use crate::projector::projects_to;
use crate::report::{Report, ReportHighlight, ReportProcessed};
use crate::results::{ResultEnvelope, ResultItem};

verus! {

/// The page title for a query or identifier: it, followed by the site's name.
pub open spec fn page_title_of(q: Seq<char>) -> Seq<char> {
    q + " - Plebis"@
}

/// The page title for a query or identifier.
pub fn page_title(q: &str) -> (r: String)
    ensures
        r@ == page_title_of(q@),
{
    let mut r = String::from_str(q);
    r.append(" - Plebis");
    r
}

/// The listing page for `query`: every hit projected, in the engine's order,
/// with the engine's count of all matches.
pub fn assemble_listing(query: &str, envelope: &EsEnvelope<Report, ReportHighlight>) -> (r:
    ResultEnvelope<Vec<ResultItem>, Option<()>>)
    ensures
        r.total_results == envelope.hits.total.value,
        r.title@ == page_title_of(query@),
        r.query@ == query@,
        r.data@.len() == envelope.hits.hits@.len(),
        forall|i: int|
            0 <= i < r.data@.len() ==> projects_to(envelope.hits.hits@[i], #[trigger] r.data@[i]),
        r.extra is None,
{
    let hits = &envelope.hits.hits;
    let mut items: Vec<ResultItem> = Vec::new();
    let mut i: usize = 0;
    while i < hits.len()
        invariant
            i <= hits@.len(),
            items@.len() == i,
            forall|j: int| 0 <= j < i ==> projects_to(hits@[j], #[trigger] items@[j]),
        decreases hits@.len() - i,
    {
        let item = ResultItem::from(&hits[i]);
        items.push(item);
        i = i + 1;
    }
    ResultEnvelope {
        total_results: envelope.hits.total.value,
        title: page_title(query),
        query: String::from_str(query),
        data: items,
        extra: None,
    }
}

/// `page` is the report page for identifier `id` built from the single hit
/// of `envelope`: the report itself with its rendered body added, and its
/// projection.
pub open spec fn report_page_of(
    id: Seq<char>,
    envelope: EsEnvelope<Report, ReportHighlight>,
    page: ResultEnvelope<Report, ResultItem>,
) -> bool {
    let hit = envelope.hits.hits@[0];
    &&& page.total_results == envelope.hits.total.value
    &&& page.title@ == page_title_of(id)
    &&& page.query@ == id
    &&& projects_to(hit, page.extra)
    &&& page.data == (Report { processed: page.data.processed, ..hit.source })
    &&& page.data.processed is Some
    &&& page.data.processed->0.body@ == rendered_body(hit.source.body@)
}

/// The report page for identifier `id` from the response to its lookup. The
/// lookup must find exactly one report: none is `NotFound`, several are
/// `Ambiguous`.
pub fn assemble_report(id: &str, envelope: EsEnvelope<Report, ReportHighlight>) -> (r: Result<
    ResultEnvelope<Report, ResultItem>,
    PlebisError,
>)
    ensures
        match r {
            Ok(page) => envelope.hits.hits@.len() == 1 && report_page_of(id@, envelope, page),
            Err(PlebisError::NotFound(m)) => envelope.hits.hits@.len() == 0 && m@ == id@,
            Err(PlebisError::Ambiguous(m)) => envelope.hits.hits@.len() > 1 && m@ == id@,
            Err(_) => false,
        },
{
    let n = envelope.hits.hits.len();
    if n == 0 {
        return Err(PlebisError::NotFound(String::from_str(id)));
    }
    if n > 1 {
        return Err(PlebisError::Ambiguous(String::from_str(id)));
    }
    let ghost env = envelope;
    let total = envelope.hits.total.value;
    let mut hits = envelope.hits.hits;
    match hits.pop() {
        Some(hit) => {
            assert(hit == env.hits.hits@[0]);
            let extra = ResultItem::from(&hit);
            let rendered = render_body(hit.source.body.as_str());
            let mut data = hit.source;
            data.processed = Some(ReportProcessed { body: rendered });
            Ok(
                ResultEnvelope {
                    total_results: total,
                    title: page_title(id),
                    query: String::from_str(id),
                    data,
                    extra,
                },
            )
        },
        None => Err(PlebisError::NotFound(String::from_str(id))),
    }
}

} // verus!
