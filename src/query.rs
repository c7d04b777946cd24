//! The two engine query bodies, as JSON text: a relevance search over title
//! and body with highlighting, and an exact lookup by identifier.

use vstd::prelude::*;

verus! {

/// The JSON string literal (quoted and escaped) that writes `s`.
pub uninterp spec fn json_string_of(s: Seq<char>) -> Seq<char>;

/// Relies on serde_json's compact `Display` of `Value::String`: it writes the
/// quoted, escaped JSON string literal of its text, which depends on the
/// characters alone.
#[verifier::external_body]
fn json_quote(s: &str) -> (r: String)
    ensures
        r@ == json_string_of(s@),
{
    serde_json::Value::String(s.to_string()).to_string()
}

/// The search body around an already quoted query text: `body` weighs seven
/// times `title`; one title fragment and three body fragments of at most 100
/// characters are asked for, marked with `<b>`/`</b>`.
pub open spec fn search_query_text(quoted: Seq<char>) -> Seq<char> {
    "{\"query\":{\"multi_match\":{\"query\":"@ + quoted
        + ",\"fields\":[\"title\",\"body^7\"]}},\"highlight\":{\"pre_tags\":[\"<b>\"],\"post_tags\":[\"</b>\"],\"fields\":{\"title\":{\"number_of_fragments\":1,\"fragment_size\":100},\"body\":{\"number_of_fragments\":3,\"fragment_size\":100}}}}"@
}

/// The lookup body around an already quoted identifier: an exact match on
/// `meta.erowidId`, without highlighting.
pub open spec fn lookup_query_text(quoted: Seq<char>) -> Seq<char> {
    "{\"query\":{\"match\":{\"meta.erowidId\":"@ + quoted + "}}}"@
}

/// The search body for a query text that is already a JSON string literal.
pub fn search_query_for(quoted: &str) -> (r: String)
    ensures
        r@ == search_query_text(quoted@),
{
    let mut r = String::from_str("{\"query\":{\"multi_match\":{\"query\":");
    r.append(quoted);
    r.append(
        ",\"fields\":[\"title\",\"body^7\"]}},\"highlight\":{\"pre_tags\":[\"<b>\"],\"post_tags\":[\"</b>\"],\"fields\":{\"title\":{\"number_of_fragments\":1,\"fragment_size\":100},\"body\":{\"number_of_fragments\":3,\"fragment_size\":100}}}}",
    );
    r
}

/// The search body for free text; any text, the empty one too, is accepted.
pub fn build_search_query(text: &str) -> (r: String)
    ensures
        r@ == search_query_text(json_string_of(text@)),
{
    let quoted = json_quote(text);
    search_query_for(quoted.as_str())
}

/// The lookup body for an identifier that is already a JSON string literal.
pub fn lookup_query_for(quoted: &str) -> (r: String)
    ensures
        r@ == lookup_query_text(quoted@),
{
    let mut r = String::from_str("{\"query\":{\"match\":{\"meta.erowidId\":");
    r.append(quoted);
    r.append("}}}");
    r
}

/// The lookup body for a report identifier.
pub fn build_lookup_query(erowid_id: &str) -> (r: String)
    ensures
        r@ == lookup_query_text(json_string_of(erowid_id@)),
{
    let quoted = json_quote(erowid_id);
    lookup_query_for(quoted.as_str())
}

} // verus!
