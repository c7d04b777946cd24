use plebis::envelope::{EsEnvelope, Hit, Hits, Shards, Total};
use plebis::error::PlebisError;
use plebis::report::{Meta, Report, ReportHighlight, SubstanceInfo};
use plebis::results::{ResultItem, ResultItemTag};
use plebis::{assemble, body, projector, query, text};

fn meta(id: i64) -> Meta {
    Meta {
        year: None,
        erowid_id: id,
        gender: None,
        age: None,
        published: String::from("2001-01-01"),
        views: None,
        erowid_attributes: None,
    }
}

fn report(id: i64, title: &str, body: &str) -> Report {
    Report {
        meta: meta(id),
        author: String::from("anon"),
        body: String::from(body),
        erowid_notes: vec![],
        pull_quotes: vec![],
        substance: String::from(""),
        substance_info: vec![],
        title: String::from(title),
        processed: None,
    }
}

fn hit(source: Report, highlight: Option<ReportHighlight>) -> Hit<Report, ReportHighlight> {
    Hit {
        index: String::from("reports"),
        id: String::from("x"),
        ignored: vec![],
        source,
        highlight,
    }
}

fn envelope(total: i64, hits: Vec<Hit<Report, ReportHighlight>>) -> EsEnvelope<Report, ReportHighlight> {
    EsEnvelope {
        took: 3,
        timed_out: false,
        shards: Shards { total: 1, successful: 1, skipped: 0, failed: 0 },
        hits: Hits { total: Total { value: total, relation: String::from("eq") }, hits },
    }
}

fn entry(substance: &str, form: &str, method: &str, amount: &str) -> SubstanceInfo {
    SubstanceInfo {
        amount: String::from(amount),
        method: String::from(method),
        substance: String::from(substance),
        form: String::from(form),
    }
}

fn labels(tags: &Vec<ResultItemTag>) -> Vec<String> {
    tags.iter().map(|t| t.label.clone()).collect()
}

fn strings(v: &[&str]) -> Vec<String> {
    v.iter().map(|s| String::from(*s)).collect()
}

#[test]
fn title_joins_fragments() {
    let hl = ReportHighlight { body: None, title: Some(strings(&["My <b>Trip</b>", " two"])) };
    let item = ResultItem::from(&hit(report(1, "My Trip", "b"), Some(hl)));
    assert_eq!(item.title, "My <b>Trip</b> two");
}

#[test]
fn title_falls_back_when_fragments_absent_or_empty() {
    let none = ResultItem::from(&hit(report(1, "My Trip", "b"), None));
    assert_eq!(none.title, "My Trip");
    let absent = ReportHighlight { body: None, title: None };
    assert_eq!(ResultItem::from(&hit(report(1, "My Trip", "b"), Some(absent))).title, "My Trip");
    let empty = ReportHighlight { body: None, title: Some(vec![]) };
    assert_eq!(ResultItem::from(&hit(report(1, "My Trip", "b"), Some(empty))).title, "My Trip");
}

#[test]
fn excerpt_of_short_body_keeps_it_whole() {
    let item = ResultItem::from(&hit(report(1, "t", "short body"), None));
    assert_eq!(item.display_text, "short body …");
    let empty = ResultItem::from(&hit(report(1, "t", ""), None));
    assert_eq!(empty.display_text, " …");
}

#[test]
fn excerpt_of_long_body_keeps_first_characters() {
    let body: String = "é".repeat(299) + "xyz";
    let item = ResultItem::from(&hit(report(1, "t", &body), None));
    assert_eq!(item.display_text, "é".repeat(299) + "x …");
    let exact: String = "a".repeat(300);
    let item = ResultItem::from(&hit(report(1, "t", &exact), None));
    assert_eq!(item.display_text, "a".repeat(300) + " …");
}

#[test]
fn excerpt_joins_body_fragments() {
    let hl = ReportHighlight { body: Some(strings(&["one <b>x</b>", "two"])), title: None };
    let item = ResultItem::from(&hit(report(1, "t", "body"), Some(hl)));
    assert_eq!(item.display_text, "one <b>x</b> … two … ");
}

#[test]
fn link_and_id_follow_identifier() {
    let item = ResultItem::from(&hit(report(12345, "t", "b"), None));
    assert_eq!(item.link, "/report/12345");
    assert_eq!(item.id, "12345");
}

#[test]
fn duplicate_entries_give_one_tag() {
    let mut r = report(1, "t", "b");
    r.substance_info = vec![entry("X", "", "", ""), entry("X", "", "", "")];
    let item = ResultItem::from(&hit(r, None));
    assert_eq!(labels(&item.tags), strings(&["X"]));
}

#[test]
fn forms_give_two_tags_in_byte_order() {
    let mut r = report(1, "t", "b");
    r.substance_info = vec![entry("X", "oral", "", ""), entry("X", "nasal", "", "")];
    let item = ResultItem::from(&hit(r, None));
    assert_eq!(labels(&item.tags), strings(&["X [nasal]", "X [oral]"]));
}

#[test]
fn details_are_joined_in_fixed_order() {
    let e = entry("Cannabis", "plant material", "smoked", "2 bowls");
    assert_eq!(projector::substance_label(&e), "Cannabis [plant material, smoked, 2 bowls]");
    let e = entry("LSD", "", "oral", "100 ug");
    assert_eq!(projector::substance_label(&e), "LSD [oral, 100 ug]");
}

#[test]
fn tags_are_sorted_and_repeatable() {
    let infos = vec![
        entry("b", "", "", ""),
        entry("a", "", "", ""),
        entry("B", "", "", ""),
        entry("b", "", "", ""),
        entry("é", "", "", ""),
        entry("ab", "", "", ""),
    ];
    let first = labels(&projector::substance_tags(&infos));
    let second = labels(&projector::substance_tags(&infos));
    assert_eq!(first, strings(&["B", "a", "ab", "b", "é"]));
    assert_eq!(first, second);
}

#[test]
fn entry_tags_keep_gender_age_year_order() {
    let mut m = meta(1);
    m.year = Some(2004);
    m.age = Some(25);
    m.gender = Some(String::from("Female"));
    assert_eq!(labels(&projector::entry_tags(&m)), strings(&["Female", "25y", "2004"]));
    m.age = None;
    assert_eq!(labels(&projector::entry_tags(&m)), strings(&["Female", "2004"]));
    m.gender = None;
    m.year = None;
    assert!(projector::entry_tags(&m).is_empty());
}

#[test]
fn report_with_no_hits_is_not_found() {
    let r = assemble::assemble_report("777", envelope(0, vec![]));
    match r {
        Err(PlebisError::NotFound(id)) => assert_eq!(id, "777"),
        _ => panic!("expected NotFound"),
    }
}

#[test]
fn report_with_two_hits_is_ambiguous() {
    let hits = vec![hit(report(7, "a", "b"), None), hit(report(7, "a", "b"), None)];
    match assemble::assemble_report("7", envelope(2, hits)) {
        Err(PlebisError::Ambiguous(id)) => assert_eq!(id, "7"),
        _ => panic!("expected Ambiguous"),
    }
}

#[test]
fn report_page_carries_document_and_projection() {
    let src = report(7, "A night", "  First line\r\nsecond \r\n\r\nNext");
    let page = assemble::assemble_report("7", envelope(1, vec![hit(src, None)])).ok().unwrap();
    assert_eq!(page.total_results, 1);
    assert_eq!(page.title, "7 - Plebis");
    assert_eq!(page.query, "7");
    assert_eq!(page.data.title, "A night");
    assert_eq!(page.data.processed.unwrap().body, "<p>First line<br>second</p>\n<p>Next</p>");
    assert_eq!(page.extra.link, "/report/7");
}

#[test]
fn listing_keeps_total_and_order() {
    let hits: Vec<_> = (0..10).map(|i| hit(report(100 + i, "t", "b"), None)).collect();
    let page = assemble::assemble_listing("q", &envelope(42, hits));
    assert_eq!(page.total_results, 42);
    assert_eq!(page.data.len(), 10);
    for (i, item) in page.data.iter().enumerate() {
        assert_eq!(item.id, format!("{}", 100 + i));
    }
    assert!(page.extra.is_none());
}

#[test]
fn mushrooms_end_to_end() {
    let q = query::build_search_query("mushrooms");
    assert_eq!(
        q,
        "{\"query\":{\"multi_match\":{\"query\":\"mushrooms\",\"fields\":[\"title\",\"body^7\"]}},\"highlight\":{\"pre_tags\":[\"<b>\"],\"post_tags\":[\"</b>\"],\"fields\":{\"title\":{\"number_of_fragments\":1,\"fragment_size\":100},\"body\":{\"number_of_fragments\":3,\"fragment_size\":100}}}}"
    );
    let page = assemble::assemble_listing("mushrooms", &envelope(1, vec![hit(report(12345, "My Trip", "b"), None)]));
    assert_eq!(page.title, "mushrooms - Plebis");
    assert_eq!(page.query, "mushrooms");
    assert_eq!(page.data[0].title, "My Trip");
    assert_eq!(page.data[0].link, "/report/12345");
}

#[test]
fn lookup_query_quotes_identifier() {
    assert_eq!(query::build_lookup_query("12\"3"), "{\"query\":{\"match\":{\"meta.erowidId\":\"12\\\"3\"}}}");
    assert_eq!(query::lookup_query_for("\"5\""), "{\"query\":{\"match\":{\"meta.erowidId\":\"5\"}}}");
}

#[test]
fn empty_search_text_is_accepted() {
    assert!(query::build_search_query("").contains("\"query\":\"\","));
}

#[test]
fn decimal_rendering() {
    assert_eq!(text::decimal_string(0), "0");
    assert_eq!(text::decimal_string(-45), "-45");
    assert_eq!(text::decimal_string(i64::MIN), "-9223372036854775808");
    assert_eq!(text::decimal_string(i64::MAX), "9223372036854775807");
}

#[test]
fn ordinal_order_and_join() {
    assert!(text::lex_less("Z", "a"));
    assert!(text::lex_less("ab", "abc"));
    assert!(!text::lex_less("abc", "abc"));
    assert!(text::lex_less("z", "é"));
    assert_eq!(text::join_strings(&strings(&["a", "b", "c"]), ", "), "a, b, c");
}

#[test]
fn body_rendering() {
    assert_eq!(body::render_body(""), "<p></p>");
    assert_eq!(body::render_body("a\r\n\r\n\r\nb"), "<p>a</p>\n<p>b</p>");
    assert_eq!(body::render_body("\u{3000}x\u{a0}\r\n\r\n y\r\nz"), "<p>x</p>\n<p>y<br>z</p>");
}
