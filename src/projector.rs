//! Projection of one engine hit into a display-ready `ResultItem`.

use vstd::prelude::*;

use crate::envelope::Hit;
use crate::report::{Meta, Report, ReportHighlight, SubstanceInfo};
use crate::results::{tag_labels, ResultItem, ResultItemTag};
use crate::text::{decimal_of, decimal_string, join, join_strings, lex_less, lex_lt};
use crate::text::{lemma_lex_irreflexive, lemma_lex_total, lemma_lex_transitive};

verus! {

/// How many characters of the body the fallback excerpt keeps.
pub const EXCERPT_CHARS: usize = 300;

/// Whether an optional fragment list is present and non-empty.
pub open spec fn has_fragments(f: Option<Vec<String>>) -> bool {
    match f {
        Some(v) => v@.len() > 0,
        None => false,
    }
}

pub open spec fn title_fragments(hit: Hit<Report, ReportHighlight>) -> Option<Vec<String>> {
    match hit.highlight {
        Some(h) => h.title,
        None => None,
    }
}

pub open spec fn body_fragments(hit: Hit<Report, ReportHighlight>) -> Option<Vec<String>> {
    match hit.highlight {
        Some(h) => h.body,
        None => None,
    }
}

/// The displayed title: the title fragments run together when there are
/// any, else the report's own title.
pub open spec fn title_of(hit: Hit<Report, ReportHighlight>) -> Seq<char> {
    if has_fragments(title_fragments(hit)) {
        join(title_fragments(hit)->0@, ""@)
    } else {
        hit.source.title@
    }
}

/// The displayed excerpt: the body fragments joined by `" … "` with a
/// trailing `" … "`, else the body's first characters followed by `" …"`.
pub open spec fn excerpt_of(hit: Hit<Report, ReportHighlight>) -> Seq<char> {
    if has_fragments(body_fragments(hit)) {
        join(body_fragments(hit)->0@, " … "@) + " … "@
    } else if hit.source.body@.len() <= EXCERPT_CHARS {
        hit.source.body@ + " …"@
    } else {
        hit.source.body@.take(EXCERPT_CHARS as int) + " …"@
    }
}

/// The permalink of a report.
pub open spec fn link_of(erowid_id: i64) -> Seq<char> {
    "/report/"@ + decimal_of(erowid_id as int)
}

/// The non-empty details of a substance entry, in the order form, method, amount.
pub open spec fn detail_parts(e: SubstanceInfo) -> Seq<String> {
    let a = if e.form@.len() > 0 { seq![e.form] } else { Seq::empty() };
    let b = if e.method@.len() > 0 { a.push(e.method) } else { a };
    if e.amount@.len() > 0 { b.push(e.amount) } else { b }
}

/// The tag label of a substance entry: the substance, followed by
/// `" [details]"` when any detail is given.
pub open spec fn label_of(e: SubstanceInfo) -> Seq<char> {
    if detail_parts(e).len() > 0 {
        e.substance@ + " ["@ + join(detail_parts(e), ", "@) + "]"@
    } else {
        e.substance@
    }
}

/// Every label sorts strictly before the ones after it (so none repeats).
pub open spec fn strictly_ordered(ls: Seq<Seq<char>>) -> bool {
    forall|i: int, j: int| 0 <= i < j < ls.len() ==> lex_lt(#[trigger] ls[i], #[trigger] ls[j])
}

pub open spec fn is_label_in(infos: Seq<SubstanceInfo>, x: Seq<char>) -> bool {
    exists|k: int| 0 <= k < infos.len() && label_of(#[trigger] infos[k]) == x
}

/// `ls` holds the distinct labels of `infos`, each once, in ordinal order.
pub open spec fn substance_tags_of(ls: Seq<Seq<char>>, infos: Seq<SubstanceInfo>) -> bool {
    &&& strictly_ordered(ls)
    &&& forall|x: Seq<char>| #[trigger] ls.contains(x) <==> is_label_in(infos, x)
}

/// The metadata labels up to the gender.
pub open spec fn gender_labels(m: Meta) -> Seq<Seq<char>> {
    match m.gender {
        Some(g) => seq![g@],
        None => Seq::empty(),
    }
}

/// The metadata labels up to the age.
pub open spec fn gender_age_labels(m: Meta) -> Seq<Seq<char>> {
    match m.age {
        Some(a) => gender_labels(m).push(decimal_of(a as int) + "y"@),
        None => gender_labels(m),
    }
}

/// The metadata labels: gender, `"<age>y"`, year, each only when present.
pub open spec fn entry_labels_of(m: Meta) -> Seq<Seq<char>> {
    match m.year {
        Some(y) => gender_age_labels(m).push(decimal_of(y as int)),
        None => gender_age_labels(m),
    }
}

/// `r` is the projection of `hit`.
pub open spec fn projects_to(hit: Hit<Report, ReportHighlight>, r: ResultItem) -> bool {
    &&& r.id@ == decimal_of(hit.source.meta.erowid_id as int)
    &&& r.title@ == title_of(hit)
    &&& r.display_text@ == excerpt_of(hit)
    &&& r.link@ == link_of(hit.source.meta.erowid_id)
    &&& substance_tags_of(tag_labels(r.tags@), hit.source.substance_info@)
    &&& tag_labels(r.entry_tags@) == entry_labels_of(hit.source.meta)
}

/// The displayed title of a hit.
pub fn select_title(hit: &Hit<Report, ReportHighlight>) -> (r: String)
    ensures
        r@ == title_of(*hit),
        has_fragments(title_fragments(*hit)) ==> r@ == join(title_fragments(*hit)->0@, ""@),
        !has_fragments(title_fragments(*hit)) ==> r@ == hit.source.title@,
{
    if let Some(h) = &hit.highlight {
        if let Some(f) = &h.title {
            if f.len() > 0 {
                return join_strings(f, "");
            }
        }
    }
    hit.source.title.clone()
}

/// The displayed excerpt of a hit. A body shorter than the excerpt length is
/// kept whole.
pub fn select_excerpt(hit: &Hit<Report, ReportHighlight>) -> (r: String)
    ensures
        r@ == excerpt_of(*hit),
        !has_fragments(body_fragments(*hit)) && hit.source.body@.len() < EXCERPT_CHARS
            ==> r@ == hit.source.body@ + " …"@,
{
    if let Some(h) = &hit.highlight {
        if let Some(f) = &h.body {
            if f.len() > 0 {
                let mut r = join_strings(f, " … ");
                r.append(" … ");
                return r;
            }
        }
    }
    let body = hit.source.body.as_str();
    let n = body.unicode_len();
    let mut r = if n <= EXCERPT_CHARS {
        String::from_str(body)
    } else {
        String::from_str(body.substring_char(0, EXCERPT_CHARS))
    };
    proof {
        if n <= EXCERPT_CHARS {
            assert(body@.subrange(0, n as int) =~= body@);
        }
    }
    r.append(" …");
    r
}

/// The permalink of the report with identifier `erowid_id`.
pub fn report_link(erowid_id: i64) -> (r: String)
    ensures
        r@ == link_of(erowid_id),
{
    let mut r = String::from_str("/report/");
    let digits = decimal_string(erowid_id);
    r.append(digits.as_str());
    r
}

/// The tag label of one substance entry.
pub fn substance_label(info: &SubstanceInfo) -> (r: String)
    ensures
        r@ == label_of(*info),
{
    let mut parts: Vec<String> = Vec::new();
    if info.form.as_str().unicode_len() > 0 {
        parts.push(info.form.clone());
    }
    if info.method.as_str().unicode_len() > 0 {
        parts.push(info.method.clone());
    }
    if info.amount.as_str().unicode_len() > 0 {
        parts.push(info.amount.clone());
    }
    assert(parts@ =~= detail_parts(*info));
    let mut r = info.substance.clone();
    if parts.len() > 0 {
        let details = join_strings(&parts, ", ");
        r.append(" [");
        r.append(details.as_str());
        r.append("]");
    }
    r
}

/// Adds `label` to an ordered tag list unless it is already there.
fn insert_tag(tags: &mut Vec<ResultItemTag>, label: String)
    requires
        strictly_ordered(tag_labels(old(tags)@)),
    ensures
        strictly_ordered(tag_labels(final(tags)@)),
        forall|x: Seq<char>|
            #[trigger] tag_labels(final(tags)@).contains(x) <==> (tag_labels(old(tags)@).contains(x)
                || x == label@),
{
    let ghost ls = tag_labels(tags@);
    let n = tags.len();
    let mut i: usize = 0;
    let mut stop = false;
    while i < n && !stop
        invariant
            n == tags@.len(),
            ls == tag_labels(tags@),
            i <= n,
            forall|j: int| 0 <= j < i ==> lex_lt(#[trigger] ls[j], label@),
            stop ==> i < n && !lex_lt(ls[i as int], label@),
        decreases (n - i) * 2 + if stop { 0int } else { 1int },
    {
        if lex_less(tags[i].label.as_str(), label.as_str()) {
            i = i + 1;
        } else {
            stop = true;
        }
    }
    if i < n && tags[i].label == label {
        assert(ls[i as int] == label@);
        return;
    }
    proof {
        if i < n {
            lemma_lex_total(ls[i as int], label@);
            assert forall|j: int| i <= j < n implies lex_lt(label@, #[trigger] ls[j]) by {
                if j > i {
                    lemma_lex_transitive(label@, ls[i as int], ls[j]);
                }
            }
        }
    }
    let ghost l = label@;
    tags.insert(i, ResultItemTag { label });
    proof {
        let nl = tag_labels(tags@);
        assert(nl =~= ls.insert(i as int, l));
        assert forall|a: int, b: int| 0 <= a < b < nl.len() implies lex_lt(
            #[trigger] nl[a],
            #[trigger] nl[b],
        ) by {
            if b < i {
            } else if b == i {
            } else if a < i {
                assert(lex_lt(ls[a], ls[b - 1]));
            } else if a == i {
            } else {
                assert(lex_lt(ls[a - 1], ls[b - 1]));
            }
        }
        assert forall|x: Seq<char>| #[trigger] nl.contains(x) <==> (ls.contains(x) || x == l) by {
            if nl.contains(x) {
                let k = choose|k: int| 0 <= k < nl.len() && nl[k] == x;
                if k < i {
                    assert(ls[k] == x);
                } else if k > i {
                    assert(ls[k - 1] == x);
                }
            }
            if ls.contains(x) {
                let k = choose|k: int| 0 <= k < ls.len() && ls[k] == x;
                if k < i {
                    assert(nl[k] == x);
                } else {
                    assert(nl[k + 1] == x);
                }
            }
            if x == l {
                assert(nl[i as int] == x);
            }
        }
    }
}

/// The substance tags of a report: each distinct entry label once, in
/// ordinal order.
pub fn substance_tags(infos: &Vec<SubstanceInfo>) -> (r: Vec<ResultItemTag>)
    ensures
        substance_tags_of(tag_labels(r@), infos@),
{
    let mut tags: Vec<ResultItemTag> = Vec::new();
    let mut i: usize = 0;
    assert(tag_labels(tags@) =~= Seq::<Seq<char>>::empty());
    while i < infos.len()
        invariant
            i <= infos@.len(),
            strictly_ordered(tag_labels(tags@)),
            forall|x: Seq<char>|
                #[trigger] tag_labels(tags@).contains(x) <==> is_label_in(infos@.take(i as int), x),
        decreases infos@.len() - i,
    {
        let label = substance_label(&infos[i]);
        insert_tag(&mut tags, label);
        proof {
            let pre = infos@.take(i as int);
            let post = infos@.take(i + 1);
            assert forall|x: Seq<char>| is_label_in(post, x) <==> (is_label_in(pre, x) || x
                == label_of(infos@[i as int])) by {
                if is_label_in(post, x) {
                    let k = choose|k: int| 0 <= k < post.len() && label_of(post[k]) == x;
                    if k < i {
                        assert(pre[k] == post[k]);
                    }
                }
                if is_label_in(pre, x) {
                    let k = choose|k: int| 0 <= k < pre.len() && label_of(pre[k]) == x;
                    assert(post[k] == pre[k]);
                }
                if x == label_of(infos@[i as int]) {
                    assert(post[i as int] == infos@[i as int]);
                }
            }
        }
        i = i + 1;
    }
    assert(infos@.take(i as int) =~= infos@);
    tags
}

/// The metadata tags of a report: gender, `"<age>y"` and year, in that
/// order, each only when present.
pub fn entry_tags(meta: &Meta) -> (r: Vec<ResultItemTag>)
    ensures
        tag_labels(r@) == entry_labels_of(*meta),
{
    let mut tags: Vec<ResultItemTag> = Vec::new();
    if let Some(gender) = &meta.gender {
        tags.push(ResultItemTag { label: gender.clone() });
    }
    assert(tag_labels(tags@) =~= gender_labels(*meta));
    if let Some(age) = meta.age {
        let mut label = decimal_string(age);
        label.append("y");
        tags.push(ResultItemTag { label });
    }
    assert(tag_labels(tags@) =~= gender_age_labels(*meta));
    if let Some(year) = meta.year {
        tags.push(ResultItemTag { label: decimal_string(year) });
    }
    assert(tag_labels(tags@) =~= entry_labels_of(*meta));
    tags
}

impl ResultItem {
    /// Projects one hit into its display record.
    pub fn from(hit: &Hit<Report, ReportHighlight>) -> (r: ResultItem)
        ensures
            projects_to(*hit, r),
    {
        ResultItem {
            id: decimal_string(hit.source.meta.erowid_id),
            title: select_title(hit),
            display_text: select_excerpt(hit),
            link: report_link(hit.source.meta.erowid_id),
            tags: substance_tags(&hit.source.substance_info),
            entry_tags: entry_tags(&hit.source.meta),
        }
    }
}

} // verus!

verus! {

/// Two strictly ordered label lists with the same members are the same list.
proof fn lemma_ordered_unique(a: Seq<Seq<char>>, b: Seq<Seq<char>>)
    requires
        strictly_ordered(a),
        strictly_ordered(b),
        forall|x: Seq<char>| a.contains(x) <==> b.contains(x),
    ensures
        a == b,
    decreases a.len(),
{
    if a.len() == 0 {
        if b.len() > 0 {
            assert(b.contains(b[0]));
        }
        assert(a =~= b);
    } else {
        assert(a.contains(a[0]));
        assert(b.len() > 0);
        assert(b.contains(b[0]));
        let k = choose|k: int| 0 <= k < b.len() && b[k] == a[0];
        let m = choose|m: int| 0 <= m < a.len() && a[m] == b[0];
        if k > 0 {
            assert(lex_lt(b[0], b[k]));
            if m > 0 {
                assert(lex_lt(a[0], a[m]));
                crate::text::lemma_lex_asymmetric(a[0], b[0]);
            } else {
                lemma_lex_irreflexive(a[0]);
            }
        }
        assert(b[0] == a[0]);
        let ta = a.drop_first();
        let tb = b.drop_first();
        assert forall|x: Seq<char>| ta.contains(x) <==> tb.contains(x) by {
            if ta.contains(x) {
                let j = choose|j: int| 0 <= j < ta.len() && ta[j] == x;
                assert(lex_lt(a[0], a[j + 1]));
                lemma_lex_irreflexive(x);
                assert(a.contains(x));
                let l = choose|l: int| 0 <= l < b.len() && b[l] == x;
                assert(l != 0);
                assert(tb[l - 1] == x);
            }
            if tb.contains(x) {
                let j = choose|j: int| 0 <= j < tb.len() && tb[j] == x;
                assert(lex_lt(b[0], b[j + 1]));
                lemma_lex_irreflexive(x);
                assert(b.contains(x));
                let l = choose|l: int| 0 <= l < a.len() && a[l] == x;
                assert(l != 0);
                assert(ta[l - 1] == x);
            }
        }
        lemma_ordered_unique(ta, tb);
        assert(a =~= seq![a[0]] + ta);
        assert(b =~= seq![b[0]] + tb);
    }
}

/// The substance tags are fully determined by the entries: any two tag
/// lists that meet the projection's contract for the same entries are the
/// same list, so repeated projections of one report order its tags alike.
pub proof fn lemma_substance_tags_deterministic(
    infos: Seq<SubstanceInfo>,
    a: Seq<Seq<char>>,
    b: Seq<Seq<char>>,
)
    requires
        substance_tags_of(a, infos),
        substance_tags_of(b, infos),
    ensures
        a == b,
{
    assert forall|x: Seq<char>| a.contains(x) <==> b.contains(x) by {
        assert(a.contains(x) <==> is_label_in(infos, x));
        assert(b.contains(x) <==> is_label_in(infos, x));
    }
    lemma_ordered_unique(a, b);
}

} // verus!
