//! Rendering a report's raw body for the report page: paragraphs split at
//! each `\r\n\r\n`, trimmed, wrapped in `<p>…</p>`, with the remaining line
//! breaks written `<br>`, one paragraph per line.

use vstd::prelude::*;

use vstd::std_specs::iter::IteratorSpec;

use crate::text::push_char;

verus! {

broadcast use vstd::string::group_string_axioms;

/// Unicode's White_Space property, the set `char::is_whitespace` tests.
pub open spec fn is_white_space(c: char) -> bool {
    let u = c as u32;
    (9 <= u <= 13) || u == 32 || u == 0x85 || u == 0xA0 || u == 0x1680 || (0x2000 <= u
        <= 0x200A) || u == 0x2028 || u == 0x2029 || u == 0x202F || u == 0x205F || u == 0x3000
}

pub open spec fn trim_start(s: Seq<char>) -> Seq<char>
    decreases s.len(),
{
    if s.len() > 0 && is_white_space(s[0]) {
        trim_start(s.drop_first())
    } else {
        s
    }
}

pub open spec fn trim_end(s: Seq<char>) -> Seq<char>
    decreases s.len(),
{
    if s.len() > 0 && is_white_space(s.last()) {
        trim_end(s.drop_last())
    } else {
        s
    }
}

/// `s` without leading and trailing white space.
pub open spec fn trim(s: Seq<char>) -> Seq<char> {
    trim_end(trim_start(s))
}

/// Whether `pat` occurs in `s` at position `i`.
pub open spec fn occurs_at(s: Seq<char>, i: int, pat: Seq<char>) -> bool {
    0 <= i && i + pat.len() <= s.len() && s.subrange(i, i + pat.len()) == pat
}

/// The pieces of `s` between the occurrences of a non-empty `pat`, found
/// from the left without overlap; there is always at least one piece.
pub open spec fn split_on(s: Seq<char>, pat: Seq<char>) -> Seq<Seq<char>>
    decreases s.len(),
{
    if pat.len() == 0 || s.len() < pat.len() {
        seq![s]
    } else if occurs_at(s, 0, pat) {
        seq![Seq::empty()] + split_on(s.skip(pat.len() as int), pat)
    } else {
        prepend_first(seq![s[0]], split_on(s.drop_first(), pat))
    }
}

/// `r` with `c` written before its first piece.
pub open spec fn prepend_first(c: Seq<char>, r: Seq<Seq<char>>) -> Seq<Seq<char>> {
    r.update(0, c + r[0])
}

/// `s` with each occurrence of a non-empty `pat`, found from the left without
/// overlap, replaced by `rep`.
pub open spec fn replace_all(s: Seq<char>, pat: Seq<char>, rep: Seq<char>) -> Seq<char>
    decreases s.len(),
{
    if pat.len() == 0 || s.len() < pat.len() {
        s
    } else if occurs_at(s, 0, pat) {
        rep + replace_all(s.skip(pat.len() as int), pat, rep)
    } else {
        seq![s[0]] + replace_all(s.drop_first(), pat, rep)
    }
}

/// One paragraph as HTML.
pub open spec fn paragraph_html(section: Seq<char>) -> Seq<char> {
    "<p>"@ + replace_all(trim(section), "\r\n"@, "<br>"@) + "</p>"@
}

/// The paragraphs as HTML, one per line.
pub open spec fn paragraphs_html(sections: Seq<Seq<char>>) -> Seq<char>
    decreases sections.len(),
{
    if sections.len() == 0 {
        Seq::empty()
    } else if sections.len() == 1 {
        paragraph_html(sections[0])
    } else {
        paragraphs_html(sections.drop_last()) + "\n"@ + paragraph_html(sections.last())
    }
}

/// The report page's rendering of a raw body.
pub open spec fn rendered_body(body: Seq<char>) -> Seq<char> {
    paragraphs_html(split_on(body, "\r\n\r\n"@))
}

proof fn lemma_split_nonempty(s: Seq<char>, pat: Seq<char>)
    ensures
        split_on(s, pat).len() >= 1,
    decreases s.len(),
{
    if !(pat.len() == 0 || s.len() < pat.len()) {
        if occurs_at(s, 0, pat) {
            lemma_split_nonempty(s.skip(pat.len() as int), pat);
        } else {
            lemma_split_nonempty(s.drop_first(), pat);
        }
    }
}

/// Without an occurrence at the front, the first character joins the first piece.
proof fn lemma_split_step(s: Seq<char>, pat: Seq<char>)
    requires
        pat.len() > 0,
        s.len() > 0,
        !occurs_at(s, 0, pat),
    ensures
        split_on(s, pat) == prepend_first(seq![s[0]], split_on(s.drop_first(), pat)),
{
    if s.len() < pat.len() {
        assert(s.drop_first().len() < pat.len());
        assert(seq![s[0]] + s.drop_first() =~= s);
        assert(prepend_first(seq![s[0]], seq![s.drop_first()]) =~= seq![s]);
    }
}

/// The same, for replacement.
proof fn lemma_replace_step(s: Seq<char>, pat: Seq<char>, rep: Seq<char>)
    requires
        pat.len() > 0,
        s.len() > 0,
        !occurs_at(s, 0, pat),
    ensures
        replace_all(s, pat, rep) == seq![s[0]] + replace_all(s.drop_first(), pat, rep),
{
    if s.len() < pat.len() {
        assert(s.drop_first().len() < pat.len());
        assert(seq![s[0]] + s.drop_first() =~= s);
    }
}

/// Whether `c` is white space.
pub fn white_space(c: char) -> (r: bool)
    ensures
        r == is_white_space(c),
{
    let u = c as u32;
    (9 <= u && u <= 13) || u == 32 || u == 0x85 || u == 0xA0 || u == 0x1680 || (0x2000 <= u && u
        <= 0x200A) || u == 0x2028 || u == 0x2029 || u == 0x202F || u == 0x205F || u == 0x3000
}

/// The characters of `s`, in order.
pub fn chars_of(s: &str) -> (r: Vec<char>)
    ensures
        r@ == s@,
{
    let mut it = s.chars();
    let mut r: Vec<char> = Vec::new();
    loop
        invariant
            r@ + it.remaining() == s@,
            it.decrease() is Some,
        decreases it.decrease()->0,
    {
        let ghost before = it.remaining();
        match it.next() {
            Some(c) => {
                proof {
                    assert(r@.push(c) + it.remaining() =~= r@ + before);
                }
                r.push(c);
            },
            None => {
                assert(r@ =~= s@);
                return r;
            },
        }
    }
}

/// Whether `pat` occurs in `s` at `i`.
fn occurs_at_exec(s: &Vec<char>, i: usize, pat: &Vec<char>) -> (r: bool)
    requires
        i <= s@.len(),
    ensures
        r == occurs_at(s@, i as int, pat@),
{
    if pat.len() > s.len() - i {
        return false;
    }
    let mut k: usize = 0;
    while k < pat.len()
        invariant
            i + pat@.len() <= s@.len() <= usize::MAX,
            k <= pat@.len(),
            forall|j: int| 0 <= j < k ==> s@[i + j] == pat@[j],
        decreases pat@.len() - k,
    {
        if s[i + k] != pat[k] {
            assert(s@.subrange(i as int, i + pat@.len())[k as int] != pat@[k as int]);
            return false;
        }
        k = k + 1;
    }
    assert(s@.subrange(i as int, i + pat@.len()) =~= pat@);
    true
}

/// Appends `trim(s[lo..hi])` to `out`, with each `\r\n` in it written `<br>`.
fn append_trimmed_with_breaks(out: &mut String, s: &Vec<char>, lo: usize, hi: usize, crlf: &Vec<char>)
    requires
        lo <= hi <= s@.len(),
        crlf@ == "\r\n"@,
    ensures
        final(out)@ == old(out)@ + replace_all(trim(s@.subrange(lo as int, hi as int)), "\r\n"@, "<br>"@),
{
    proof {
        reveal_strlit("\r\n");
    }
    let ghost sec = s@.subrange(lo as int, hi as int);
    let mut a = lo;
    while a < hi && white_space(s[a])
        invariant
            lo <= a <= hi <= s@.len(),
            trim_start(sec) == trim_start(s@.subrange(a as int, hi as int)),
        decreases hi - a,
    {
        proof {
            let t = s@.subrange(a as int, hi as int);
            assert(t.drop_first() =~= s@.subrange(a + 1, hi as int));
        }
        a = a + 1;
    }
    let mut b = hi;
    while b > a && white_space(s[b - 1])
        invariant
            lo <= a <= b <= hi,
            hi <= s@.len(),
            trim_end(s@.subrange(a as int, hi as int)) == trim_end(s@.subrange(a as int, b as int)),
        decreases b - a,
    {
        proof {
            let t = s@.subrange(a as int, b as int);
            assert(t.drop_last() =~= s@.subrange(a as int, b - 1));
        }
        b = b - 1;
    }
    let ghost t = s@.subrange(a as int, b as int);
    assert(trim(sec) == t);
    let ghost base = out@;
    let mut i = a;
    while i < b
        invariant
            a <= i <= b <= s@.len(),
            crlf@ == "\r\n"@,
            "\r\n"@.len() == 2,
            replace_all(t, "\r\n"@, "<br>"@) == out@.subrange(base.len() as int, out@.len() as int)
                + replace_all(s@.subrange(i as int, b as int), "\r\n"@, "<br>"@),
            base.len() <= out@.len(),
            out@.subrange(0, base.len() as int) == base,
        decreases b - i,
    {
        proof {
            reveal_strlit("\r\n");
        }
        let ghost rest = s@.subrange(i as int, b as int);
        let ghost done = out@.subrange(base.len() as int, out@.len() as int);
        if i + 1 < b && s[i] == '\r' && s[i + 1] == '\n' {
            proof {
                assert(rest.subrange(0, 2) =~= "\r\n"@);
                assert(rest.skip(2) =~= s@.subrange(i + 2, b as int));
            }
            out.append("<br>");
            proof {
                assert(out@.subrange(base.len() as int, out@.len() as int) =~= done + "<br>"@);
                assert(out@.subrange(0, base.len() as int) =~= base);
            }
            i = i + 2;
        } else {
            proof {
                if rest.len() >= 2 {
                    if occurs_at(rest, 0, "\r\n"@) {
                        assert(rest.subrange(0, 2)[0] == '\r');
                        assert(rest.subrange(0, 2)[1] == '\n');
                    }
                }
                lemma_replace_step(rest, "\r\n"@, "<br>"@);
                assert(rest.drop_first() =~= s@.subrange(i + 1, b as int));
            }
            push_char(out, s[i]);
            proof {
                assert(out@.subrange(base.len() as int, out@.len() as int) =~= done.push(rest[0]));
                assert(out@.subrange(0, base.len() as int) =~= base);
                assert(done.push(rest[0]) + replace_all(rest.drop_first(), "\r\n"@, "<br>"@)
                    =~= done + (seq![rest[0]] + replace_all(rest.drop_first(), "\r\n"@, "<br>"@)));
            }
            i = i + 1;
        }
    }
    proof {
        assert(s@.subrange(b as int, b as int) =~= Seq::<char>::empty());
        assert(out@ =~= base + out@.subrange(base.len() as int, out@.len() as int));
    }
}

/// Appends the next paragraph `s[lo..hi]` to the rendering of `done`.
fn append_paragraph(
    out: &mut String,
    s: &Vec<char>,
    lo: usize,
    hi: usize,
    crlf: &Vec<char>,
    first: bool,
    Ghost(done): Ghost<Seq<Seq<char>>>,
)
    requires
        first == (done.len() == 0),
        lo <= hi <= s@.len(),
        crlf@ == "\r\n"@,
        old(out)@ == paragraphs_html(done),
    ensures
        final(out)@ == paragraphs_html(done.push(s@.subrange(lo as int, hi as int))),
{
    if !first {
        out.append("\n");
    }
    out.append("<p>");
    append_trimmed_with_breaks(out, s, lo, hi, crlf);
    out.append("</p>");
    proof {
        let p = s@.subrange(lo as int, hi as int);
        assert(done.push(p).drop_last() =~= done);
        assert(done.push(p).last() == p);
        if done.len() == 0 {
            assert(paragraphs_html(done) =~= Seq::<char>::empty());
        }
    }
}

/// The report page's rendering of a raw body: each piece between
/// `\r\n\r\n` trimmed, its `\r\n` written `<br>`, wrapped in `<p>…</p>`,
/// the pieces on lines of their own.
pub fn render_body(body: &str) -> (r: String)
    ensures
        r@ == rendered_body(body@),
{
    let s = chars_of(body);
    let pat = chars_of("\r\n\r\n");
    let crlf = chars_of("\r\n");
    proof {
        reveal_strlit("\r\n\r\n");
    }
    let ghost sep = "\r\n\r\n"@;
    let n = s.len();
    let mut out = String::new();
    let mut start: usize = 0;
    let mut i: usize = 0;
    let mut first = true;
    let ghost mut done: Seq<Seq<char>> = Seq::empty();
    assert(s@.skip(0) =~= s@);
    proof {
        lemma_split_nonempty(s@, sep);
        assert(prepend_first(s@.subrange(0, 0), split_on(s@, sep)) =~= split_on(s@, sep));
        assert(done + split_on(s@, sep) =~= split_on(s@, sep));
    }
    while i < n
        invariant
            n == s@.len(),
            pat@ == sep,
            sep.len() == 4,
            crlf@ == "\r\n"@,
            start <= i <= n,
            split_on(s@, sep) == done + prepend_first(
                s@.subrange(start as int, i as int),
                split_on(s@.skip(i as int), sep),
            ),
            out@ == paragraphs_html(done),
            first == (done.len() == 0),
        decreases n - i,
    {
        let ghost cur = s@.subrange(start as int, i as int);
        let ghost t = s@.skip(i as int);
        proof {
            assert(t.len() >= 4 ==> t.subrange(0, 4) =~= s@.subrange(i as int, i + 4));
        }
        if occurs_at_exec(&s, i, &pat) {
            proof {
                assert(occurs_at(t, 0, sep));
                assert(t.skip(4) =~= s@.skip(i + 4));
                lemma_split_nonempty(s@.skip(i + 4), sep);
            }
            append_paragraph(&mut out, &s, start, i, &crlf, first, Ghost(done));
            proof {
                let x = split_on(s@.skip(i + 4), sep);
                assert(prepend_first(cur, seq![Seq::<char>::empty()] + x) =~= seq![cur] + x);
                assert(prepend_first(s@.subrange(i + 4, i + 4), x) =~= x);
                assert(done + (seq![cur] + x) =~= done.push(cur) + x);
                done = done.push(cur);
            }
            i = i + 4;
            start = i;
            first = false;
        } else {
            proof {
                assert(!occurs_at(t, 0, sep));
                lemma_split_step(t, sep);
                assert(t.drop_first() =~= s@.skip(i + 1));
                let y = split_on(s@.skip(i + 1), sep);
                lemma_split_nonempty(s@.skip(i + 1), sep);
                assert(s@.subrange(start as int, i + 1) =~= cur + seq![t[0]]);
                assert(cur + (seq![t[0]] + y[0]) =~= (cur + seq![t[0]]) + y[0]);
                assert(prepend_first(cur, prepend_first(seq![t[0]], y)) =~= prepend_first(
                    cur + seq![t[0]],
                    y,
                ));
            }
            i = i + 1;
        }
    }
    proof {
        assert(s@.skip(n as int) =~= Seq::<char>::empty());
        let cur = s@.subrange(start as int, n as int);
        assert(prepend_first(cur, seq![Seq::<char>::empty()]) =~= seq![cur]);
        assert(done + seq![cur] =~= done.push(cur));
    }
    append_paragraph(&mut out, &s, start, n, &crlf, first, Ghost(done));
    out
}

} // verus!
