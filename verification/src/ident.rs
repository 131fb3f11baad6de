//! The identifier component: turns arbitrary titles into filesystem-safe
//! directory names.

use vstd::prelude::*;

use crate::text::{
    chars_of_str, is_alnum_char, is_space_char, remove_all, remove_pattern, string_of_chars,
    alnum_char, space_char,
};

verus! {

/// The opening CDATA marker, `<![CDATA[`.
pub open spec fn cdata_open() -> Seq<char> {
    seq!['<', '!', '[', 'C', 'D', 'A', 'T', 'A', '[']
}

/// The closing CDATA marker, `]]>`.
pub open spec fn cdata_close() -> Seq<char> {
    seq![']', ']', '>']
}

/// A character the sanitizer retains before whitespace conversion.
pub open spec fn is_kept_char(c: char) -> bool {
    is_alnum_char(c) || is_space_char(c)
}

/// `s` restricted to ASCII letters, digits and whitespace.
pub open spec fn keep_alnum_space(s: Seq<char>) -> Seq<char>
    decreases s.len(),
{
    if s.len() == 0 {
        Seq::empty()
    } else if is_kept_char(s.last()) {
        keep_alnum_space(s.drop_last()) + seq![s.last()]
    } else {
        keep_alnum_space(s.drop_last())
    }
}

/// `s` with every maximal run of whitespace replaced by one underscore.
pub open spec fn collapse_space(s: Seq<char>) -> Seq<char>
    decreases s.len(),
{
    if s.len() == 0 {
        Seq::empty()
    } else if !is_space_char(s.last()) {
        collapse_space(s.drop_last()) + seq![s.last()]
    } else if s.len() >= 2 && is_space_char(s[s.len() - 2]) {
        collapse_space(s.drop_last())
    } else {
        collapse_space(s.drop_last()) + seq!['_']
    }
}

/// `s` without trailing underscores.
pub open spec fn strip_trailing_underscores(s: Seq<char>) -> Seq<char>
    decreases s.len(),
{
    if s.len() > 0 && s.last() == '_' {
        strip_trailing_underscores(s.drop_last())
    } else {
        s
    }
}

/// What `sanitize_filename` returns: CDATA markers removed, only ASCII
/// letters, digits and whitespace retained, each whitespace run converted to
/// a single underscore, trailing underscores stripped.
pub open spec fn sanitize_spec(s: Seq<char>) -> Seq<char> {
    strip_trailing_underscores(
        collapse_space(keep_alnum_space(remove_all(remove_all(s, cdata_open()), cdata_close()))),
    )
}

fn cdata_open_chars() -> (v: Vec<char>)
    ensures
        v@ == cdata_open(),
{
    let mut v: Vec<char> = Vec::new();
    v.push('<');
    v.push('!');
    v.push('[');
    v.push('C');
    v.push('D');
    v.push('A');
    v.push('T');
    v.push('A');
    v.push('[');
    proof {
        assert(v@ =~= cdata_open());
    }
    v
}

fn cdata_close_chars() -> (v: Vec<char>)
    ensures
        v@ == cdata_close(),
{
    let mut v: Vec<char> = Vec::new();
    v.push(']');
    v.push(']');
    v.push('>');
    proof {
        assert(v@ =~= cdata_close());
    }
    v
}

fn keep_chars(s: &Vec<char>) -> (r: Vec<char>)
    ensures
        r@ == keep_alnum_space(s@),
{
    let mut out: Vec<char> = Vec::new();
    let mut i: usize = 0;
    proof {
        assert(s@.take(0) =~= Seq::<char>::empty());
    }
    while i < s.len()
        invariant
            i <= s@.len(),
            out@ == keep_alnum_space(s@.take(i as int)),
        decreases s@.len() - i,
    {
        let c = s[i];
        proof {
            assert(s@.take(i + 1).drop_last() =~= s@.take(i as int));
            assert(s@.take(i + 1).last() == s@[i as int]);
        }
        if alnum_char(c) || space_char(c) {
            out.push(c);
        }
        i = i + 1;
    }
    proof {
        assert(s@.take(i as int) =~= s@);
    }
    out
}

fn collapse_chars(s: &Vec<char>) -> (r: Vec<char>)
    ensures
        r@ == collapse_space(s@),
{
    let mut out: Vec<char> = Vec::new();
    let mut i: usize = 0;
    proof {
        assert(s@.take(0) =~= Seq::<char>::empty());
    }
    while i < s.len()
        invariant
            i <= s@.len(),
            out@ == collapse_space(s@.take(i as int)),
        decreases s@.len() - i,
    {
        let c = s[i];
        proof {
            assert(s@.take(i + 1).drop_last() =~= s@.take(i as int));
            assert(s@.take(i + 1).last() == s@[i as int]);
            if i >= 1 {
                assert(s@.take(i + 1)[i - 1] == s@[i - 1]);
            }
        }
        if !space_char(c) {
            out.push(c);
        } else if i == 0 || !space_char(s[i - 1]) {
            out.push('_');
        }
        i = i + 1;
    }
    proof {
        assert(s@.take(i as int) =~= s@);
    }
    out
}

fn strip_underscore_chars(s: Vec<char>) -> (r: Vec<char>)
    ensures
        r@ == strip_trailing_underscores(s@),
{
    let mut v = s;
    while v.len() > 0 && v[v.len() - 1] == '_'
        invariant
            strip_trailing_underscores(v@) == strip_trailing_underscores(s@),
        decreases v@.len(),
    {
        v.pop();
    }
    v
}

/// Sanitizes a title for use as a file or directory name: strips CDATA
/// markers, keeps only ASCII letters, digits and whitespace, converts each
/// whitespace run to a single underscore, and removes trailing underscores.
pub fn sanitize_filename(input: &str) -> (r: String)
    ensures
        r@ == sanitize_spec(input@),
{
    let chars = chars_of_str(input);
    let open = cdata_open_chars();
    let close = cdata_close_chars();
    let no_open = remove_pattern(&chars, &open);
    let no_cdata = remove_pattern(&no_open, &close);
    let kept = keep_chars(&no_cdata);
    let collapsed = collapse_chars(&kept);
    let stripped = strip_underscore_chars(collapsed);
    string_of_chars(&stripped)
}

/// Every character of the sanitized result is an ASCII letter, a digit, or an
/// underscore, and the result never ends in an underscore.
pub proof fn lemma_sanitize_shape(s: Seq<char>)
    ensures
        forall|i: int|
            0 <= i < sanitize_spec(s).len() ==> (is_alnum_char(#[trigger] sanitize_spec(s)[i])
                || sanitize_spec(s)[i] == '_'),
        sanitize_spec(s).len() > 0 ==> sanitize_spec(s).last() != '_',
{
    let cleaned = remove_all(remove_all(s, cdata_open()), cdata_close());
    let kept = keep_alnum_space(cleaned);
    lemma_keep_chars_kept(cleaned);
    lemma_collapse_chars_shape(kept);
    lemma_strip_underscores_shape(collapse_space(kept));
    let collapsed = collapse_space(kept);
    let r = sanitize_spec(s);
    assert forall|i: int| 0 <= i < r.len() implies (is_alnum_char(r[i]) || r[i] == '_') by {
        assert(r[i] == collapsed[i]);
        assert(is_alnum_char(collapsed[i]) || collapsed[i] == '_');
    }
}

proof fn lemma_keep_chars_kept(s: Seq<char>)
    ensures
        forall|i: int|
            0 <= i < keep_alnum_space(s).len() ==> is_kept_char(
                #[trigger] keep_alnum_space(s)[i],
            ),
    decreases s.len(),
{
    if s.len() > 0 {
        lemma_keep_chars_kept(s.drop_last());
        let r0 = keep_alnum_space(s.drop_last());
        if is_kept_char(s.last()) {
            assert forall|i: int| 0 <= i < keep_alnum_space(s).len() implies is_kept_char(
                keep_alnum_space(s)[i],
            ) by {
                if i < r0.len() {
                    assert(keep_alnum_space(s)[i] == r0[i]);
                } else {
                    assert(keep_alnum_space(s)[i] == s.last());
                }
            }
        }
    }
}

proof fn lemma_collapse_chars_shape(s: Seq<char>)
    requires
        forall|i: int| 0 <= i < s.len() ==> is_kept_char(#[trigger] s[i]),
    ensures
        forall|i: int|
            0 <= i < collapse_space(s).len() ==> (is_alnum_char(#[trigger] collapse_space(s)[i])
                || collapse_space(s)[i] == '_'),
    decreases s.len(),
{
    if s.len() > 0 {
        assert(forall|i: int|
            0 <= i < s.drop_last().len() ==> is_kept_char(#[trigger] s.drop_last()[i]));
        lemma_collapse_chars_shape(s.drop_last());
        let r0 = collapse_space(s.drop_last());
        let r = collapse_space(s);
        assert(is_kept_char(s.last()));
        assert forall|i: int| 0 <= i < r.len() implies (is_alnum_char(r[i]) || r[i] == '_') by {
            if i < r0.len() {
                assert(r[i] == r0[i]);
            } else {
                if !is_space_char(s.last()) {
                    assert(r[i] == s.last());
                    assert(is_alnum_char(s.last()));
                } else {
                    assert(r[i] == '_');
                }
            }
        }
    }
}

proof fn lemma_strip_underscores_shape(s: Seq<char>)
    ensures
        strip_trailing_underscores(s).len() > 0 ==> strip_trailing_underscores(s).last() != '_',
        forall|i: int|
            0 <= i < strip_trailing_underscores(s).len() ==> strip_trailing_underscores(s)[i]
                == s[i],
        strip_trailing_underscores(s).len() <= s.len(),
    decreases s.len(),
{
    if s.len() > 0 && s.last() == '_' {
        lemma_strip_underscores_shape(s.drop_last());
        let r = strip_trailing_underscores(s);
        assert forall|i: int| 0 <= i < r.len() implies r[i] == s[i] by {
            assert(r[i] == s.drop_last()[i]);
        }
    }
}

proof fn lemma_remove_all_no_marker_chars(s: Seq<char>, pat: Seq<char>, banned: char)
    requires
        pat.len() >= 1,
        pat[0] == banned,
        forall|i: int| 0 <= i < s.len() ==> s[i] != banned,
    ensures
        remove_all(s, pat) == s,
{
    crate::text::lemma_remove_all_absent(s, pat);
}

proof fn lemma_keep_identity(s: Seq<char>)
    requires
        forall|i: int| 0 <= i < s.len() ==> is_kept_char(#[trigger] s[i]),
    ensures
        keep_alnum_space(s) == s,
    decreases s.len(),
{
    if s.len() > 0 {
        assert(forall|i: int|
            0 <= i < s.drop_last().len() ==> is_kept_char(#[trigger] s.drop_last()[i]));
        lemma_keep_identity(s.drop_last());
        assert(s.drop_last() + seq![s.last()] =~= s);
    }
}

proof fn lemma_collapse_identity(s: Seq<char>)
    requires
        forall|i: int| 0 <= i < s.len() ==> !is_space_char(#[trigger] s[i]),
    ensures
        collapse_space(s) == s,
    decreases s.len(),
{
    if s.len() > 0 {
        assert(forall|i: int|
            0 <= i < s.drop_last().len() ==> !is_space_char(#[trigger] s.drop_last()[i]));
        lemma_collapse_identity(s.drop_last());
        assert(s.drop_last() + seq![s.last()] =~= s);
    }
}

proof fn lemma_keep_retains(s: Seq<char>, p: int)
    requires
        0 <= p < s.len(),
        is_alnum_char(s[p]),
    ensures
        exists|q: int| 0 <= q < keep_alnum_space(s).len() && is_alnum_char(
            #[trigger] keep_alnum_space(s)[q],
        ),
    decreases s.len(),
{
    let r0 = keep_alnum_space(s.drop_last());
    if p == s.len() - 1 {
        assert(keep_alnum_space(s) == r0 + seq![s.last()]);
        assert(keep_alnum_space(s)[r0.len() as int] == s.last());
    } else {
        assert(s.drop_last()[p] == s[p]);
        lemma_keep_retains(s.drop_last(), p);
        let q0 = choose|q: int| 0 <= q < r0.len() && is_alnum_char(#[trigger] r0[q]);
        if is_kept_char(s.last()) {
            assert(keep_alnum_space(s) == r0 + seq![s.last()]);
        } else {
            assert(keep_alnum_space(s) == r0);
        }
        assert(keep_alnum_space(s)[q0] == r0[q0]);
    }
}

proof fn lemma_collapse_retains(s: Seq<char>, p: int)
    requires
        0 <= p < s.len(),
        is_alnum_char(s[p]),
    ensures
        exists|q: int| 0 <= q < collapse_space(s).len() && is_alnum_char(
            #[trigger] collapse_space(s)[q],
        ),
    decreases s.len(),
{
    let r0 = collapse_space(s.drop_last());
    if p == s.len() - 1 {
        assert(!is_space_char(s.last()));
        assert(collapse_space(s) == r0 + seq![s.last()]);
        assert(collapse_space(s)[r0.len() as int] == s.last());
    } else {
        assert(s.drop_last()[p] == s[p]);
        lemma_collapse_retains(s.drop_last(), p);
        let q0 = choose|q: int| 0 <= q < r0.len() && is_alnum_char(#[trigger] r0[q]);
        assert(collapse_space(s)[q0] == r0[q0]);
    }
}

proof fn lemma_strip_keeps_non_underscore(s: Seq<char>, p: int)
    requires
        0 <= p < s.len(),
        s[p] != '_',
    ensures
        strip_trailing_underscores(s).len() > 0,
    decreases s.len(),
{
    if s.len() > 0 && s.last() == '_' {
        assert(p < s.len() - 1);
        assert(s.drop_last()[p] == s[p]);
        lemma_strip_keeps_non_underscore(s.drop_last(), p);
    }
}

/// Sanitizing never yields an empty name for a title that still holds an
/// ASCII letter or digit once its CDATA markers are removed. (A title
/// whose letters all sit inside the markers can come out empty; the
/// caller substitutes a fallback name for an empty result.)
pub proof fn lemma_sanitize_nonempty(s: Seq<char>)
    requires
        exists|p: int|
            0 <= p < remove_all(remove_all(s, cdata_open()), cdata_close()).len()
                && is_alnum_char(
                #[trigger] remove_all(remove_all(s, cdata_open()), cdata_close())[p],
            ),
    ensures
        sanitize_spec(s).len() > 0,
{
    let cleaned = remove_all(remove_all(s, cdata_open()), cdata_close());
    let p = choose|p: int| 0 <= p < cleaned.len() && is_alnum_char(#[trigger] cleaned[p]);
    lemma_keep_retains(cleaned, p);
    let kept = keep_alnum_space(cleaned);
    let q = choose|q: int| 0 <= q < kept.len() && is_alnum_char(#[trigger] kept[q]);
    lemma_collapse_retains(kept, q);
    let collapsed = collapse_space(kept);
    let w = choose|w: int| 0 <= w < collapsed.len() && is_alnum_char(#[trigger] collapsed[w]);
    assert(collapsed[w] != '_');
    lemma_strip_keeps_non_underscore(collapsed, w);
}

/// Sanitizing is idempotent on every input whose sanitized form holds no
/// underscore: applying `sanitize_filename` to such a result changes nothing.
/// (A result that holds an underscore loses it on a second pass, because an
/// underscore is neither a letter, a digit nor whitespace.)
pub proof fn lemma_sanitize_idempotent(s: Seq<char>)
    requires
        forall|i: int| 0 <= i < sanitize_spec(s).len() ==> #[trigger] sanitize_spec(s)[i] != '_',
    ensures
        sanitize_spec(sanitize_spec(s)) == sanitize_spec(s),
{
    let r = sanitize_spec(s);
    lemma_sanitize_shape(s);
    assert(forall|i: int| 0 <= i < r.len() ==> is_alnum_char(#[trigger] r[i]));
    assert(forall|i: int| 0 <= i < r.len() ==> #[trigger] r[i] != '<') by {
        assert(forall|i: int| 0 <= i < r.len() ==> is_alnum_char(#[trigger] r[i]));
        assert(!is_alnum_char('<'));
    }
    assert(forall|i: int| 0 <= i < r.len() ==> #[trigger] r[i] != ']') by {
        assert(!is_alnum_char(']'));
    }
    lemma_remove_all_no_marker_chars(r, cdata_open(), '<');
    lemma_remove_all_no_marker_chars(r, cdata_close(), ']');
    assert(forall|i: int| 0 <= i < r.len() ==> is_kept_char(#[trigger] r[i]));
    lemma_keep_identity(r);
    assert(forall|i: int| 0 <= i < r.len() ==> !is_space_char(#[trigger] r[i])) by {
        assert(forall|i: int| 0 <= i < r.len() ==> is_alnum_char(#[trigger] r[i]));
    }
    lemma_collapse_identity(r);
    if r.len() > 0 {
        assert(r.last() != '_');
    }
    assert(strip_trailing_underscores(r) == r);
}

} // verus!
