//! Character-level text utilities shared by the rest of the library.
//!
//! All executable functions here work on `Vec<char>` / `&str` values whose
//! behaviour is pinned down over `Seq<char>` views.

use vstd::prelude::*;
use vstd::string::StrSliceExecFns;

verus! {

/// The six ASCII whitespace characters recognised by the sanitizer.
pub open spec fn is_space_char(c: char) -> bool {
    c == ' ' || c == '\t' || c == '\n' || c == '\r' || c == '\x0b' || c == '\x0c'
}

/// ASCII letters and digits.
pub open spec fn is_alnum_char(c: char) -> bool {
    (('a' as int) <= (c as int) && (c as int) <= ('z' as int)) || (('A' as int) <= (c as int)
        && (c as int) <= ('Z' as int)) || (('0' as int) <= (c as int) && (c as int) <= ('9' as int))
}

/// Characters allowed in the identifier part of a video id: letters, digits,
/// underscore and dash.
pub open spec fn is_word_or_dash_char(c: char) -> bool {
    is_alnum_char(c) || c == '_' || c == '-'
}

pub fn space_char(c: char) -> (b: bool)
    ensures
        b == is_space_char(c),
{
    c == ' ' || c == '\t' || c == '\n' || c == '\r' || c == '\x0b' || c == '\x0c'
}

pub fn alnum_char(c: char) -> (b: bool)
    ensures
        b == is_alnum_char(c),
{
    let u = c as u32;
    (97 <= u && u <= 122) || (65 <= u && u <= 90) || (48 <= u && u <= 57)
}

pub fn word_or_dash_char(c: char) -> (b: bool)
    ensures
        b == is_word_or_dash_char(c),
{
    alnum_char(c) || c == '_' || c == '-'
}

/// Collects the characters of a string slice into a vector.
pub fn chars_of_str(s: &str) -> (v: Vec<char>)
    ensures
        v@ == s@,
{
    let n = s.unicode_len();
    let mut v: Vec<char> = Vec::new();
    let mut i: usize = 0;
    while i < n
        invariant
            n == s@.len(),
            i <= n,
            v@ == s@.take(i as int),
        decreases n - i,
    {
        let c = s.get_char(i);
        v.push(c);
        i = i + 1;
        proof {
            assert(v@ =~= s@.take(i as int));
        }
    }
    proof {
        assert(v@ =~= s@);
    }
    v
}

/// Relies on std's `FromIterator<char> for String` (through `Iterator::collect`):
/// collecting characters builds the string holding exactly those characters in
/// order.
#[verifier::external_body]
pub fn string_of_chars(v: &Vec<char>) -> (s: String)
    ensures
        s@ == v@,
{
    v.iter().collect()
}

/// Appends all characters of `src` to `out`.
pub fn push_all(out: &mut Vec<char>, src: &Vec<char>)
    ensures
        final(out)@ == old(out)@ + src@,
{
    let mut i: usize = 0;
    while i < src.len()
        invariant
            i <= src@.len(),
            out@ == old(out)@ + src@.take(i as int),
        decreases src@.len() - i,
    {
        out.push(src[i]);
        i = i + 1;
        proof {
            assert(old(out)@ + src@.take(i as int) =~= (old(out)@ + src@.take(i - 1)).push(
                src@[i - 1],
            ));
        }
    }
    proof {
        assert(out@ =~= old(out)@ + src@);
    }
}

/// The pattern `pat` occurs in `s` starting at position `i`.
pub open spec fn occurs_at(s: Seq<char>, pat: Seq<char>, i: int) -> bool {
    0 <= i && i + pat.len() <= s.len() && s.subrange(i, i + pat.len() as int) == pat
}

/// The pattern `pat` occurs somewhere in `s`.
pub open spec fn occurs(s: Seq<char>, pat: Seq<char>) -> bool {
    exists|i: int| occurs_at(s, pat, i)
}

/// Compares `pat` against `s` at position `i`.
pub fn matches_at(s: &Vec<char>, i: usize, pat: &Vec<char>) -> (b: bool)
    requires
        i + pat@.len() <= s@.len(),
    ensures
        b == occurs_at(s@, pat@, i as int),
{
    let n = s.len();
    let mut k: usize = 0;
    while k < pat.len()
        invariant
            n == s@.len(),
            i + pat@.len() <= s@.len(),
            k <= pat@.len(),
            forall|j: int| 0 <= j < k ==> s@[i + j] == pat@[j],
        decreases pat@.len() - k,
    {
        if s[i + k] != pat[k] {
            proof {
                assert(s@.subrange(i as int, i + pat@.len() as int)[k as int] != pat@[k as int]);
            }
            return false;
        }
        k = k + 1;
    }
    proof {
        assert(s@.subrange(i as int, i + pat@.len() as int) =~= pat@);
    }
    true
}

/// Finds the leftmost occurrence of `pat` in `s`.
pub fn find_pattern(s: &Vec<char>, pat: &Vec<char>) -> (r: Option<usize>)
    requires
        pat@.len() >= 1,
    ensures
        match r {
            Some(i) => occurs_at(s@, pat@, i as int) && forall|j: int|
                0 <= j < i ==> !occurs_at(s@, pat@, j),
            None => !occurs(s@, pat@),
        },
{
    if s.len() < pat.len() {
        return None;
    }
    let mut i: usize = 0;
    while pat.len() <= s.len() - i
        invariant
            pat@.len() >= 1,
            i <= s@.len(),
            forall|j: int| 0 <= j < i ==> !occurs_at(s@, pat@, j),
        decreases s@.len() - i,
    {
        if matches_at(s, i, pat) {
            return Some(i);
        }
        i = i + 1;
    }
    None
}

/// Whether `pat` occurs anywhere in `s`.
pub fn contains_pattern(s: &Vec<char>, pat: &Vec<char>) -> (b: bool)
    requires
        pat@.len() >= 1,
    ensures
        b == occurs(s@, pat@),
{
    match find_pattern(s, pat) {
        Some(_) => true,
        None => false,
    }
}

/// `s` with every occurrence of `pat` removed, scanning left to right without
/// rescanning the text already kept (the behaviour of `str::replace` with an
/// empty replacement).
pub open spec fn remove_all(s: Seq<char>, pat: Seq<char>) -> Seq<char>
    recommends
        pat.len() >= 1,
    decreases s.len(),
    when pat.len() >= 1
{
    if s.len() < pat.len() {
        s
    } else if s.subrange(0, pat.len() as int) == pat {
        remove_all(s.skip(pat.len() as int), pat)
    } else {
        seq![s[0]] + remove_all(s.skip(1), pat)
    }
}

/// Removing a pattern from text that does not hold its first character changes
/// nothing.
pub proof fn lemma_remove_all_absent(s: Seq<char>, pat: Seq<char>)
    requires
        pat.len() >= 1,
        forall|i: int| 0 <= i < s.len() ==> s[i] != pat[0],
    ensures
        remove_all(s, pat) == s,
    decreases s.len(),
{
    if s.len() < pat.len() {
    } else {
        assert(s.subrange(0, pat.len() as int)[0] == s[0]);
        assert(s.subrange(0, pat.len() as int) != pat);
        lemma_remove_all_absent(s.skip(1), pat);
        assert(seq![s[0]] + s.skip(1) =~= s);
    }
}

/// Removes every occurrence of `pat` from `s`, left to right.
pub fn remove_pattern(s: &Vec<char>, pat: &Vec<char>) -> (r: Vec<char>)
    requires
        pat@.len() >= 1,
    ensures
        r@ == remove_all(s@, pat@),
{
    let mut out: Vec<char> = Vec::new();
    let mut i: usize = 0;
    proof {
        assert(s@.skip(0) =~= s@);
        assert(out@ + remove_all(s@, pat@) =~= remove_all(s@, pat@));
    }
    while i <= s.len() && pat.len() <= s.len() - i
        invariant
            pat@.len() >= 1,
            i <= s@.len(),
            remove_all(s@, pat@) == out@ + remove_all(s@.skip(i as int), pat@),
        decreases s@.len() - i,
    {
        let ghost rest = s@.skip(i as int);
        if matches_at(s, i, pat) {
            proof {
                assert(rest.subrange(0, pat@.len() as int) =~= s@.subrange(
                    i as int,
                    i + pat@.len() as int,
                ));
                assert(rest.skip(pat@.len() as int) =~= s@.skip(i + pat@.len() as int));
            }
            i = i + pat.len();
        } else {
            proof {
                assert(rest.subrange(0, pat@.len() as int) =~= s@.subrange(
                    i as int,
                    i + pat@.len() as int,
                ));
                assert(rest.subrange(0, pat@.len() as int) != pat@);
                assert(rest[0] == s@[i as int]);
                assert(rest.skip(1) =~= s@.skip(i + 1));
            }
            out.push(s[i]);
            i = i + 1;
        }
    }
    // Fewer than `pat` characters remain; they are all kept.
    while i < s.len()
        invariant
            pat@.len() >= 1,
            i <= s@.len(),
            s@.len() < i + pat@.len(),
            remove_all(s@, pat@) == out@ + remove_all(s@.skip(i as int), pat@),
        decreases s@.len() - i,
    {
        proof {
            let rest = s@.skip(i as int);
            assert(rest.len() < pat@.len());
            assert(remove_all(rest, pat@) == rest);
            assert(rest[0] == s@[i as int]);
            assert(rest.skip(1) =~= s@.skip(i + 1));
            assert(remove_all(s@.skip(i + 1), pat@) == s@.skip(i + 1));
            assert(rest =~= seq![s@[i as int]] + s@.skip(i + 1));
        }
        out.push(s[i]);
        i = i + 1;
    }
    proof {
        assert(s@.skip(i as int) =~= Seq::<char>::empty());
        assert(remove_all(s@.skip(i as int), pat@) == Seq::<char>::empty());
        assert(out@ + Seq::<char>::empty() =~= out@);
    }
    out
}

/// `s` without leading characters satisfying `is_space_char`.
pub open spec fn drop_leading_space(s: Seq<char>) -> Seq<char>
    decreases s.len(),
{
    if s.len() > 0 && is_space_char(s[0]) {
        drop_leading_space(s.skip(1))
    } else {
        s
    }
}

/// `s` without trailing characters satisfying `is_space_char`.
pub open spec fn drop_trailing_space(s: Seq<char>) -> Seq<char>
    decreases s.len(),
{
    if s.len() > 0 && is_space_char(s.last()) {
        drop_trailing_space(s.drop_last())
    } else {
        s
    }
}

/// `s` without leading and trailing whitespace.
pub open spec fn trim_spec(s: Seq<char>) -> Seq<char> {
    drop_leading_space(drop_trailing_space(s))
}

proof fn lemma_drop_leading_space_skip(s: Seq<char>, k: int)
    requires
        0 <= k <= s.len(),
        forall|j: int| 0 <= j < k ==> is_space_char(s[j]),
    ensures
        drop_leading_space(s) == drop_leading_space(s.skip(k)),
    decreases k,
{
    if k > 0 {
        assert(s.skip(1).skip(k - 1) =~= s.skip(k));
        lemma_drop_leading_space_skip(s.skip(1), k - 1);
    } else {
        assert(s.skip(0) =~= s);
    }
}

proof fn lemma_drop_trailing_space_take(s: Seq<char>, k: int)
    requires
        0 <= k <= s.len(),
        forall|j: int| k <= j < s.len() ==> is_space_char(s[j]),
    ensures
        drop_trailing_space(s) == drop_trailing_space(s.take(k)),
    decreases s.len() - k,
{
    if k < s.len() {
        assert(s.drop_last().take(k) =~= s.take(k));
        lemma_drop_trailing_space_take(s.drop_last(), k);
    } else {
        assert(s.take(k) =~= s);
    }
}

/// Removes leading and trailing whitespace.
pub fn trim_chars(s: &Vec<char>) -> (r: Vec<char>)
    ensures
        r@ == trim_spec(s@),
{
    let mut hi: usize = s.len();
    proof {
        assert(s@.take(hi as int) =~= s@);
    }
    while hi > 0 && space_char(s[hi - 1])
        invariant
            hi <= s@.len(),
            forall|j: int| hi <= j < s@.len() ==> is_space_char(s@[j]),
            drop_trailing_space(s@) == drop_trailing_space(s@.take(hi as int)),
        decreases hi,
    {
        proof {
            lemma_drop_trailing_space_take(s@.take(hi as int), hi - 1);
            assert(s@.take(hi as int).take(hi - 1) =~= s@.take(hi - 1));
        }
        hi = hi - 1;
    }
    proof {
        if hi > 0 {
            assert(s@.take(hi as int).last() == s@[hi - 1]);
        }
        assert(drop_trailing_space(s@.take(hi as int)) == s@.take(hi as int));
    }
    let mut lo: usize = 0;
    while lo < hi && space_char(s[lo])
        invariant
            lo <= hi <= s@.len(),
            forall|j: int| 0 <= j < lo ==> is_space_char(s@[j]),
        decreases hi - lo,
    {
        lo = lo + 1;
    }
    let ghost kept = s@.take(hi as int);
    proof {
        lemma_drop_leading_space_skip(kept, lo as int);
        if lo < hi {
            assert(kept.skip(lo as int)[0] == s@[lo as int]);
        }
        assert(drop_leading_space(kept.skip(lo as int)) == kept.skip(lo as int));
    }
    let mut out: Vec<char> = Vec::new();
    let mut i: usize = lo;
    while i < hi
        invariant
            lo <= i <= hi <= s@.len(),
            out@ == s@.subrange(lo as int, i as int),
        decreases hi - i,
    {
        out.push(s[i]);
        i = i + 1;
        proof {
            assert(s@.subrange(lo as int, i as int) =~= s@.subrange(lo as int, i - 1).push(
                s@[i - 1],
            ));
        }
    }
    proof {
        assert(out@ =~= kept.skip(lo as int));
    }
    out
}

/// An ASCII decimal digit.
pub open spec fn is_digit_char(c: char) -> bool {
    ('0' as int) <= (c as int) && (c as int) <= ('9' as int)
}

/// The numeric value of an ASCII digit character.
pub open spec fn digit_value(c: char) -> int {
    (c as int) - ('0' as int)
}

/// Every character of `s` is an ASCII digit.
pub open spec fn all_digits(s: Seq<char>) -> bool {
    forall|i: int| 0 <= i < s.len() ==> is_digit_char(#[trigger] s[i])
}

/// The value of a string of ASCII digits read in base 10.
pub open spec fn digits_val(s: Seq<char>) -> int
    decreases s.len(),
{
    if s.len() == 0 {
        0
    } else {
        digits_val(s.drop_last()) * 10 + digit_value(s.last())
    }
}

/// The decimal digit character for `d` (0 through 9).
pub open spec fn dec_digit(d: int) -> char {
    if d == 0 {
        '0'
    } else if d == 1 {
        '1'
    } else if d == 2 {
        '2'
    } else if d == 3 {
        '3'
    } else if d == 4 {
        '4'
    } else if d == 5 {
        '5'
    } else if d == 6 {
        '6'
    } else if d == 7 {
        '7'
    } else if d == 8 {
        '8'
    } else {
        '9'
    }
}

/// The decimal rendering of `n`, with no leading zeros (except for 0 itself).
pub open spec fn dec_str(n: nat) -> Seq<char>
    decreases n,
{
    if n < 10 {
        seq![dec_digit(n as int)]
    } else {
        dec_str(n / 10) + seq![dec_digit((n % 10) as int)]
    }
}

fn digit_char(d: u64) -> (c: char)
    requires
        d < 10,
    ensures
        c == dec_digit(d as int),
{
    if d == 0 {
        '0'
    } else if d == 1 {
        '1'
    } else if d == 2 {
        '2'
    } else if d == 3 {
        '3'
    } else if d == 4 {
        '4'
    } else if d == 5 {
        '5'
    } else if d == 6 {
        '6'
    } else if d == 7 {
        '7'
    } else if d == 8 {
        '8'
    } else {
        '9'
    }
}

/// Appends the decimal rendering of `n` to `out`.
pub fn push_dec(n: u64, out: &mut Vec<char>)
    ensures
        final(out)@ == old(out)@ + dec_str(n as nat),
    decreases n,
{
    if n < 10 {
        out.push(digit_char(n));
        proof {
            assert(out@ =~= old(out)@ + dec_str(n as nat));
        }
    } else {
        push_dec(n / 10, out);
        out.push(digit_char(n % 10));
        proof {
            assert(out@ =~= old(out)@ + dec_str(n as nat));
        }
    }
}

/// The decimal rendering of `n` as a string.
pub fn u64_to_string(n: u64) -> (s: String)
    ensures
        s@ == dec_str(n as nat),
{
    let mut v: Vec<char> = Vec::new();
    push_dec(n, &mut v);
    string_of_chars(&v)
}

/// The position of the first occurrence of `c` in `s`, if any.
pub open spec fn first_index_of(s: Seq<char>, c: char) -> Option<int>
    decreases s.len(),
{
    if s.len() == 0 {
        None
    } else if s[0] == c {
        Some(0)
    } else {
        match first_index_of(s.skip(1), c) {
            Some(p) => Some(p + 1),
            None => None,
        }
    }
}

pub proof fn lemma_first_index_some(s: Seq<char>, c: char, p: int)
    requires
        0 <= p < s.len(),
        s[p] == c,
        forall|j: int| 0 <= j < p ==> s[j] != c,
    ensures
        first_index_of(s, c) == Some(p),
    decreases s.len(),
{
    if p > 0 {
        assert(s.skip(1)[p - 1] == s[p]);
        assert(forall|j: int| 0 <= j < p - 1 ==> #[trigger] s.skip(1)[j] == s[j + 1]);
        lemma_first_index_some(s.skip(1), c, p - 1);
    }
}

pub proof fn lemma_first_index_none(s: Seq<char>, c: char)
    requires
        forall|j: int| 0 <= j < s.len() ==> s[j] != c,
    ensures
        first_index_of(s, c) is None,
    decreases s.len(),
{
    if s.len() > 0 {
        assert(forall|j: int| 0 <= j < s.len() - 1 ==> #[trigger] s.skip(1)[j] == s[j + 1]);
        lemma_first_index_none(s.skip(1), c);
    }
}

/// A found first index lies in range and is the first hit.
pub proof fn lemma_first_index_bounds(s: Seq<char>, c: char)
    ensures
        match first_index_of(s, c) {
            Some(p) => 0 <= p < s.len() && s[p] == c && forall|j: int| 0 <= j < p ==> s[j] != c,
            None => forall|j: int| 0 <= j < s.len() ==> s[j] != c,
        },
    decreases s.len(),
{
    if s.len() > 0 && s[0] != c {
        lemma_first_index_bounds(s.skip(1), c);
        match first_index_of(s.skip(1), c) {
            Some(p) => {
                assert(s[p + 1] == s.skip(1)[p]);
                assert forall|j: int| 0 <= j < p + 1 implies s[j] != c by {
                    if j > 0 {
                        assert(s.skip(1)[j - 1] == s[j]);
                    }
                }
            },
            None => {
                assert forall|j: int| 0 <= j < s.len() implies s[j] != c by {
                    if j > 0 {
                        assert(s.skip(1)[j - 1] == s[j]);
                    }
                }
            },
        }
    }
}

/// Finds the first occurrence of the character `c` in `s`.
pub fn find_char(s: &Vec<char>, c: char) -> (r: Option<usize>)
    ensures
        match r {
            Some(p) => p < s@.len() && first_index_of(s@, c) == Some(p as int),
            None => first_index_of(s@, c) is None,
        },
{
    let mut k: usize = 0;
    while k < s.len()
        invariant
            k <= s@.len(),
            forall|j: int| 0 <= j < k ==> s@[j] != c,
        decreases s@.len() - k,
    {
        if s[k] == c {
            proof {
                lemma_first_index_some(s@, c, k as int);
            }
            return Some(k);
        }
        k = k + 1;
    }
    proof {
        lemma_first_index_none(s@, c);
    }
    None
}

/// The position of the first whitespace character in `s`, if any.
pub open spec fn first_space_index(s: Seq<char>) -> Option<int>
    decreases s.len(),
{
    if s.len() == 0 {
        None
    } else if is_space_char(s[0]) {
        Some(0)
    } else {
        match first_space_index(s.skip(1)) {
            Some(p) => Some(p + 1),
            None => None,
        }
    }
}

proof fn lemma_first_space_some(s: Seq<char>, p: int)
    requires
        0 <= p < s.len(),
        is_space_char(s[p]),
        forall|j: int| 0 <= j < p ==> !is_space_char(s[j]),
    ensures
        first_space_index(s) == Some(p),
    decreases s.len(),
{
    if p > 0 {
        assert(s.skip(1)[p - 1] == s[p]);
        assert(forall|j: int| 0 <= j < p - 1 ==> #[trigger] s.skip(1)[j] == s[j + 1]);
        lemma_first_space_some(s.skip(1), p - 1);
    }
}

proof fn lemma_first_space_none(s: Seq<char>)
    requires
        forall|j: int| 0 <= j < s.len() ==> !is_space_char(s[j]),
    ensures
        first_space_index(s) is None,
    decreases s.len(),
{
    if s.len() > 0 {
        assert(forall|j: int| 0 <= j < s.len() - 1 ==> #[trigger] s.skip(1)[j] == s[j + 1]);
        lemma_first_space_none(s.skip(1));
    }
}

/// Finds the first whitespace character in `s`.
pub fn find_space(s: &Vec<char>) -> (r: Option<usize>)
    ensures
        match r {
            Some(p) => p < s@.len() && first_space_index(s@) == Some(p as int),
            None => first_space_index(s@) is None,
        },
{
    let mut k: usize = 0;
    while k < s.len()
        invariant
            k <= s@.len(),
            forall|j: int| 0 <= j < k ==> !is_space_char(s@[j]),
        decreases s@.len() - k,
    {
        if space_char(s[k]) {
            proof {
                lemma_first_space_some(s@, k as int);
            }
            return Some(k);
        }
        k = k + 1;
    }
    proof {
        lemma_first_space_none(s@);
    }
    None
}

/// Copies the characters of `s` between positions `a` and `b`.
pub fn copy_range(s: &Vec<char>, a: usize, b: usize) -> (r: Vec<char>)
    requires
        a <= b <= s@.len(),
    ensures
        r@ == s@.subrange(a as int, b as int),
{
    let mut out: Vec<char> = Vec::new();
    let mut i: usize = a;
    while i < b
        invariant
            a <= i <= b <= s@.len(),
            out@ == s@.subrange(a as int, i as int),
        decreases b - i,
    {
        out.push(s[i]);
        i = i + 1;
        proof {
            assert(s@.subrange(a as int, i as int) =~= s@.subrange(a as int, i - 1).push(
                s@[i - 1],
            ));
        }
    }
    out
}

/// Compares two character vectors for equality.
pub fn chars_equal(a: &Vec<char>, b: &Vec<char>) -> (r: bool)
    ensures
        r == (a@ == b@),
{
    if a.len() != b.len() {
        proof {
            assert(a@.len() != b@.len());
        }
        return false;
    }
    let mut i: usize = 0;
    while i < a.len()
        invariant
            a@.len() == b@.len(),
            i <= a@.len(),
            forall|j: int| 0 <= j < i ==> a@[j] == b@[j],
        decreases a@.len() - i,
    {
        if a[i] != b[i] {
            return false;
        }
        i = i + 1;
    }
    proof {
        assert(a@ =~= b@);
    }
    true
}

/// Whether `pre` is a prefix of `s`.
pub open spec fn has_prefix(s: Seq<char>, pre: Seq<char>) -> bool {
    pre.len() <= s.len() && s.take(pre.len() as int) == pre
}

/// Checks whether `pat` is a prefix of `s`.
pub fn starts_with_pattern(s: &Vec<char>, pat: &Vec<char>) -> (b: bool)
    ensures
        b == has_prefix(s@, pat@),
{
    if pat.len() > s.len() {
        proof {
            assert(!has_prefix(s@, pat@));
        }
        return false;
    }
    let r = matches_at(s, 0, pat);
    proof {
        assert(s@.subrange(0, pat@.len() as int) =~= s@.take(pat@.len() as int));
    }
    r
}

} // verus!
