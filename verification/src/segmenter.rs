//! The segmenter: plans ordered, time-contiguous chunks of an audio asset,
//! names the chunk files, and builds the exact argument lists for the
//! outside tools that probe duration and extract chunks.
//!
//! Durations are carried as whole milliseconds, which keeps the sub-second
//! precision the chunk-count computation needs.

use vstd::prelude::*;
use vstd::arithmetic::div_mod::lemma_fundamental_div_mod;
use vstd::arithmetic::mul::{lemma_mul_inequality, lemma_mul_is_associative};

use vstd::string::StringExecFns;

use crate::text::{
    dec_str, digits_val, find_char, first_index_of, is_digit_char, push_dec, string_of_chars,
    trim_chars, trim_spec, all_digits, digit_value, chars_of_str, u64_to_string,
};

verus! {

/// One planned chunk of an audio asset.
pub struct ChunkSpec {
    /// 0-based, contiguous position of the chunk.
    pub index: u64,
    /// Where extraction starts, in whole seconds: `index * target_seconds`.
    pub start_seconds: u64,
    /// Whether extraction is bounded to exactly the target duration. Every
    /// chunk but the last is; the last runs to end of stream so that
    /// rounding at the boundary never truncates it.
    pub limited: bool,
}

/// `ceil(a / b)` for positive `b`.
pub open spec fn ceil_div(a: int, b: int) -> int {
    (a + b - 1) / b
}

/// Plans the chunks for an asset of the given duration: `ceil(d / t)` chunks
/// numbered `0, 1, ...` with no gaps, chunk `i` starting at `i * t` seconds,
/// every chunk but the last bounded to the target duration.
pub fn plan_chunks(duration_ms: u64, target_seconds: u64) -> (r: Vec<ChunkSpec>)
    requires
        target_seconds >= 1,
        // machine limit: the rounded-up dividend must fit the word
        duration_ms as int + target_seconds as int * 1000 <= u64::MAX as int,
    ensures
        r@.len() == ceil_div(duration_ms as int, target_seconds as int * 1000),
        forall|i: int| 0 <= i < r@.len() ==> (#[trigger] r@[i]).index == i,
        forall|i: int| 0 <= i < r@.len() ==> (#[trigger] r@[i]).start_seconds
            == i * target_seconds,
        forall|i: int| 0 <= i < r@.len() ==> ((#[trigger] r@[i]).limited <==> i + 1 < r@.len()),
{
    let target_ms: u64 = target_seconds * 1000;
    let count: u64 = (duration_ms + (target_ms - 1)) / target_ms;
    proof {
        let d = duration_ms as int;
        let tm = target_ms as int;
        let q = count as int;
        lemma_fundamental_div_mod(d + tm - 1, tm);
        assert(count as int == ceil_div(duration_ms as int, target_seconds as int * 1000));
        // every planned start lies strictly inside the asset
        let rr = (d + tm - 1) % tm;
        assert(d + tm - 1 == tm * q + rr);
        assert(0 <= rr < tm);
        assert((q - 1) * tm == tm * q - tm) by (nonlinear_arith);
        assert(count >= 1 ==> (count as int - 1) * target_ms as int <= duration_ms as int - 1);
    }
    let mut r: Vec<ChunkSpec> = Vec::new();
    let mut i: u64 = 0;
    while i < count
        invariant
            target_seconds >= 1,
            target_ms == target_seconds * 1000,
            duration_ms as int + target_ms as int <= u64::MAX as int,
            count >= 1 ==> (count as int - 1) * target_ms as int <= duration_ms as int - 1,
            i <= count,
            r@.len() == i,
            forall|j: int| 0 <= j < i ==> (#[trigger] r@[j]).index == j,
            forall|j: int| 0 <= j < i ==> (#[trigger] r@[j]).start_seconds == j * target_seconds,
            forall|j: int| 0 <= j < i ==> ((#[trigger] r@[j]).limited <==> j + 1 < count),
        decreases count - i,
    {
        proof {
            lemma_mul_inequality(i as int, count as int - 1, target_ms as int);
            lemma_mul_is_associative(i as int, target_seconds as int, 1000);
            // i * target_seconds * 1000 <= (count - 1) * target_ms < duration_ms
            assert(i as int * target_seconds as int <= i as int * target_seconds as int * 1000);
        }
        let start_seconds: u64 = i * target_seconds;
        r.push(ChunkSpec { index: i, start_seconds, limited: i + 1 < count });
        i = i + 1;
    }
    r
}

/// The position of the first `.` in `t`, if any.
pub open spec fn first_index_of_dot(t: Seq<char>) -> Option<int> {
    first_index_of(t, '.')
}

/// What the total in milliseconds of a trimmed decimal duration text is:
/// one or more digits, optionally followed by `.` and fractional digits, of
/// which the first three (padded with zeros) give the milliseconds. `None`
/// when the text has any other shape.
pub open spec fn duration_ms_of(t: Seq<char>) -> Option<int> {
    match first_index_of_dot(t) {
        Some(p) => {
            let whole = t.take(p);
            let frac = t.skip(p + 1);
            if whole.len() >= 1 && all_digits(whole) && all_digits(frac) {
                Some(digits_val(whole) * 1000 + frac_ms(frac))
            } else {
                None
            }
        },
        None => {
            if t.len() >= 1 && all_digits(t) {
                Some(digits_val(t) * 1000)
            } else {
                None
            }
        },
    }
}

/// The milliseconds encoded by the fractional digits: the first three,
/// padded with zeros.
pub open spec fn frac_ms(frac: Seq<char>) -> int {
    if frac.len() == 0 {
        0
    } else if frac.len() == 1 {
        digit_value(frac[0]) * 100
    } else if frac.len() == 2 {
        digit_value(frac[0]) * 100 + digit_value(frac[1]) * 10
    } else {
        digit_value(frac[0]) * 100 + digit_value(frac[1]) * 10 + digit_value(frac[2])
    }
}

proof fn lemma_digits_val_nonneg(s: Seq<char>)
    requires
        all_digits(s),
    ensures
        digits_val(s) >= 0,
    decreases s.len(),
{
    if s.len() > 0 {
        assert(all_digits(s.drop_last()));
        lemma_digits_val_nonneg(s.drop_last());
    }
}

proof fn lemma_digits_val_prefix_le(s: Seq<char>, i: int)
    requires
        all_digits(s),
        0 <= i <= s.len(),
    ensures
        digits_val(s.take(i)) <= digits_val(s),
    decreases s.len() - i,
{
    assert(all_digits(s.take(i)));
    if i < s.len() {
        lemma_digits_val_prefix_le(s, i + 1);
        assert(s.take(i + 1).drop_last() =~= s.take(i));
        lemma_digits_val_nonneg(s.take(i));
        assert(digits_val(s.take(i + 1)) == digits_val(s.take(i)) * 10 + digit_value(
            s.take(i + 1).last(),
        ));
    } else {
        assert(s.take(i) =~= s);
    }
}

/// Tests whether `c` is an ASCII digit.
fn digit_char_test(c: char) -> (b: bool)
    ensures
        b == is_digit_char(c),
{
    c >= '0' && c <= '9'
}

/// The numeric value of an ASCII digit character.
fn digit_char_value(c: char) -> (d: u64)
    requires
        is_digit_char(c),
    ensures
        d == digit_value(c),
        d < 10,
{
    if c == '0' {
        0
    } else if c == '1' {
        1
    } else if c == '2' {
        2
    } else if c == '3' {
        3
    } else if c == '4' {
        4
    } else if c == '5' {
        5
    } else if c == '6' {
        6
    } else if c == '7' {
        7
    } else if c == '8' {
        8
    } else {
        assert(c == '9');
        9
    }
}

/// Parses the duration text an audio prober prints: a decimal number of
/// seconds, surrounded by optional whitespace. Returns the duration in
/// whole milliseconds, or `None` when the text is not such a number or the
/// millisecond count does not fit a 64-bit word.
pub fn parse_duration_ms(s: &str) -> (r: Option<u64>)
    ensures
        match duration_ms_of(trim_spec(s@)) {
            Some(m) => if m <= u64::MAX as int {
                r matches Some(v) && v as int == m
            } else {
                r is None
            },
            None => r is None,
        },
{
    let raw = chars_of_str(s);
    let t = trim_chars(&raw);
    let ghost tv = t@;
    let dot = find_char(&t, '.');
    let (whole_end, has_frac): (usize, bool) = match dot {
        Some(p) => (p, true),
        None => (t.len(), false),
    };
    if whole_end == 0 {
        return None;
    }
    // parse the whole-seconds digits
    let ghost whole = tv.take(whole_end as int);
    let mut val: u64 = 0;
    let mut i: usize = 0;
    let mut overflow: bool = false;
    while i < whole_end
        invariant
            whole_end <= tv.len(),
            tv == t@,
            tv == trim_spec(s@),
            1 <= whole_end,
            has_frac ==> first_index_of_dot(tv) == Some(whole_end as int),
            !has_frac ==> first_index_of_dot(tv) is None && whole_end == tv.len(),
            whole == tv.take(whole_end as int),
            i <= whole_end,
            all_digits(whole.take(i as int)),
            !overflow ==> val as int == digits_val(whole.take(i as int)),
            overflow ==> digits_val(whole.take(i as int)) > u64::MAX as int,
        decreases whole_end - i,
    {
        let c = t[i];
        proof {
            assert(whole[i as int] == tv[i as int]);
        }
        if !digit_char_test(c) {
            proof {
                assert(!is_digit_char(whole[i as int]));
                assert(!all_digits(whole));
                if !has_frac {
                    assert(whole =~= tv);
                }
            }
            return None;
        }
        let d = digit_char_value(c);
        let ghost prev = whole.take(i as int);
        proof {
            assert(whole.take(i + 1).drop_last() =~= prev);
            assert(whole.take(i + 1).last() == tv[i as int]);
            assert(digits_val(whole.take(i + 1)) == digits_val(prev) * 10 + d);
            assert forall|m: int| 0 <= m < i + 1 implies is_digit_char(
                #[trigger] whole.take(i + 1)[m],
            ) by {
                if m < i {
                    assert(whole.take(i + 1)[m] == prev[m]);
                }
            }
            lemma_digits_val_nonneg(prev);
        }
        if overflow || val > u64::MAX / 10 || (val == u64::MAX / 10 && d > u64::MAX % 10) {
            proof {
                if !overflow {
                    assert(val as int * 10 + d as int > u64::MAX as int);
                }
            }
            overflow = true;
        } else {
            val = val * 10 + d;
        }
        i = i + 1;
    }
    proof {
        assert(whole.take(whole_end as int) =~= whole);
    }
    // parse and validate the fractional digits
    let mut fr: u64 = 0;
    if has_frac {
        let frac_start = whole_end + 1;
        let ghost frac = tv.skip(frac_start as int);
        let mut j: usize = frac_start;
        while j < t.len()
            invariant
                frac_start <= tv.len(),
                tv == t@,
                tv == trim_spec(s@),
                frac_start == whole_end + 1,
                first_index_of_dot(tv) == Some(whole_end as int),
                frac == tv.skip(frac_start as int),
                frac_start <= j <= tv.len(),
                all_digits(frac.take(j - frac_start)),
                fr as int == frac_ms(frac.take(j - frac_start)),
                fr < 1000,
            decreases tv.len() - j,
        {
            let c = t[j];
            proof {
                assert(frac[j - frac_start] == tv[j as int]);
            }
            if !digit_char_test(c) {
                proof {
                    assert(!is_digit_char(frac[j - frac_start]));
                    assert(!all_digits(frac));
                }
                return None;
            }
            let d = digit_char_value(c);
            let pos = j - frac_start;
            let ghost prevf = frac.take(pos as int);
            proof {
                assert(frac.take(pos + 1).drop_last() =~= prevf);
                assert(frac.take(pos + 1)[pos as int] == tv[j as int]);
                assert forall|m: int| 0 <= m < pos + 1 implies is_digit_char(
                    #[trigger] frac.take(pos + 1)[m],
                ) by {
                    if m < pos {
                        assert(frac.take(pos + 1)[m] == prevf[m]);
                    }
                }
                assert forall|m: int| 0 <= m < pos implies #[trigger] frac.take(pos + 1)[m]
                    == prevf[m] by {}
            }
            if pos == 0 {
                fr = d * 100;
            } else if pos == 1 {
                fr = fr + d * 10;
            } else if pos == 2 {
                fr = fr + d;
            }
            j = j + 1;
            proof {
                let taken = frac.take(pos + 1);
                if pos == 0 {
                    assert(frac_ms(taken) == digit_value(taken[0]) * 100);
                    assert(taken[0] == tv[j - 1]);
                } else if pos >= 3 {
                    assert(frac_ms(taken) == frac_ms(prevf));
                }
                assert(frac_ms(taken) == fr as int);
            }
        }
        proof {
            assert(frac.take(tv.len() - frac_start) =~= frac);
        }
    }
    proof {
        lemma_digits_val_nonneg(whole);
        if !has_frac {
            assert(tv.take(whole_end as int) =~= tv);
        }
    }
    if overflow {
        proof {
            lemma_digits_val_prefix_le(whole, whole.len() as int);
        }
        return None;
    }
    // combine, rejecting totals over the word size
    if val > (u64::MAX - fr) / 1000 {
        proof {
            lemma_fundamental_div_mod(u64::MAX as int - fr as int, 1000);
        }
        return None;
    }
    proof {
        lemma_fundamental_div_mod(u64::MAX as int - fr as int, 1000);
    }
    Some(val * 1000 + fr)
}

/// The probe tool's arguments for reading an asset's duration.
pub open spec fn probe_args_spec(input_file: Seq<char>) -> Seq<Seq<char>> {
    seq![
        "-v"@,
        "error"@,
        "-show_entries"@,
        "format=duration"@,
        "-of"@,
        "default=noprint_wrappers=1:nokey=1"@,
        input_file,
    ]
}

/// Builds the probe tool's arguments for reading an asset's duration.
pub fn probe_args(input_file: &str) -> (r: Vec<String>)
    ensures
        r@.len() == probe_args_spec(input_file@).len(),
        forall|j: int| 0 <= j < r@.len() ==> (#[trigger] r@[j])@ == probe_args_spec(input_file@)[j],
{
    let mut r: Vec<String> = Vec::new();
    r.push(String::from_str("-v"));
    r.push(String::from_str("error"));
    r.push(String::from_str("-show_entries"));
    r.push(String::from_str("format=duration"));
    r.push(String::from_str("-of"));
    r.push(String::from_str("default=noprint_wrappers=1:nokey=1"));
    r.push(String::from_str(input_file));
    r
}

/// The extraction tool's arguments for one chunk: seek to the chunk's
/// start, bound the duration for every chunk but the last, re-encode at a
/// fixed bitrate so chunk sizes stay predictable.
pub open spec fn extract_args_spec(
    input_file: Seq<char>,
    c: ChunkSpec,
    target_seconds: u64,
    output_file: Seq<char>,
) -> Seq<Seq<char>> {
    let head = seq![
        "-nostdin"@,
        "-v"@,
        "quiet"@,
        "-y"@,
        "-i"@,
        input_file,
        "-ss"@,
        dec_str(c.start_seconds as nat),
    ];
    let bounded = if c.limited {
        head + seq!["-t"@, dec_str(target_seconds as nat)]
    } else {
        head
    };
    bounded + seq!["-acodec"@, "libmp3lame"@, "-b:a"@, "128k"@, output_file]
}

/// Builds the extraction tool's arguments for one chunk.
pub fn extract_args(input_file: &str, c: &ChunkSpec, target_seconds: u64, output_file: &str) -> (r:
    Vec<String>)
    ensures
        r@.len() == extract_args_spec(input_file@, *c, target_seconds, output_file@).len(),
        forall|j: int|
            0 <= j < r@.len() ==> (#[trigger] r@[j])@ == extract_args_spec(
                input_file@,
                *c,
                target_seconds,
                output_file@,
            )[j],
{
    let ghost expected = extract_args_spec(input_file@, *c, target_seconds, output_file@);
    let mut r: Vec<String> = Vec::new();
    r.push(String::from_str("-nostdin"));
    r.push(String::from_str("-v"));
    r.push(String::from_str("quiet"));
    r.push(String::from_str("-y"));
    r.push(String::from_str("-i"));
    r.push(String::from_str(input_file));
    r.push(String::from_str("-ss"));
    r.push(u64_to_string(c.start_seconds));
    if c.limited {
        r.push(String::from_str("-t"));
        r.push(u64_to_string(target_seconds));
    }
    r.push(String::from_str("-acodec"));
    r.push(String::from_str("libmp3lame"));
    r.push(String::from_str("-b:a"));
    r.push(String::from_str("128k"));
    r.push(String::from_str(output_file));
    proof {
        assert(r@.len() == expected.len());
        assert(forall|j: int| 0 <= j < r@.len() ==> (#[trigger] r@[j])@ == expected[j]);
    }
    r
}

/// The file name of chunk `i` (counted from 0): `chunk_<i + 1>.mp3`.
pub open spec fn chunk_file_name_spec(i: nat) -> Seq<char> {
    seq!['c', 'h', 'u', 'n', 'k', '_'] + dec_str(i + 1) + seq!['.', 'm', 'p', '3']
}

/// Builds the file name of chunk `i`.
pub fn chunk_file_name(i: u64) -> (r: String)
    requires
        i < u64::MAX,
    ensures
        r@ == chunk_file_name_spec(i as nat),
{
    let mut v: Vec<char> = Vec::new();
    v.push('c');
    v.push('h');
    v.push('u');
    v.push('n');
    v.push('k');
    v.push('_');
    proof {
        assert(v@ =~= seq!['c', 'h', 'u', 'n', 'k', '_']);
    }
    push_dec(i + 1, &mut v);
    v.push('.');
    v.push('m');
    v.push('p');
    v.push('3');
    proof {
        assert(v@ =~= chunk_file_name_spec(i as nat));
    }
    string_of_chars(&v)
}

/// The file name of chunk transcript `i` (counted from 0):
/// `transcript_<i + 1>.txt`.
pub open spec fn transcript_file_name_spec(i: nat) -> Seq<char> {
    seq!['t', 'r', 'a', 'n', 's', 'c', 'r', 'i', 'p', 't', '_'] + dec_str(i + 1) + seq![
        '.',
        't',
        'x',
        't',
    ]
}

/// Builds the file name under which chunk `i`'s transcription is staged.
pub fn transcript_file_name(i: u64) -> (r: String)
    requires
        i < u64::MAX,
    ensures
        r@ == transcript_file_name_spec(i as nat),
{
    let mut v: Vec<char> = Vec::new();
    v.push('t');
    v.push('r');
    v.push('a');
    v.push('n');
    v.push('s');
    v.push('c');
    v.push('r');
    v.push('i');
    v.push('p');
    v.push('t');
    v.push('_');
    proof {
        assert(v@ =~= seq!['t', 'r', 'a', 'n', 's', 'c', 'r', 'i', 'p', 't', '_']);
    }
    push_dec(i + 1, &mut v);
    v.push('.');
    v.push('t');
    v.push('x');
    v.push('t');
    proof {
        assert(v@ =~= transcript_file_name_spec(i as nat));
    }
    string_of_chars(&v)
}

} // verus!
