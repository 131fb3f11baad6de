//! Classifying source URLs and deriving video URLs from id listings.

use vstd::prelude::*;

use crate::text::{
    chars_of_str, contains_pattern, find_char, first_index_of, is_word_or_dash_char, matches_at,
    occurs, occurs_at, push_all, string_of_chars, trim_chars, trim_spec, word_or_dash_char,
};

verus! {

/// What kind of source a URL names.
#[derive(Clone, Copy, PartialEq, Eq, Structural, Debug)]
pub enum SourceKind {
    /// A video, channel or playlist URL.
    YouTube,
    /// Anything else is treated as a podcast RSS feed.
    Podcast,
}

/// The URL holds a video host's domain.
pub open spec fn youtube_source(s: Seq<char>) -> bool {
    occurs(s, "youtube.com"@) || occurs(s, "youtu.be"@)
}

/// Decides whether a URL is handled as a video source or as a podcast
/// feed.
pub fn classify_source(url: &str) -> (k: SourceKind)
    ensures
        k == SourceKind::YouTube <==> youtube_source(url@),
{
    proof {
        reveal_strlit("youtube.com");
        reveal_strlit("youtu.be");
    }
    let cs = chars_of_str(url);
    let p1 = chars_of_str("youtube.com");
    let p2 = chars_of_str("youtu.be");
    if contains_pattern(&cs, &p1) || contains_pattern(&cs, &p2) {
        SourceKind::YouTube
    } else {
        SourceKind::Podcast
    }
}

/// Somewhere in `s`, `pat` occurs followed directly by at least one
/// identifier character (a letter, digit, underscore or dash).
pub open spec fn pattern_then_word(s: Seq<char>, pat: Seq<char>) -> bool {
    exists|i: int|
        #[trigger] occurs_at(s, pat, i) && i + pat.len() < s.len() && is_word_or_dash_char(
            s[i + pat.len() as int],
        )
}

fn has_pattern_then_word(s: &Vec<char>, pat: &Vec<char>) -> (b: bool)
    requires
        pat@.len() >= 1,
    ensures
        b == pattern_then_word(s@, pat@),
{
    let n = s.len();
    if n < pat.len() {
        return false;
    }
    let mut i: usize = 0;
    while pat.len() < n - i
        invariant
            n == s@.len(),
            pat@.len() >= 1,
            i <= s@.len(),
            forall|j: int|
                0 <= j < i ==> !(#[trigger] occurs_at(s@, pat@, j) && j + pat@.len() < s@.len()
                    && is_word_or_dash_char(s@[j + pat@.len() as int])),
        decreases s@.len() - i,
    {
        if matches_at(s, i, pat) && word_or_dash_char(s[i + pat.len()]) {
            return true;
        }
        i = i + 1;
    }
    false
}

/// The URL names one single video: one of the four video URL shapes
/// occurs, each followed by at least one identifier character.
pub open spec fn single_video_url(s: Seq<char>) -> bool {
    ||| pattern_then_word(s, "youtube.com/watch?v="@)
    ||| pattern_then_word(s, "youtu.be/"@)
    ||| pattern_then_word(s, "youtube.com/v/"@)
    ||| pattern_then_word(s, "youtube.com/embed/"@)
}

/// Decides whether a URL names a single video rather than a channel or
/// playlist.
pub fn is_single_video_url(url: &str) -> (b: bool)
    ensures
        b == single_video_url(url@),
{
    proof {
        reveal_strlit("youtube.com/watch?v=");
        reveal_strlit("youtu.be/");
        reveal_strlit("youtube.com/v/");
        reveal_strlit("youtube.com/embed/");
    }
    let cs = chars_of_str(url);
    let p1 = chars_of_str("youtube.com/watch?v=");
    let p2 = chars_of_str("youtu.be/");
    let p3 = chars_of_str("youtube.com/v/");
    let p4 = chars_of_str("youtube.com/embed/");
    has_pattern_then_word(&cs, &p1) || has_pattern_then_word(&cs, &p2) || has_pattern_then_word(
        &cs,
        &p3,
    ) || has_pattern_then_word(&cs, &p4)
}

/// The watch-URL prefix put before each video id.
pub open spec fn watch_url_prefix() -> Seq<char> {
    "https://www.youtube.com/watch?v="@
}

/// The video URLs derived from one line of an id listing: none for a
/// blank line, else the watch-URL prefix followed by the trimmed id.
pub open spec fn line_video_urls(l: Seq<char>) -> Seq<Seq<char>> {
    let t = trim_spec(l);
    if t.len() == 0 {
        Seq::empty()
    } else {
        seq![watch_url_prefix() + t]
    }
}

/// The video URLs derived from a whole id listing, line by line.
pub open spec fn video_urls_of(s: Seq<char>) -> Seq<Seq<char>>
    decreases s.len(),
    via video_urls_of_decreases
{
    if s.len() == 0 {
        Seq::empty()
    } else {
        match first_index_of(s, '\n') {
            Some(p) => line_video_urls(s.take(p)) + video_urls_of(s.skip(p + 1)),
            None => line_video_urls(s),
        }
    }
}

#[via_fn]
proof fn video_urls_of_decreases(s: Seq<char>) {
    if s.len() != 0 {
        crate::text::lemma_first_index_bounds(s, '\n');
    }
}

fn line_video_url_exec(line: &Vec<char>, prefix: &Vec<char>, out: &mut Vec<String>)
    requires
        prefix@ == watch_url_prefix(),
    ensures
        final(out)@.len() == old(out)@.len() + line_video_urls(line@).len(),
        forall|j: int|
            0 <= j < old(out)@.len() ==> (#[trigger] final(out)@[j]) == old(out)@[j],
        forall|j: int|
            old(out)@.len() <= j < final(out)@.len() ==> (#[trigger] final(out)@[j])@
                == line_video_urls(line@)[j - old(out)@.len()],
{
    let t = trim_chars(line);
    if t.len() > 0 {
        let mut url: Vec<char> = Vec::new();
        push_all(&mut url, prefix);
        push_all(&mut url, &t);
        let s = string_of_chars(&url);
        out.push(s);
    }
}

fn video_urls_scan(rest: Vec<char>, prefix: &Vec<char>, out: &mut Vec<String>)
    requires
        prefix@ == watch_url_prefix(),
    ensures
        final(out)@.len() == old(out)@.len() + video_urls_of(rest@).len(),
        forall|j: int|
            0 <= j < old(out)@.len() ==> (#[trigger] final(out)@[j]) == old(out)@[j],
        forall|j: int|
            old(out)@.len() <= j < final(out)@.len() ==> (#[trigger] final(out)@[j])@
                == video_urls_of(rest@)[j - old(out)@.len()],
    decreases rest@.len(),
{
    if rest.len() == 0 {
        return ;
    }
    match find_char(&rest, '\n') {
        Some(p) => {
            let line = crate::text::copy_range(&rest, 0, p);
            proof {
                assert(line@ =~= rest@.take(p as int));
            }
            line_video_url_exec(&line, prefix, out);
            let n = rest.len();
            let tail = crate::text::copy_range(&rest, p + 1, n);
            proof {
                assert(tail@ =~= rest@.skip(p + 1));
            }
            video_urls_scan(tail, prefix, out);
        },
        None => {
            line_video_url_exec(&rest, prefix, out);
        },
    }
}

/// The source URLs listed by one line of a sources file: none for a
/// blank line or a `#` comment, else the trimmed line.
pub open spec fn line_sources(l: Seq<char>) -> Seq<Seq<char>> {
    let t = trim_spec(l);
    if t.len() == 0 || t[0] == '#' {
        Seq::empty()
    } else {
        seq![t]
    }
}

/// The source URLs listed by a whole sources file, line by line.
pub open spec fn sources_of(s: Seq<char>) -> Seq<Seq<char>>
    decreases s.len(),
    via sources_of_decreases
{
    if s.len() == 0 {
        Seq::empty()
    } else {
        match first_index_of(s, '\n') {
            Some(p) => line_sources(s.take(p)) + sources_of(s.skip(p + 1)),
            None => line_sources(s),
        }
    }
}

#[via_fn]
proof fn sources_of_decreases(s: Seq<char>) {
    if s.len() != 0 {
        crate::text::lemma_first_index_bounds(s, '\n');
    }
}

fn line_sources_exec(line: &Vec<char>, out: &mut Vec<String>)
    ensures
        final(out)@.len() == old(out)@.len() + line_sources(line@).len(),
        forall|j: int|
            0 <= j < old(out)@.len() ==> (#[trigger] final(out)@[j]) == old(out)@[j],
        forall|j: int|
            old(out)@.len() <= j < final(out)@.len() ==> (#[trigger] final(out)@[j])@
                == line_sources(line@)[j - old(out)@.len()],
{
    let t = trim_chars(line);
    if t.len() > 0 && t[0] != '#' {
        let s = string_of_chars(&t);
        out.push(s);
    }
}

fn sources_scan(rest: Vec<char>, out: &mut Vec<String>)
    ensures
        final(out)@.len() == old(out)@.len() + sources_of(rest@).len(),
        forall|j: int|
            0 <= j < old(out)@.len() ==> (#[trigger] final(out)@[j]) == old(out)@[j],
        forall|j: int|
            old(out)@.len() <= j < final(out)@.len() ==> (#[trigger] final(out)@[j])@
                == sources_of(rest@)[j - old(out)@.len()],
    decreases rest@.len(),
{
    if rest.len() == 0 {
        return ;
    }
    match find_char(&rest, '\n') {
        Some(p) => {
            let line = crate::text::copy_range(&rest, 0, p);
            proof {
                assert(line@ =~= rest@.take(p as int));
            }
            line_sources_exec(&line, out);
            let n = rest.len();
            let tail = crate::text::copy_range(&rest, p + 1, n);
            proof {
                assert(tail@ =~= rest@.skip(p + 1));
            }
            sources_scan(tail, out);
        },
        None => {
            line_sources_exec(&rest, out);
        },
    }
}

/// Reads the sources out of a sources-file text: one URL per line, with
/// blank lines and `#` comments skipped.
pub fn parse_source_lines(content: &str) -> (r: Vec<String>)
    ensures
        r@.len() == sources_of(content@).len(),
        forall|j: int| 0 <= j < r@.len() ==> (#[trigger] r@[j])@ == sources_of(content@)[j],
{
    let cs = chars_of_str(content);
    let mut out: Vec<String> = Vec::new();
    sources_scan(cs, &mut out);
    out
}

/// Turns the id listing a playlist query prints - one video id per line,
/// blank lines skipped - into full watch URLs, in listing order.
pub fn video_urls_from_ids(listing: &str) -> (r: Vec<String>)
    ensures
        r@.len() == video_urls_of(listing@).len(),
        forall|j: int|
            0 <= j < r@.len() ==> (#[trigger] r@[j])@ == video_urls_of(listing@)[j],
{
    let cs = chars_of_str(listing);
    let prefix = chars_of_str("https://www.youtube.com/watch?v=");
    let mut out: Vec<String> = Vec::new();
    video_urls_scan(cs, &prefix, &mut out);
    out
}

} // verus!
