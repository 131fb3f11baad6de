//! Finding an API key in the text of an env file.
//!
//! The text is read line by line. A comment or blank line is skipped. A
//! line holding the key variable's name yields the value after `=`, with
//! surrounding whitespace and symmetric quotes removed and a trailing `#`
//! comment cut. Failing that, a line that itself starts with the key prefix
//! `sk-` yields its first whitespace-separated token.

use vstd::prelude::*;

use crate::text::{
    chars_equal, chars_of_str, contains_pattern, copy_range, find_char, find_space,
    first_index_of, first_space_index, occurs, string_of_chars, trim_chars, trim_spec,
};

verus! {

/// The variable name that marks a key assignment.
pub open spec fn key_marker() -> Seq<char> {
    seq!['O', 'P', 'E', 'N', 'A', 'I', '_', 'A', 'P', 'I', '_', 'K', 'E', 'Y']
}

/// The prefix every accepted key starts with.
pub open spec fn key_prefix() -> Seq<char> {
    seq!['s', 'k', '-']
}

fn key_marker_chars() -> (v: Vec<char>)
    ensures
        v@ == key_marker(),
{
    let mut v: Vec<char> = Vec::new();
    v.push('O');
    v.push('P');
    v.push('E');
    v.push('N');
    v.push('A');
    v.push('I');
    v.push('_');
    v.push('A');
    v.push('P');
    v.push('I');
    v.push('_');
    v.push('K');
    v.push('E');
    v.push('Y');
    proof {
        assert(v@ =~= key_marker());
    }
    v
}

pub(crate) fn key_prefix_chars() -> (v: Vec<char>)
    ensures
        v@ == key_prefix(),
{
    let mut v: Vec<char> = Vec::new();
    v.push('s');
    v.push('k');
    v.push('-');
    proof {
        assert(v@ =~= key_prefix());
    }
    v
}

/// `v` with one layer of symmetric double or single quotes removed.
pub open spec fn unquote(v: Seq<char>) -> Seq<char> {
    if v.len() >= 2 && ((v[0] == '"' && v.last() == '"') || (v[0] == '\'' && v.last() == '\'')) {
        v.subrange(1, v.len() - 1)
    } else {
        v
    }
}

/// `v` cut at its first `#` and trimmed, when a `#` is present.
pub open spec fn cut_comment(v: Seq<char>) -> Seq<char> {
    match first_index_of(v, '#') {
        Some(h) => trim_spec(v.take(h)),
        None => v,
    }
}

/// The value a key assignment line yields: the text after the first `=`,
/// trimmed, unquoted, with a trailing comment cut - if the line names the
/// key variable and the value is non-empty.
pub open spec fn assignment_value(line: Seq<char>) -> Option<Seq<char>> {
    if occurs(line, key_marker()) {
        match first_index_of(line, '=') {
            Some(p) => {
                let v = cut_comment(unquote(trim_spec(line.skip(p + 1))));
                if v.len() > 0 {
                    Some(v)
                } else {
                    None
                }
            },
            None => None,
        }
    } else {
        None
    }
}

/// The token a bare-key line yields: the first whitespace-separated token
/// of the trimmed line, when that line starts with the key prefix.
pub open spec fn bare_key_token(line: Seq<char>) -> Option<Seq<char>> {
    let t = trim_spec(line);
    if t.len() >= 3 && t.take(3) == key_prefix() {
        match first_space_index(t) {
            Some(w) => Some(t.take(w)),
            None => Some(t),
        }
    } else {
        None
    }
}

/// What one line contributes: nothing for a blank or comment line, else an
/// assignment value, else a bare key token.
pub open spec fn line_key(line: Seq<char>) -> Option<Seq<char>> {
    let t = trim_spec(line);
    if t.len() == 0 || t[0] == '#' {
        None
    } else if assignment_value(line) is Some {
        assignment_value(line)
    } else {
        bare_key_token(line)
    }
}

/// A line as delivered by line splitting: text up to a line feed, with one
/// trailing carriage return removed.
pub open spec fn strip_cr(l: Seq<char>) -> Seq<char> {
    if l.len() > 0 && l.last() == '\r' {
        l.drop_last()
    } else {
        l
    }
}

/// What the whole text yields: the first line's key, scanning from the
/// top.
pub open spec fn env_key_of(content: Seq<char>) -> Option<Seq<char>>
    decreases content.len(),
    via env_key_of_decreases
{
    if content.len() == 0 {
        None
    } else {
        match first_index_of(content, '\n') {
            Some(p) => {
                match line_key(strip_cr(content.take(p))) {
                    Some(k) => Some(k),
                    None => env_key_of(content.skip(p + 1)),
                }
            },
            None => line_key(strip_cr(content)),
        }
    }
}

#[via_fn]
proof fn env_key_of_decreases(content: Seq<char>) {
    if content.len() != 0 {
        crate::text::lemma_first_index_bounds(content, '\n');
    }
}

fn strip_cr_exec(l: Vec<char>) -> (r: Vec<char>)
    ensures
        r@ == strip_cr(l@),
{
    let mut v = l;
    if v.len() > 0 && v[v.len() - 1] == '\r' {
        v.pop();
    }
    v
}

/// What one line contributes, executably.
fn line_key_exec(line: &Vec<char>) -> (r: Option<Vec<char>>)
    ensures
        match r {
            Some(k) => line_key(line@) == Some(k@),
            None => line_key(line@) is None,
        },
{
    let t = trim_chars(line);
    if t.len() == 0 || t[0] == '#' {
        return None;
    }
    let marker = key_marker_chars();
    if contains_pattern(line, &marker) {
        match find_char(line, '=') {
            Some(p) => {
                let n = line.len();
                let after = copy_range(line, p + 1, n);
                proof {
                    assert(after@ =~= line@.skip(p + 1));
                }
                let trimmed = trim_chars(&after);
                let unquoted = unquote_exec(trimmed);
                let value = cut_comment_exec(unquoted);
                if value.len() > 0 {
                    return Some(value);
                }
            },
            None => {},
        }
    }
    // fall through to the bare-key form, as the assignment form yielded
    // nothing
    let prefix = key_prefix_chars();
    if t.len() >= 3 {
        let head = copy_range(&t, 0, 3);
        proof {
            assert(head@ =~= t@.take(3));
        }
        if chars_equal(&head, &prefix) {
            match find_space(&t) {
                Some(w) => {
                    let token = copy_range(&t, 0, w);
                    proof {
                        assert(token@ =~= t@.take(w as int));
                    }
                    return Some(token);
                },
                None => {
                    return Some(t);
                },
            }
        }
    }
    None
}

fn unquote_exec(v: Vec<char>) -> (r: Vec<char>)
    ensures
        r@ == unquote(v@),
{
    if v.len() >= 2 && ((v[0] == '"' && v[v.len() - 1] == '"') || (v[0] == '\'' && v[v.len() - 1]
        == '\'')) {
        let r = copy_range(&v, 1, v.len() - 1);
        proof {
            assert(r@ =~= v@.subrange(1, v@.len() - 1));
        }
        r
    } else {
        v
    }
}

fn cut_comment_exec(v: Vec<char>) -> (r: Vec<char>)
    ensures
        r@ == cut_comment(v@),
{
    match find_char(&v, '#') {
        Some(h) => {
            let head = copy_range(&v, 0, h);
            proof {
                assert(head@ =~= v@.take(h as int));
            }
            trim_chars(&head)
        },
        None => v,
    }
}

fn scan_lines(rest: Vec<char>) -> (r: Option<Vec<char>>)
    ensures
        match r {
            Some(k) => env_key_of(rest@) == Some(k@),
            None => env_key_of(rest@) is None,
        },
    decreases rest@.len(),
{
    if rest.len() == 0 {
        return None;
    }
    match find_char(&rest, '\n') {
        Some(p) => {
            let raw_line = copy_range(&rest, 0, p);
            proof {
                assert(raw_line@ =~= rest@.take(p as int));
            }
            let line = strip_cr_exec(raw_line);
            match line_key_exec(&line) {
                Some(k) => Some(k),
                None => {
                    let tail = copy_range(&rest, p + 1, rest.len());
                    proof {
                        assert(tail@ =~= rest@.skip(p + 1));
                    }
                    scan_lines(tail)
                },
            }
        },
        None => {
            let line = strip_cr_exec(rest);
            line_key_exec(&line)
        },
    }
}

/// Searches the text of an env file for an API key, line by line from the
/// top: the value of the first non-empty `OPENAI_API_KEY` assignment, or
/// the first token of the first line that itself starts with `sk-`.
pub fn find_api_key_in_env_text(content: &str) -> (r: Option<String>)
    ensures
        match r {
            Some(k) => env_key_of(content@) == Some(k@),
            None => env_key_of(content@) is None,
        },
{
    let chars = chars_of_str(content);
    match scan_lines(chars) {
        Some(k) => Some(string_of_chars(&k)),
        None => None,
    }
}

} // verus!
