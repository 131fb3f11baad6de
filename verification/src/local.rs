//! The local-file side of the resolver: validating a local media path,
//! picking its output directory, and writing its info sidecar text.

use vstd::prelude::*;
use vstd::string::StringExecFns;

use crate::config::Config;
use crate::errors::PipelineError;
use crate::ident::{sanitize_filename, sanitize_spec};
use crate::text::{
    chars_equal, chars_of_str, copy_range, has_prefix, starts_with_pattern, string_of_chars,
    u64_to_string, dec_str,
};

verus! {

/// The final component of a path: the characters after the last `/`.
pub open spec fn file_name_of(p: Seq<char>) -> Seq<char>
    decreases p.len(),
{
    if p.len() == 0 {
        Seq::empty()
    } else if p.last() == '/' {
        Seq::empty()
    } else {
        file_name_of(p.drop_last()).push(p.last())
    }
}

/// The position of the last `.` in a file name, if any.
pub open spec fn last_dot_of(f: Seq<char>) -> Option<int>
    decreases f.len(),
{
    if f.len() == 0 {
        None
    } else if f.last() == '.' {
        Some(f.len() - 1)
    } else {
        last_dot_of(f.drop_last())
    }
}

/// The extension of a file name: what follows the last `.`, provided that
/// dot is not the name's first character (a leading dot marks a hidden
/// file, not an extension). Empty when there is none.
pub open spec fn extension_of_name(f: Seq<char>) -> Seq<char> {
    match last_dot_of(f) {
        Some(k) => if k >= 1 {
            f.skip(k + 1)
        } else {
            Seq::empty()
        },
        None => Seq::empty(),
    }
}

/// The stem of a file name: what precedes the last `.` when that dot
/// marks an extension, the whole name otherwise.
pub open spec fn stem_of_name(f: Seq<char>) -> Seq<char> {
    match last_dot_of(f) {
        Some(k) => if k >= 1 {
            f.take(k)
        } else {
            f
        },
        None => f,
    }
}

/// The extension of a path's file name.
pub open spec fn extension_of(p: Seq<char>) -> Seq<char> {
    extension_of_name(file_name_of(p))
}

/// The stem of a path's file name, or `unknown` when the path has no file
/// name.
pub open spec fn stem_of(p: Seq<char>) -> Seq<char> {
    if file_name_of(p).len() == 0 {
        "unknown"@
    } else {
        stem_of_name(file_name_of(p))
    }
}

/// `s` with ASCII capitals folded to small letters.
pub open spec fn ascii_lower(s: Seq<char>) -> Seq<char>
    decreases s.len(),
{
    if s.len() == 0 {
        Seq::empty()
    } else {
        ascii_lower(s.drop_last()).push(lower_char(s.last()))
    }
}

/// One character with an ASCII capital folded to its small letter.
pub open spec fn lower_char(c: char) -> char {
    if c == 'A' {
        'a'
    } else if c == 'B' {
        'b'
    } else if c == 'C' {
        'c'
    } else if c == 'D' {
        'd'
    } else if c == 'E' {
        'e'
    } else if c == 'F' {
        'f'
    } else if c == 'G' {
        'g'
    } else if c == 'H' {
        'h'
    } else if c == 'I' {
        'i'
    } else if c == 'J' {
        'j'
    } else if c == 'K' {
        'k'
    } else if c == 'L' {
        'l'
    } else if c == 'M' {
        'm'
    } else if c == 'N' {
        'n'
    } else if c == 'O' {
        'o'
    } else if c == 'P' {
        'p'
    } else if c == 'Q' {
        'q'
    } else if c == 'R' {
        'r'
    } else if c == 'S' {
        's'
    } else if c == 'T' {
        't'
    } else if c == 'U' {
        'u'
    } else if c == 'V' {
        'v'
    } else if c == 'W' {
        'w'
    } else if c == 'X' {
        'x'
    } else if c == 'Y' {
        'y'
    } else if c == 'Z' {
        'z'
    } else {
        c
    }
}

fn lower_char_exec(c: char) -> (r: char)
    ensures
        r == lower_char(c),
{
    if c >= 'A' && c <= 'Z' {
        if c == 'A' {
            'a'
        } else if c == 'B' {
            'b'
        } else if c == 'C' {
            'c'
        } else if c == 'D' {
            'd'
        } else if c == 'E' {
            'e'
        } else if c == 'F' {
            'f'
        } else if c == 'G' {
            'g'
        } else if c == 'H' {
            'h'
        } else if c == 'I' {
            'i'
        } else if c == 'J' {
            'j'
        } else if c == 'K' {
            'k'
        } else if c == 'L' {
            'l'
        } else if c == 'M' {
            'm'
        } else if c == 'N' {
            'n'
        } else if c == 'O' {
            'o'
        } else if c == 'P' {
            'p'
        } else if c == 'Q' {
            'q'
        } else if c == 'R' {
            'r'
        } else if c == 'S' {
            's'
        } else if c == 'T' {
            't'
        } else if c == 'U' {
            'u'
        } else if c == 'V' {
            'v'
        } else if c == 'W' {
            'w'
        } else if c == 'X' {
            'x'
        } else if c == 'Y' {
            'y'
        } else {
            'z'
        }
    } else {
        c
    }
}

fn ascii_lower_exec(s: &Vec<char>) -> (r: Vec<char>)
    ensures
        r@ == ascii_lower(s@),
{
    let mut out: Vec<char> = Vec::new();
    let mut i: usize = 0;
    proof {
        assert(s@.take(0) =~= Seq::<char>::empty());
    }
    while i < s.len()
        invariant
            i <= s@.len(),
            out@ == ascii_lower(s@.take(i as int)),
        decreases s@.len() - i,
    {
        proof {
            assert(s@.take(i + 1).drop_last() =~= s@.take(i as int));
            assert(s@.take(i + 1).last() == s@[i as int]);
        }
        out.push(lower_char_exec(s[i]));
        i = i + 1;
    }
    proof {
        assert(s@.take(i as int) =~= s@);
    }
    out
}

/// Splits a path into its file name's stem and extension, executably.
fn split_path(p: &Vec<char>) -> (r: (Vec<char>, Vec<char>))
    ensures
        r.0@ == stem_of(p@),
        r.1@ == extension_of(p@),
{
    // find the file name: everything after the last '/'
    let mut name_start: usize = p.len();
    while name_start > 0 && p[name_start - 1] != '/'
        invariant
            name_start <= p@.len(),
            forall|j: int| name_start <= j < p@.len() ==> p@[j] != '/',
        decreases name_start,
    {
        name_start = name_start - 1;
    }
    let n = p.len();
    let fname = copy_range(p, name_start, n);
    proof {
        assert(fname@ =~= p@.skip(name_start as int));
        lemma_file_name_skip(p@, name_start as int);
    }
    // find the last '.' in the file name
    let mut dot: Option<usize> = None;
    let mut k: usize = fname.len();
    while k > 0
        invariant
            k <= fname@.len(),
            match dot {
                Some(d) => k <= d < fname@.len() && fname@[d as int] == '.' && forall|j: int|
                    d < j < fname@.len() ==> fname@[j] != '.',
                None => forall|j: int| k <= j < fname@.len() ==> fname@[j] != '.',
            },
        decreases k,
    {
        if fname[k - 1] == '.' && dot.is_none() {
            dot = Some(k - 1);
        }
        k = k - 1;
    }
    proof {
        match dot {
            Some(d) => lemma_last_dot_some(fname@, d as int),
            None => lemma_last_dot_none(fname@),
        }
    }
    let nf = fname.len();
    match dot {
        Some(d) if d >= 1 => {
            let stem = copy_range(&fname, 0, d);
            let ext = copy_range(&fname, d + 1, nf);
            proof {
                assert(stem@ =~= fname@.take(d as int));
                assert(ext@ =~= fname@.skip(d + 1));
                if fname@.len() == 0 {
                    assert(false);
                }
            }
            (stem, ext)
        },
        _ => {
            let ext: Vec<char> = Vec::new();
            if fname.len() == 0 {
                let stem = chars_of_str("unknown");
                (stem, ext)
            } else {
                (fname, ext)
            }
        },
    }
}

proof fn lemma_file_name_skip(p: Seq<char>, start: int)
    requires
        0 <= start <= p.len(),
        forall|j: int| start <= j < p.len() ==> p[j] != '/',
        start > 0 ==> p[start - 1] == '/',
    ensures
        file_name_of(p) == p.skip(start),
    decreases p.len() - start,
{
    if start == p.len() {
        if p.len() > 0 {
            assert(p.skip(start) =~= Seq::<char>::empty());
        } else {
            assert(p.skip(0) =~= p);
        }
    } else {
        lemma_file_name_take_step(p, start);
    }
}

proof fn lemma_file_name_take_step(p: Seq<char>, start: int)
    requires
        0 <= start < p.len(),
        forall|j: int| start <= j < p.len() ==> p[j] != '/',
        start > 0 ==> p[start - 1] == '/',
    ensures
        file_name_of(p) == p.skip(start),
    decreases p.len() - start,
{
    if start == p.len() - 1 {
        assert(file_name_of(p) == file_name_of(p.drop_last()).push(p.last()));
        lemma_file_name_empty(p.drop_last());
        assert(p.skip(start) =~= Seq::<char>::empty().push(p.last()));
    } else {
        assert(p.drop_last().len() == p.len() - 1);
        assert(forall|j: int| start <= j < p.len() - 1 ==> #[trigger] p.drop_last()[j] == p[j]);
        lemma_file_name_take_step(p.drop_last(), start);
        assert(p.skip(start) =~= p.drop_last().skip(start).push(p.last()));
    }
}

proof fn lemma_file_name_empty(p: Seq<char>)
    requires
        p.len() == 0 || p[p.len() - 1] == '/',
    ensures
        file_name_of(p) == Seq::<char>::empty(),
{
}

proof fn lemma_last_dot_some(f: Seq<char>, d: int)
    requires
        0 <= d < f.len(),
        f[d] == '.',
        forall|j: int| d < j < f.len() ==> f[j] != '.',
    ensures
        last_dot_of(f) == Some(d),
    decreases f.len(),
{
    if d == f.len() - 1 {
    } else {
        assert(f.last() != '.');
        assert(forall|j: int| d < j < f.len() - 1 ==> #[trigger] f.drop_last()[j] == f[j]);
        assert(f.drop_last()[d] == f[d]);
        lemma_last_dot_some(f.drop_last(), d);
    }
}

proof fn lemma_last_dot_none(f: Seq<char>)
    requires
        forall|j: int| 0 <= j < f.len() ==> f[j] != '.',
    ensures
        last_dot_of(f) is None,
    decreases f.len(),
{
    if f.len() > 0 {
        assert(forall|j: int| 0 <= j < f.len() - 1 ==> #[trigger] f.drop_last()[j] == f[j]);
        lemma_last_dot_none(f.drop_last());
    }
}

/// The text of a local file's info sidecar.
pub open spec fn file_info_spec(path: Seq<char>, size: u64, timestamp: Seq<char>) -> Seq<char> {
    "File: "@ + path + "\nSize: "@ + dec_str(size as nat) + " bytes\nTranscribed: "@ + timestamp
}

/// Processor for local media files.
pub struct LocalFileProcessor<'a> {
    /// Configuration for the processor.
    pub config: &'a Config,
}

impl<'a> LocalFileProcessor<'a> {
    /// Creates a new local file processor.
    pub fn new(config: &'a Config) -> (s: Self)
        ensures
            s.config == config,
    {
        LocalFileProcessor { config }
    }

    /// Checks whether a path names a local file rather than a URL. The
    /// caller supplies whether the path exists as a regular file; the
    /// filesystem is not consulted here.
    pub fn is_local_file_path(path: &str, exists_as_file: bool) -> (b: bool)
        ensures
            b == (!has_prefix(path@, "http://"@) && !has_prefix(path@, "https://"@)
                && exists_as_file),
    {
        let cs = chars_of_str(path);
        let p1 = chars_of_str("http://");
        let p2 = chars_of_str("https://");
        if starts_with_pattern(&cs, &p1) || starts_with_pattern(&cs, &p2) {
            return false;
        }
        exists_as_file
    }

    /// The compute part of processing a local file: rejects a missing
    /// file and any extension other than `mp3` (compared with ASCII case
    /// folded), and yields the file's output directory, named by the
    /// sanitized file stem under `local_files`.
    pub fn prepare(&self, file_path: &str, exists_as_file: bool) -> (r: Result<
        String,
        PipelineError,
    >)
        ensures
            match r {
                Ok(dir) => {
                    &&& exists_as_file
                    &&& ascii_lower(extension_of(file_path@)) == "mp3"@
                    &&& dir@ == self.config.output_dir@ + "/local_files/"@ + sanitize_spec(
                        stem_of(file_path@),
                    )
                },
                Err(e) => {
                    if !exists_as_file {
                        e matches PipelineError::Resolution { message } && message@
                            == "File does not exist: "@ + file_path@
                    } else {
                        &&& ascii_lower(extension_of(file_path@)) != "mp3"@
                        &&& e matches PipelineError::Resolution { message } && message@
                            == "Unsupported file format: "@ + extension_of(file_path@)
                    }
                },
            },
    {
        if !exists_as_file {
            let mut m = String::from_str("File does not exist: ");
            m.append(file_path);
            return Err(PipelineError::Resolution { message: m });
        }
        let cs = chars_of_str(file_path);
        let (stem, ext) = split_path(&cs);
        let lowered = ascii_lower_exec(&ext);
        let mp3 = chars_of_str("mp3");
        if !chars_equal(&lowered, &mp3) {
            let ext_s = string_of_chars(&ext);
            let mut m = String::from_str("Unsupported file format: ");
            m.append(ext_s.as_str());
            return Err(PipelineError::Resolution { message: m });
        }
        let stem_s = string_of_chars(&stem);
        let name = sanitize_filename(stem_s.as_str());
        let base = String::from_str(self.config.output_dir.as_str());
        Ok(base.concat("/local_files/").concat(name.as_str()))
    }

    /// The text of a local file's info sidecar: the path, the size in
    /// bytes, and the timestamp the caller formatted.
    pub fn file_info_text(&self, file_path: &str, size_bytes: u64, timestamp: &str) -> (r: String)
        ensures
            r@ == file_info_spec(file_path@, size_bytes, timestamp@),
    {
        let mut info = String::from_str("File: ");
        info.append(file_path);
        info.append("\nSize: ");
        let ns = u64_to_string(size_bytes);
        info.append(ns.as_str());
        info.append(" bytes\nTranscribed: ");
        info.append(timestamp);
        info
    }
}

} // verus!
