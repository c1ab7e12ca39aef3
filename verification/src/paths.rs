//! File-kind dispatch: which loading route a path takes, decided by its
//! extension (compound `.asdf.json` first, then the lowercased final
//! extension).

use vstd::prelude::*;
use vstd::string::*;

verus! {

/// Position of the last occurrence of `c` in `s`.
pub open spec fn rfind(s: Seq<char>, c: char) -> Option<int>
    decreases s.len(),
{
    if s.len() == 0 {
        None
    } else if s[s.len() - 1] == c {
        Some(s.len() - 1)
    } else {
        rfind(s.drop_last(), c)
    }
}

/// `rfind` returns exactly the last occurrence: the found position holds
/// `c` with none after it, and `None` means no occurrence at all.
pub proof fn lemma_rfind(s: Seq<char>, c: char)
    ensures
        match rfind(s, c) {
            Some(i) => 0 <= i < s.len() && s[i] == c && forall|j: int|
                i < j < s.len() ==> s[j] != c,
            None => forall|j: int| 0 <= j < s.len() ==> s[j] != c,
        },
    decreases s.len(),
{
    if s.len() == 0 {
    } else if s[s.len() - 1] == c {
    } else {
        lemma_rfind(s.drop_last(), c);
        assert forall|j: int| 0 <= j < s.len() - 1 implies s.drop_last()[j] == s[j] by {}
    }
}

/// The converse: a position holding `c` with none after it is what
/// `rfind` returns.
pub proof fn lemma_rfind_exact(s: Seq<char>, c: char, i: int)
    requires
        0 <= i < s.len(),
        s[i] == c,
        forall|j: int| i < j < s.len() ==> s[j] != c,
    ensures
        rfind(s, c) == Some(i),
    decreases s.len(),
{
    if i == s.len() - 1 {
    } else {
        assert(s[s.len() - 1] != c);
        lemma_rfind_exact(s.drop_last(), c, i);
    }
}

/// ASCII lowercase of one character.
pub open spec fn lower_char(c: char) -> char {
    if c == 'A' {
        'a'
    } else if c == 'B' {
        'b'
    } else if c == 'C' {
        'c'
    } else if c == 'D' {
        'd'
    } else if c == 'E' {
        'e'
    } else if c == 'F' {
        'f'
    } else if c == 'G' {
        'g'
    } else if c == 'H' {
        'h'
    } else if c == 'I' {
        'i'
    } else if c == 'J' {
        'j'
    } else if c == 'K' {
        'k'
    } else if c == 'L' {
        'l'
    } else if c == 'M' {
        'm'
    } else if c == 'N' {
        'n'
    } else if c == 'O' {
        'o'
    } else if c == 'P' {
        'p'
    } else if c == 'Q' {
        'q'
    } else if c == 'R' {
        'r'
    } else if c == 'S' {
        's'
    } else if c == 'T' {
        't'
    } else if c == 'U' {
        'u'
    } else if c == 'V' {
        'v'
    } else if c == 'W' {
        'w'
    } else if c == 'X' {
        'x'
    } else if c == 'Y' {
        'y'
    } else if c == 'Z' {
        'z'
    } else {
        c
    }
}

/// ASCII lowercase of a character sequence.
pub open spec fn spec_lower(s: Seq<char>) -> Seq<char> {
    Seq::new(s.len(), |i: int| lower_char(s[i]))
}

/// The extension of a path: the characters after the last dot of the
/// last path component, empty when the component has no dot or starts
/// with its only dot.
pub open spec fn spec_ext(path: Seq<char>) -> Seq<char> {
    let name = match rfind(path, '/') {
        Some(i) => path.subrange(i + 1, path.len() as int),
        None => path,
    };
    match rfind(name, '.') {
        Some(j) => if j > 0 {
            name.subrange(j + 1, name.len() as int)
        } else {
            Seq::empty()
        },
        None => Seq::empty(),
    }
}

/// Whether `s` ends with `suffix`.
pub open spec fn spec_ends_with(s: Seq<char>, suffix: Seq<char>) -> bool {
    s.len() >= suffix.len() && s.subrange(s.len() - suffix.len(), s.len() as int) == suffix
}

/// The loading route a path takes.
#[derive(Debug, Clone, Copy, PartialEq, Eq, Structural)]
pub enum LoadRoute {
    /// 3-D scene content, loaded synchronously on the calling thread.
    Scene,
    /// Container bytes, parsed by the codec (with a legacy fallback).
    Container,
    /// Streaming placeholder content.
    Stream,
    /// Raster image, decoded off-thread.
    Image,
    /// Video, not supported.
    Video,
    /// No loadable format.
    Unknown,
}

/// Route selection: scene files first (compound `.asdf.json`, bare
/// `.asdf`, or a `json` extension), then by lowercased extension.
pub open spec fn spec_route(path: Seq<char>) -> LoadRoute {
    let ext = spec_lower(spec_ext(path));
    if spec_ends_with(path, ".asdf.json"@) || spec_ends_with(path, ".asdf"@) || ext == "json"@ {
        LoadRoute::Scene
    } else if ext == "alz"@ || ext == "alice"@ {
        LoadRoute::Container
    } else if ext == "asp"@ {
        LoadRoute::Stream
    } else if ext == "png"@ || ext == "jpg"@ || ext == "jpeg"@ || ext == "bmp"@ || ext == "gif"@ {
        LoadRoute::Image
    } else if ext == "mp4"@ || ext == "webm"@ || ext == "avi"@ || ext == "mov"@ {
        LoadRoute::Video
    } else {
        LoadRoute::Unknown
    }
}

/// ASCII lowercase of one character.
fn lower_char_exec(c: char) -> (r: char)
    ensures
        r == lower_char(c),
{
    match c {
        'A' => 'a',
        'B' => 'b',
        'C' => 'c',
        'D' => 'd',
        'E' => 'e',
        'F' => 'f',
        'G' => 'g',
        'H' => 'h',
        'I' => 'i',
        'J' => 'j',
        'K' => 'k',
        'L' => 'l',
        'M' => 'm',
        'N' => 'n',
        'O' => 'o',
        'P' => 'p',
        'Q' => 'q',
        'R' => 'r',
        'S' => 's',
        'T' => 't',
        'U' => 'u',
        'V' => 'v',
        'W' => 'w',
        'X' => 'x',
        'Y' => 'y',
        'Z' => 'z',
        other => other,
    }
}

/// Whether `s` ends with `suffix`, by characters.
fn ends_with_str(s: &str, suffix: &str) -> (r: bool)
    ensures
        r == spec_ends_with(s@, suffix@),
{
    let n = s.unicode_len();
    let m = suffix.unicode_len();
    if m > n {
        return false;
    }
    let base = n - m;
    let mut j: usize = 0;
    while j < m
        invariant
            n == s@.len(),
            m == suffix@.len(),
            m <= n,
            base == n - m,
            j <= m,
            forall|k: int| 0 <= k < j ==> s@[base + k] == suffix@[k],
        decreases m - j,
    {
        if s.get_char(base + j) != suffix.get_char(j) {
            proof {
                assert(s@.subrange(s@.len() - suffix@.len(), s@.len() as int)[j as int]
                    != suffix@[j as int]);
            }
            return false;
        }
        j = j + 1;
    }
    proof {
        assert(s@.subrange(s@.len() - suffix@.len(), s@.len() as int) =~= suffix@);
    }
    true
}

/// Position of the last occurrence of `c` in `s@.subrange(0, hi)`.
fn rfind_upto(s: &str, hi: usize, c: char) -> (r: Option<usize>)
    requires
        hi <= s@.len(),
    ensures
        match r {
            Some(i) => i < hi && rfind(s@.subrange(0, hi as int), c) == Some(i as int),
            None => rfind(s@.subrange(0, hi as int), c) is None,
        },
{
    let mut best: Option<usize> = None;
    let mut k: usize = 0;
    while k < hi
        invariant
            hi <= s@.len(),
            k <= hi,
            match best {
                Some(i) => i < k && s@[i as int] == c && forall|j: int|
                    i < j < k ==> s@[j] != c,
                None => forall|j: int| 0 <= j < k ==> s@[j] != c,
            },
        decreases hi - k,
    {
        if s.get_char(k) == c {
            best = Some(k);
        }
        k = k + 1;
    }
    proof {
        let pre = s@.subrange(0, hi as int);
        match best {
            Some(i) => {
                assert(pre[i as int] == c);
                assert(forall|j: int| i < j < pre.len() ==> pre[j] != c);
                lemma_rfind_exact(pre, c, i as int);
            },
            None => {
                lemma_rfind(pre, c);
                if rfind(pre, c) is Some {
                    let w = rfind(pre, c)->0;
                    assert(pre[w] == c);
                    assert(s@[w] != c);
                }
            },
        }
    }
    best
}

/// Which route a path's extension selects.
pub fn classify_path(path: &str) -> (r: LoadRoute)
    ensures
        r == spec_route(path@),
{
    if ends_with_str(path, ".asdf.json") || ends_with_str(path, ".asdf") {
        return LoadRoute::Scene;
    }
    let n = path.unicode_len();
    let name_start: usize = match rfind_upto(path, n, '/') {
        Some(i) => i + 1,
        None => 0,
    };
    proof {
        assert(path@.subrange(0, n as int) =~= path@);
    }
    // Character bounds of the extension within the path.
    let mut lo: usize = n;
    let hi: usize = n;
    let ghost name = match rfind(path@, '/') {
        Some(i) => path@.subrange(i + 1, path@.len() as int),
        None => path@,
    };
    proof {
        assert(name =~= path@.subrange(name_start as int, path@.len() as int));
    }
    let dot = rfind_in_range(path, name_start, n);
    match dot {
        Some(d) => {
            if d > name_start {
                lo = d + 1;
            }
        },
        None => {},
    }
    proof {
        assert(path@.subrange(lo as int, hi as int) =~= spec_ext(path@));
    }
    if ext_is(path, lo, hi, "json") {
        LoadRoute::Scene
    } else if ext_is(path, lo, hi, "alz") || ext_is(path, lo, hi, "alice") {
        LoadRoute::Container
    } else if ext_is(path, lo, hi, "asp") {
        LoadRoute::Stream
    } else if ext_is(path, lo, hi, "png") || ext_is(path, lo, hi, "jpg") || ext_is(
        path,
        lo,
        hi,
        "jpeg",
    ) || ext_is(path, lo, hi, "bmp") || ext_is(path, lo, hi, "gif") {
        LoadRoute::Image
    } else if ext_is(path, lo, hi, "mp4") || ext_is(path, lo, hi, "webm") || ext_is(
        path,
        lo,
        hi,
        "avi",
    ) || ext_is(path, lo, hi, "mov") {
        LoadRoute::Video
    } else {
        LoadRoute::Unknown
    }
}

/// Whether a path names a 3-D scene file (`.asdf` binary or
/// `.asdf.json`).
pub fn is_asdf_file(path: &str) -> (r: bool)
    ensures
        r == (spec_ends_with(path@, ".asdf"@) || spec_ends_with(path@, ".asdf.json"@)),
{
    ends_with_str(path, ".asdf") || ends_with_str(path, ".asdf.json")
}

/// Last `.` in `s@.subrange(start, hi)`, as an absolute position.
fn rfind_in_range(s: &str, start: usize, hi: usize) -> (r: Option<usize>)
    requires
        start <= hi <= s@.len(),
    ensures
        match r {
            Some(i) => start <= i < hi && rfind(s@.subrange(start as int, hi as int), '.') == Some(
                i - start,
            ),
            None => rfind(s@.subrange(start as int, hi as int), '.') is None,
        },
{
    let mut best: Option<usize> = None;
    let mut k: usize = start;
    while k < hi
        invariant
            start <= hi <= s@.len(),
            start <= k <= hi,
            match best {
                Some(i) => start <= i < k && s@[i as int] == '.' && forall|j: int|
                    i < j < k ==> s@[j] != '.',
                None => forall|j: int| start <= j < k ==> s@[j] != '.',
            },
        decreases hi - k,
    {
        if s.get_char(k) == '.' {
            best = Some(k);
        }
        k = k + 1;
    }
    proof {
        let sub = s@.subrange(start as int, hi as int);
        match best {
            Some(i) => {
                assert(sub[i - start] == '.');
                assert(forall|j: int| i - start < j < sub.len() ==> sub[j] != '.');
                lemma_rfind_exact(sub, '.', i - start);
            },
            None => {
                lemma_rfind(sub, '.');
                if rfind(sub, '.') is Some {
                    let w = rfind(sub, '.')->0;
                    assert(sub[w] == '.');
                    assert(s@[start + w] != '.');
                }
            },
        }
    }
    best
}

/// Whether the lowercased extension region equals `cand`.
fn ext_is(s: &str, lo: usize, hi: usize, cand: &str) -> (r: bool)
    requires
        lo <= hi <= s@.len(),
    ensures
        r == (spec_lower(s@.subrange(lo as int, hi as int)) == cand@),
{
    let m = cand.unicode_len();
    if hi - lo != m {
        proof {
            assert(spec_lower(s@.subrange(lo as int, hi as int)).len() == hi - lo);
        }
        return false;
    }
    let mut j: usize = 0;
    while j < m
        invariant
            lo <= hi <= s@.len(),
            m == cand@.len(),
            hi - lo == m,
            j <= m,
            forall|k: int| 0 <= k < j ==> lower_char(s@[lo + k]) == cand@[k],
        decreases m - j,
    {
        if lower_char_exec(s.get_char(lo + j)) != cand.get_char(j) {
            proof {
                assert(spec_lower(s@.subrange(lo as int, hi as int))[j as int] != cand@[j as int]);
            }
            return false;
        }
        j = j + 1;
    }
    proof {
        assert(spec_lower(s@.subrange(lo as int, hi as int)) =~= cand@);
    }
    true
}

} // verus!
