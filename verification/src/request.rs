//! Reading the requested path out of a header block.
//!
//! Only the request line counts, and of it only the second token:
//! `METHOD SP PATH[?QUERY] SP PROTOCOL`. The query is cut off and the
//! slashes around the path are dropped, which leaves a path relative to the
//! served directory.

use vstd::prelude::*;
use vstd::string::*;

verus! {

/// Whether `c` is white space as Unicode defines it (the property
/// `White_Space`).
pub open spec fn is_whitespace(c: char) -> bool {
    let u = c as u32;
    ||| 0x09 <= u <= 0x0D
    ||| u == 0x20
    ||| u == 0x85
    ||| u == 0xA0
    ||| u == 0x1680
    ||| 0x2000 <= u <= 0x200A
    ||| u == 0x2028
    ||| u == 0x2029
    ||| u == 0x202F
    ||| u == 0x205F
    ||| u == 0x3000
}

/// The character at which a scan comes to rest.
#[derive(Clone, Copy, Debug, PartialEq, Eq)]
pub enum Stop {
    /// Any white space.
    Whitespace,
    /// Anything but white space.
    Visible,
    /// The `?` that begins a query.
    Query,
    /// Anything but `/`.
    NonSlash,
}

/// Whether a scan for `stop` comes to rest at `c`.
pub open spec fn stops(stop: Stop, c: char) -> bool {
    match stop {
        Stop::Whitespace => is_whitespace(c),
        Stop::Visible => !is_whitespace(c),
        Stop::Query => c == '?',
        Stop::NonSlash => c != '/',
    }
}

/// The first index at or after `from` at which `s` holds a character of
/// `stop`; the length of `s` if it holds none there.
pub open spec fn scan(s: Seq<char>, from: int, stop: Stop) -> int
    decreases s.len() - from,
{
    if from >= s.len() {
        from
    } else if stops(stop, s[from]) {
        from
    } else {
        scan(s, from + 1, stop)
    }
}

/// `scan` finds `i`, given that no character from `from` up to `i` is of
/// `stop` and that `i` is one or is the end.
pub proof fn lemma_scan_is(s: Seq<char>, from: int, stop: Stop, i: int)
    requires
        0 <= from <= i <= s.len(),
        forall|j: int| from <= j < i ==> !stops(stop, #[trigger] s[j]),
        i < s.len() ==> stops(stop, s[i]),
    ensures
        scan(s, from, stop) == i,
    decreases i - from,
{
    if from < i {
        lemma_scan_is(s, from + 1, stop, i);
    }
}

/// Whether a line end (`\r\n`) stands in `s` at offset `i`.
pub open spec fn line_end_at(s: Seq<char>, i: int) -> bool {
    0 <= i && i + 2 <= s.len() && s[i] == '\r' && s[i + 1] == '\n'
}

/// The offset of the first line end at or after `from`; the length of `s` if
/// there is none.
pub open spec fn first_line_end(s: Seq<char>, from: int) -> int
    decreases s.len() - from,
{
    if from + 2 > s.len() {
        s.len() as int
    } else if line_end_at(s, from) {
        from
    } else {
        first_line_end(s, from + 1)
    }
}

/// The request line: the header up to its first line end, or all of it where
/// no line ends.
pub open spec fn request_line(header: Seq<char>) -> Seq<char> {
    header.take(first_line_end(header, 0))
}

/// The second of the tokens that white space separates in `line`.
pub open spec fn second_token(line: Seq<char>) -> Option<Seq<char>> {
    let first = scan(line, 0, Stop::Visible);
    let gap = scan(line, first, Stop::Whitespace);
    let start = scan(line, gap, Stop::Visible);
    let end = scan(line, start, Stop::Whitespace);
    if start < line.len() {
        Some(line.subrange(start, end))
    } else {
        None
    }
}

/// The target that a header block asks for, query included.
pub open spec fn request_target(header: Seq<char>) -> Option<Seq<char>> {
    second_token(request_line(header))
}

/// `target` without its query: what stands before the first `?`.
pub open spec fn strip_query(target: Seq<char>) -> Seq<char> {
    target.take(scan(target, 0, Stop::Query))
}

/// The length of `s` without the slashes at its end.
pub open spec fn trimmed_len(s: Seq<char>) -> int
    decreases s.len(),
{
    if s.len() > 0 && s.last() == '/' {
        trimmed_len(s.drop_last())
    } else {
        s.len() as int
    }
}

/// `path` without the slashes at its start and at its end.
pub open spec fn trim_slashes(path: Seq<char>) -> Seq<char> {
    let start = scan(path, 0, Stop::NonSlash);
    let end = trimmed_len(path);
    if start < end {
        path.subrange(start, end)
    } else {
        Seq::empty()
    }
}

/// The path below the served directory that `target` names.
pub open spec fn relative_path(target: Seq<char>) -> Seq<char> {
    trim_slashes(strip_query(target))
}

/// `trimmed_len` finds `end`, given that only slashes follow it and that no
/// slash stands just before it.
pub proof fn lemma_trimmed_len_is(s: Seq<char>, end: int)
    requires
        0 <= end <= s.len(),
        forall|j: int| end <= j < s.len() ==> s[j] == '/',
        end > 0 ==> s[end - 1] != '/',
    ensures
        trimmed_len(s) == end,
    decreases s.len(),
{
    if end < s.len() {
        let shorter = s.drop_last();
        assert(s.last() == '/');
        assert forall|j: int| end <= j < shorter.len() implies shorter[j] == '/' by {
            assert(shorter[j] == s[j]);
        }
        if end > 0 {
            assert(shorter[end - 1] == s[end - 1]);
        }
        lemma_trimmed_len_is(shorter, end);
    }
}

/// Query stripping: a query hung on a path changes nothing about the
/// path that is read out of the target.
pub proof fn lemma_query_is_stripped(path: Seq<char>, query: Seq<char>)
    requires
        forall|i: int| 0 <= i < path.len() ==> path[i] != '?',
    ensures
        strip_query(path + seq!['?'] + query) == path,
        strip_query(path) == path,
        relative_path(path + seq!['?'] + query) == relative_path(path),
{
    let target = path + seq!['?'] + query;
    assert forall|j: int| 0 <= j < path.len() implies !stops(Stop::Query, #[trigger] target[j]) by {
        assert(target[j] == path[j]);
    }
    assert(target[path.len() as int] == '?');
    lemma_scan_is(target, 0, Stop::Query, path.len() as int);
    lemma_scan_is(path, 0, Stop::Query, path.len() as int);
    assert(target.take(path.len() as int) == path);
    assert(path.take(path.len() as int) == path);
}

/// Whether `c` is white space.
pub fn is_whitespace_char(c: char) -> (yes: bool)
    ensures
        yes == is_whitespace(c),
{
    let u: u32 = c as u32;
    (0x09 <= u && u <= 0x0D) || u == 0x20 || u == 0x85 || u == 0xA0 || u == 0x1680 || (0x2000 <= u
        && u <= 0x200A) || u == 0x2028 || u == 0x2029 || u == 0x202F || u == 0x205F || u == 0x3000
}

fn stops_at(stop: Stop, c: char) -> (yes: bool)
    ensures
        yes == stops(stop, c),
{
    match stop {
        Stop::Whitespace => is_whitespace_char(c),
        Stop::Visible => !is_whitespace_char(c),
        Stop::Query => c == '?',
        Stop::NonSlash => c != '/',
    }
}

/// The characters of `text`, one by one.
fn characters(text: &str) -> (chars: Vec<char>)
    ensures
        chars@ == text@,
{
    let mut chars: Vec<char> = Vec::new();
    for c in it: text.chars()
        invariant
            chars@ == text@.take(it.index() as int),
            it.seq() == text@,
    {
        chars.push(c);
    }
    chars
}

/// Scans `chars[from..end]` for the first character of `stop`.
fn scan_range(chars: &Vec<char>, from: usize, end: usize, stop: Stop) -> (i: usize)
    requires
        from <= end <= chars@.len(),
    ensures
        from <= i <= end,
        i - from == scan(chars@.subrange(from as int, end as int), 0, stop),
        i == scan(chars@.take(end as int), from as int, stop),
{
    let mut i: usize = from;
    while i < end && !stops_at(stop, chars[i])
        invariant
            from <= i <= end <= chars@.len(),
            forall|j: int| from <= j < i ==> !stops(stop, #[trigger] chars@[j]),
        decreases end - i,
    {
        i = i + 1;
    }
    proof {
        let part = chars@.subrange(from as int, end as int);
        assert forall|j: int| 0 <= j < i - from implies !stops(stop, #[trigger] part[j]) by {
            assert(part[j] == chars@[j + from]);
        }
        lemma_scan_is(part, 0, stop, i - from);
        let head = chars@.take(end as int);
        assert forall|j: int| from <= j < i implies !stops(stop, #[trigger] head[j]) by {
            assert(head[j] == chars@[j]);
        }
        lemma_scan_is(head, from as int, stop, i as int);
    }
    i
}

/// Finds where the first line of `chars` ends.
fn line_end(chars: &Vec<char>) -> (end: usize)
    ensures
        end == first_line_end(chars@, 0),
        end <= chars@.len(),
{
    let n: usize = chars.len();
    if n < 2 {
        return n;
    }
    let mut i: usize = 0;
    while i < n - 1 && !(chars[i] == '\r' && chars[i + 1] == '\n')
        invariant
            n == chars@.len(),
            2 <= n,
            i < n,
            first_line_end(chars@, 0) == first_line_end(chars@, i as int),
        decreases n - i,
    {
        i = i + 1;
    }
    if i < n - 1 {
        i
    } else {
        n
    }
}

/// Steps back from `end` over the slashes that close `chars[from..end]`.
fn trim_back(chars: &Vec<char>, from: usize, end: usize) -> (i: usize)
    requires
        from <= end <= chars@.len(),
    ensures
        from <= i <= end,
        i - from == trimmed_len(chars@.subrange(from as int, end as int)),
{
    let mut i: usize = end;
    while i > from && chars[i - 1] == '/'
        invariant
            from <= i <= end <= chars@.len(),
            forall|j: int| i <= j < end ==> chars@[j] == '/',
        decreases i,
    {
        i = i - 1;
    }
    proof {
        let part = chars@.subrange(from as int, end as int);
        assert forall|j: int| i - from <= j < part.len() implies part[j] == '/' by {
            assert(part[j] == chars@[j + from]);
        }
        if i > from {
            assert(part[i - from - 1] == chars@[i - 1]);
        }
        lemma_trimmed_len_is(part, i - from);
    }
    i
}

/// Reads the requested path out of a header block: the second token of the
/// request line, without its query and without the slashes around it. `None`
/// where the request line has no second token.
pub fn request_path(header: &str) -> (path: Option<String>)
    ensures
        match request_target(header@) {
            Some(target) => path matches Some(p) && p@ == relative_path(target),
            None => path is None,
        },
{
    let chars = characters(header);
    let line: usize = line_end(&chars);
    let first: usize = scan_range(&chars, 0, line, Stop::Visible);
    let gap: usize = scan_range(&chars, first, line, Stop::Whitespace);
    let start: usize = scan_range(&chars, gap, line, Stop::Visible);
    if start >= line {
        return None;
    }
    let end: usize = scan_range(&chars, start, line, Stop::Whitespace);
    let query: usize = scan_range(&chars, start, end, Stop::Query);
    let from: usize = scan_range(&chars, start, query, Stop::NonSlash);
    let to: usize = trim_back(&chars, start, query);
    proof {
        let target = chars@.take(line as int).subrange(start as int, end as int);
        assert(target == chars@.subrange(start as int, end as int));
        let stripped = strip_query(target);
        assert(stripped == chars@.subrange(start as int, query as int));
        if from < to {
            assert(stripped.subrange(from - start, to - start) == chars@.subrange(
                from as int,
                to as int,
            ));
        }
    }
    if from < to {
        Some(String::from_str(header.substring_char(from, to)))
    } else {
        Some(String::new())
    }
}

} // verus!
