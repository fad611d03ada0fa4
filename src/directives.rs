//! Recognition of type-checker suppression directives in comments.
use vstd::prelude::*;
use vstd::string::*;

verus! {

/// Unicode's `White_Space` property, as `char::is_whitespace` tests it.
pub open spec fn spec_is_whitespace(c: char) -> bool {
    ('\u{9}' <= c && c <= '\u{d}') || c == ' ' || c == '\u{85}' || c == '\u{a0}' || c == '\u{1680}'
        || ('\u{2000}' <= c && c <= '\u{200a}') || c == '\u{2028}' || c == '\u{2029}' || c
        == '\u{202f}' || c == '\u{205f}' || c == '\u{3000}'
}

/// Whether `c` is white space.
pub fn is_whitespace(c: char) -> (r: bool)
    ensures
        r == spec_is_whitespace(c),
{
    ('\u{9}' <= c && c <= '\u{d}') || c == ' ' || c == '\u{85}' || c == '\u{a0}' || c == '\u{1680}'
        || ('\u{2000}' <= c && c <= '\u{200a}') || c == '\u{2028}' || c == '\u{2029}' || c
        == '\u{202f}' || c == '\u{205f}' || c == '\u{3000}'
}

/// The first position at or after `i` where white space stops.
pub open spec fn skip_whitespace(s: Seq<char>, i: int) -> int
    decreases s.len() - i,
{
    if 0 <= i < s.len() && spec_is_whitespace(s[i]) {
        skip_whitespace(s, i + 1)
    } else {
        i
    }
}

/// The end of `s[lo..j]` once trailing white space is dropped.
pub open spec fn drop_trailing_whitespace(s: Seq<char>, lo: int, j: int) -> int
    decreases j - lo,
{
    if lo < j && j <= s.len() && spec_is_whitespace(s[j - 1]) {
        drop_trailing_whitespace(s, lo, j - 1)
    } else {
        j
    }
}

/// `s` without leading and trailing white space.
pub open spec fn trimmed(s: Seq<char>) -> Seq<char> {
    let a = skip_whitespace(s, 0);
    s.subrange(a, drop_trailing_whitespace(s, a, s.len() as int))
}

/// The position of the first `"# "` in `s` at or after `i`.
pub open spec fn comment_marker_from(s: Seq<char>, i: int) -> Option<int>
    decreases s.len() - i,
{
    if i < 0 || i + 1 >= s.len() {
        None
    } else if s[i] == '#' && s[i + 1] == ' ' {
        Some(i)
    } else {
        comment_marker_from(s, i + 1)
    }
}

/// The recognised directives, in the order they are tried.
pub open spec fn directive(k: int) -> Seq<char> {
    if k == 0 {
        "type: ignore"@
    } else if k == 1 {
        "pyright: ignore"@
    } else if k == 2 {
        "ty: ignore"@
    } else {
        "pyrefly: ignore"@
    }
}

pub const DIRECTIVE_COUNT: usize = 4;

/// Whether `s` begins with `p`.
pub open spec fn starts_with(s: Seq<char>, p: Seq<char>) -> bool {
    p.len() <= s.len() && s.subrange(0, p.len() as int) == p
}

/// The first directive, from the `k`-th on, that `content` begins with.
pub open spec fn first_directive_from(content: Seq<char>, k: int) -> Option<Seq<char>>
    decreases DIRECTIVE_COUNT - k,
{
    if k < 0 || k >= DIRECTIVE_COUNT {
        None
    } else if starts_with(content, directive(k)) {
        Some(directive(k))
    } else {
        first_directive_from(content, k + 1)
    }
}

/// The directive that a comment line holds: the text after its first `"# "`,
/// trimmed, must begin with one; the first that matches is taken and anything
/// after it is ignored.
pub open spec fn directive_in(line: Seq<char>) -> Option<Seq<char>> {
    match comment_marker_from(line, 0) {
        Some(i) => first_directive_from(trimmed(line.subrange(i + 2, line.len() as int)), 0),
        None => None,
    }
}

fn directive_text(k: usize) -> (r: &'static str)
    requires
        k < DIRECTIVE_COUNT,
    ensures
        r@ == directive(k as int),
{
    if k == 0 {
        "type: ignore"
    } else if k == 1 {
        "pyright: ignore"
    } else if k == 2 {
        "ty: ignore"
    } else {
        "pyrefly: ignore"
    }
}

/// Whether `s[a..b]` begins with `p`.
fn range_starts_with(s: &str, a: usize, b: usize, p: &str) -> (r: bool)
    requires
        a <= b <= s@.len(),
    ensures
        r == starts_with(s@.subrange(a as int, b as int), p@),
{
    let m = p.unicode_len();
    if m > b - a {
        return false;
    }
    let mut t: usize = 0;
    while t < m
        invariant
            m == p@.len(),
            a + m <= b <= s@.len(),
            t <= m,
            forall|u: int| 0 <= u < t ==> s@[a + u] == p@[u],
        decreases m - t,
    {
        if s.get_char(a + t) != p.get_char(t) {
            assert(s@.subrange(a as int, b as int).subrange(0, m as int)[t as int] != p@[t as int]);
            return false;
        }
        t += 1;
    }
    assert(s@.subrange(a as int, b as int).subrange(0, m as int) =~= p@);
    true
}

/// The position of the first `"# "` in `line`.
fn find_comment_marker(line: &str) -> (r: Option<usize>)
    ensures
        r matches Some(i) ==> comment_marker_from(line@, 0) == Some(i as int) && i + 2 <= line@.len(),
        r is None ==> comment_marker_from(line@, 0) is None,
{
    let n = line.unicode_len();
    let mut i: usize = 0;
    while i < n
        invariant
            n == line@.len(),
            i <= n,
            comment_marker_from(line@, 0) == comment_marker_from(line@, i as int),
        decreases n - i,
    {
        if i + 1 < n && line.get_char(i) == '#' && line.get_char(i + 1) == ' ' {
            return Some(i);
        }
        i += 1;
    }
    None
}

/// Finds the type checking directive in a comment line, if it holds one.
pub fn find_type_checking_directive(line: &str) -> (r: Option<&'static str>)
    ensures
        match directive_in(line@) {
            Some(d) => r matches Some(x) && x@ == d,
            None => r is None,
        },
{
    let n = line.unicode_len();
    let i = match find_comment_marker(line) {
        Some(i) => i,
        None => {
            return None;
        },
    };
    let ghost content = line@.subrange(i + 2, n as int);
    let mut a: usize = i + 2;
    while a < n && is_whitespace(line.get_char(a))
        invariant
            i + 2 <= a <= n,
            n == line@.len(),
            content == line@.subrange(i + 2, n as int),
            skip_whitespace(content, 0) == skip_whitespace(content, a - (i + 2)),
        decreases n - a,
    {
        assert(content[a - (i + 2)] == line@[a as int]);
        a += 1;
    }
    let mut b: usize = n;
    while b > a && is_whitespace(line.get_char(b - 1))
        invariant
            i + 2 <= a <= b <= n,
            n == line@.len(),
            skip_whitespace(content, 0) == a - (i + 2),
            drop_trailing_whitespace(content, a - (i + 2), content.len() as int)
                == drop_trailing_whitespace(content, a - (i + 2), b - (i + 2)),
            content == line@.subrange(i + 2, n as int),
        decreases b - a,
    {
        assert(content[b - 1 - (i + 2)] == line@[b - 1]);
        b -= 1;
    }
    assert(trimmed(content) =~= line@.subrange(a as int, b as int));
    let mut k: usize = 0;
    while k < DIRECTIVE_COUNT
        invariant
            a <= b <= n,
            n == line@.len(),
            k <= DIRECTIVE_COUNT,
            directive_in(line@) == first_directive_from(line@.subrange(a as int, b as int), k as int),
        decreases DIRECTIVE_COUNT - k,
    {
        let d = directive_text(k);
        if range_starts_with(line, a, b, d) {
            return Some(d);
        }
        k += 1;
    }
    None
}

} // verus!
