//! Character-level helpers on strings, stated over their `Seq<char>` views.
use vstd::prelude::*;
use vstd::string::*;

verus! {

/// Whether two strings hold the same characters.
pub fn str_eq(a: &str, b: &str) -> (r: bool)
    ensures
        r == (a@ == b@),
{
    let n = a.unicode_len();
    if n != b.unicode_len() {
        return false;
    }
    let mut i: usize = 0;
    while i < n
        invariant
            n == a@.len(),
            n == b@.len(),
            i <= n,
            forall|k: int| 0 <= k < i ==> a@[k] == b@[k],
        decreases n - i,
    {
        if a.get_char(i) != b.get_char(i) {
            return false;
        }
        i += 1;
    }
    assert(a@ =~= b@);
    true
}

/// Copies a string slice into an owned `String`.
pub fn owned(s: &str) -> (r: String)
    ensures
        r@ == s@,
{
    String::from_str(s)
}

} // verus!

verus! {

/// Whether `s` begins with `p`.
pub open spec fn has_prefix(s: Seq<char>, p: Seq<char>) -> bool {
    p.len() <= s.len() && s.subrange(0, p.len() as int) == p
}

/// Whether `s` begins with `p`.
pub fn str_starts_with(s: &str, p: &str) -> (r: bool)
    ensures
        r == has_prefix(s@, p@),
{
    let n = s.unicode_len();
    let m = p.unicode_len();
    if m > n {
        return false;
    }
    let mut t: usize = 0;
    while t < m
        invariant
            m == p@.len(),
            n == s@.len(),
            m <= n,
            t <= m,
            forall|u: int| 0 <= u < t ==> s@[u] == p@[u],
        decreases m - t,
    {
        if s.get_char(t) != p.get_char(t) {
            assert(s@.subrange(0, m as int)[t as int] != p@[t as int]);
            return false;
        }
        t += 1;
    }
    assert(s@.subrange(0, m as int) =~= p@);
    true
}

} // verus!

verus! {

/// Lexicographic order on strings, by code point: the order of `String`'s `Ord`.
pub open spec fn lex_lt(a: Seq<char>, b: Seq<char>) -> bool
    decreases a.len(),
{
    if a.len() == 0 {
        b.len() > 0
    } else if b.len() == 0 {
        false
    } else if a[0] != b[0] {
        a[0] < b[0]
    } else {
        lex_lt(a.drop_first(), b.drop_first())
    }
}

/// Lexicographic order is irreflexive and total on distinct strings.
pub proof fn lemma_lex_total(a: Seq<char>, b: Seq<char>)
    ensures
        !lex_lt(a, a),
        a != b ==> (lex_lt(a, b) || lex_lt(b, a)),
        !(lex_lt(a, b) && lex_lt(b, a)),
    decreases a.len(),
{
    if a.len() > 0 {
        lemma_lex_total(a.drop_first(), a.drop_first());
        if b.len() > 0 {
            lemma_lex_total(a.drop_first(), b.drop_first());
            if a[0] == b[0] && a != b {
                assert(a.drop_first() != b.drop_first()) by {
                    if a.drop_first() == b.drop_first() {
                        assert(a =~= seq![a[0]] + a.drop_first());
                        assert(b =~= seq![b[0]] + b.drop_first());
                    }
                }
            }
        }
    } else if b.len() == 0 {
        assert(a =~= b);
    }
}

/// Lexicographic order is transitive.
pub proof fn lemma_lex_trans(a: Seq<char>, b: Seq<char>, c: Seq<char>)
    requires
        lex_lt(a, b),
        lex_lt(b, c),
    ensures
        lex_lt(a, c),
    decreases a.len(),
{
    if a.len() > 0 && b.len() > 0 && c.len() > 0 && a[0] == b[0] && b[0] == c[0] {
        lemma_lex_trans(a.drop_first(), b.drop_first(), c.drop_first());
    }
}

/// Whether `a` comes before `b` in lexicographic order.
pub fn str_lt(a: &str, b: &str) -> (r: bool)
    ensures
        r == lex_lt(a@, b@),
{
    let n = a.unicode_len();
    let m = b.unicode_len();
    let mut i: usize = 0;
    assert(a@.subrange(0, n as int) =~= a@);
    assert(b@.subrange(0, m as int) =~= b@);
    while i < n && i < m
        invariant
            n == a@.len(),
            m == b@.len(),
            i <= n,
            i <= m,
            lex_lt(a@, b@) == lex_lt(a@.subrange(i as int, n as int), b@.subrange(i as int, m as int)),
        decreases n - i,
    {
        let x = a.get_char(i);
        let y = b.get_char(i);
        let ghost sa = a@.subrange(i as int, n as int);
        let ghost sb = b@.subrange(i as int, m as int);
        assert(sa[0] == x && sb[0] == y);
        if x != y {
            return x < y;
        }
        assert(sa.drop_first() =~= a@.subrange(i + 1, n as int));
        assert(sb.drop_first() =~= b@.subrange(i + 1, m as int));
        i += 1;
    }
    i == n && i < m
}

} // verus!
