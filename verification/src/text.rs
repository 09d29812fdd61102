//! Equality and order of character sequences.

use vstd::prelude::*;

verus! {

/// Lexicographic order on characters by code point: the order of `String`.
pub open spec fn text_lt(a: Seq<char>, b: Seq<char>) -> bool
    decreases a.len(),
{
    if a.len() == 0 {
        b.len() > 0
    } else if b.len() == 0 {
        false
    } else if a[0] != b[0] {
        (a[0] as u32) < (b[0] as u32)
    } else {
        text_lt(a.drop_first(), b.drop_first())
    }
}

/// The view of an optional text.
pub open spec fn opt_text(o: Option<String>) -> Option<Seq<char>> {
    match o {
        Some(s) => Some(s@),
        None => None,
    }
}

/// Whether `s` and `t` hold the same characters.
pub fn text_eq(s: &str, t: &str) -> (r: bool)
    ensures
        r == (s@ == t@),
{
    let n = s.unicode_len();
    let m = t.unicode_len();
    if n != m {
        return false;
    }
    let mut i: usize = 0;
    while i < n
        invariant
            n == s@.len(),
            m == t@.len(),
            n == m,
            i <= n,
            forall|j: int| 0 <= j < i ==> s@[j] == t@[j],
        decreases n - i,
    {
        if s.get_char(i) != t.get_char(i) {
            return false;
        }
        i = i + 1;
    }
    assert(s@ =~= t@);
    true
}

proof fn lemma_text_lt_skip(a: Seq<char>, b: Seq<char>, i: int)
    requires
        0 <= i < a.len(),
        i < b.len(),
        a[i] == b[i],
    ensures
        text_lt(a.skip(i), b.skip(i)) == text_lt(a.skip(i + 1), b.skip(i + 1)),
{
    assert(a.skip(i).drop_first() =~= a.skip(i + 1));
    assert(b.skip(i).drop_first() =~= b.skip(i + 1));
}

/// Whether `s` comes strictly before `t` in the order of `String`.
pub fn text_lt_exec(s: &str, t: &str) -> (r: bool)
    ensures
        r == text_lt(s@, t@),
{
    let n = s.unicode_len();
    let m = t.unicode_len();
    let mut i: usize = 0;
    assert(s@.skip(0) =~= s@);
    assert(t@.skip(0) =~= t@);
    while i < n && i < m
        invariant
            n == s@.len(),
            m == t@.len(),
            i <= n,
            i <= m,
            text_lt(s@, t@) == text_lt(s@.skip(i as int), t@.skip(i as int)),
        decreases n - i,
    {
        let a = s.get_char(i);
        let b = t.get_char(i);
        if a != b {
            proof {
                assert(s@.skip(i as int)[0] == a);
                assert(t@.skip(i as int)[0] == b);
            }
            return (a as u32) < (b as u32);
        }
        proof {
            lemma_text_lt_skip(s@, t@, i as int);
        }
        i = i + 1;
    }
    proof {
        if i == n {
            assert(s@.skip(i as int).len() == 0);
        } else {
            assert(t@.skip(i as int).len() == 0);
        }
    }
    i == n && i < m
}

} // verus!
