use vstd::prelude::*;

verus! {

/// Every leftmost, non-overlapping occurrence of `p` in `s` replaced by `v`,
/// scanning from the left.
pub open spec fn replace_all(s: Seq<char>, p: Seq<char>, v: Seq<char>) -> Seq<char>
    decreases s.len(),
{
    if p.len() == 0 || s.len() < p.len() {
        s
    } else if s.subrange(0, p.len() as int) == p {
        v + replace_all(s.subrange(p.len() as int, s.len() as int), p, v)
    } else {
        seq![s[0]] + replace_all(s.subrange(1, s.len() as int), p, v)
    }
}

/// Replacing in a text that lacks the pattern's first character changes nothing.
pub proof fn lemma_replace_absent(s: Seq<char>, p: Seq<char>, v: Seq<char>)
    requires
        p.len() > 0,
        !s.contains(p[0]),
    ensures
        replace_all(s, p, v) == s,
    decreases s.len(),
{
    if s.len() >= p.len() {
        assert(s.subrange(0, p.len() as int)[0] == s[0]);
        let rest = s.subrange(1, s.len() as int);
        assert forall|c: char| rest.contains(c) implies s.contains(c) by {
            let k = choose|k: int| 0 <= k < rest.len() && rest[k] == c;
            assert(s[k + 1] == c);
        }
        lemma_replace_absent(rest, p, v);
        assert(s.contains(s[0]));
        assert(seq![s[0]] + rest =~= s);
    }
}

/// A prefix free of the pattern's first character is copied unchanged.
pub proof fn lemma_replace_skip_prefix(a: Seq<char>, t: Seq<char>, p: Seq<char>, v: Seq<char>)
    requires
        p.len() > 0,
        !a.contains(p[0]),
    ensures
        replace_all(a + t, p, v) == a + replace_all(t, p, v),
    decreases a.len(),
{
    if a.len() > 0 {
        let s = a + t;
        let a1 = a.subrange(1, a.len() as int);
        assert(a.contains(a[0]));
        assert forall|c: char| a1.contains(c) implies a.contains(c) by {
            let k = choose|k: int| 0 <= k < a1.len() && a1[k] == c;
            assert(a[k + 1] == c);
        }
        lemma_replace_skip_prefix(a1, t, p, v);
        assert(s.subrange(1, s.len() as int) =~= a1 + t);
        if s.len() >= p.len() {
            assert(s.subrange(0, p.len() as int)[0] == a[0]);
        } else {
            lemma_replace_absent_short(s, p, v);
            lemma_replace_absent_short(t, p, v);
        }
        assert(seq![a[0]] + (a1 + replace_all(t, p, v)) =~= a + replace_all(t, p, v));
    } else {
        assert(a + t =~= t);
    }
}

proof fn lemma_replace_absent_short(s: Seq<char>, p: Seq<char>, v: Seq<char>)
    requires
        s.len() < p.len(),
    ensures
        replace_all(s, p, v) == s,
{
}

/// One occurrence of the pattern between two parts free of its first
/// character becomes the replacement.
pub proof fn lemma_replace_single(a: Seq<char>, b: Seq<char>, p: Seq<char>, v: Seq<char>)
    requires
        p.len() > 0,
        !a.contains(p[0]),
        !b.contains(p[0]),
    ensures
        replace_all(a + p + b, p, v) == a + v + b,
{
    assert(a + p + b =~= a + (p + b));
    lemma_replace_skip_prefix(a, p + b, p, v);
    let s = p + b;
    assert(s.subrange(0, p.len() as int) =~= p);
    assert(s.subrange(p.len() as int, s.len() as int) =~= b);
    lemma_replace_absent(b, p, v);
    assert(a + (v + b) =~= a + v + b);
}

/// Whether `s` holds the character `c`.
pub fn contains_char(s: &str, c: char) -> (r: bool)
    ensures
        r == s@.contains(c),
{
    let n = s.unicode_len();
    let mut i: usize = 0;
    while i < n
        invariant
            n == s@.len(),
            i <= n,
            forall|k: int| 0 <= k < i ==> s@[k] != c,
        decreases n - i,
    {
        if s.get_char(i) == c {
            assert(s@[i as int] == c);
            return true;
        }
        i += 1;
    }
    false
}

/// Whether `s` and `t` hold the same characters.
pub fn str_equal(s: &str, t: &str) -> (r: bool)
    ensures
        r == (s@ == t@),
{
    let n = s.unicode_len();
    if n != t.unicode_len() {
        return false;
    }
    let mut i: usize = 0;
    while i < n
        invariant
            n == s@.len(),
            n == t@.len(),
            i <= n,
            forall|k: int| 0 <= k < i ==> s@[k] == t@[k],
        decreases n - i,
    {
        if s.get_char(i) != t.get_char(i) {
            return false;
        }
        i += 1;
    }
    assert(s@ =~= t@);
    true
}

/// Whether the characters of `s` from `start` on begin with `p`.
fn matches_at(s: &str, start: usize, p: &str) -> (r: bool)
    requires
        start + p@.len() <= s@.len(),
    ensures
        r == (s@.subrange(start as int, start + p@.len()) == p@),
{
    let m = p.unicode_len();
    let n = s.unicode_len();
    let mut j: usize = 0;
    while j < m
        invariant
            m == p@.len(),
            n == s@.len(),
            start + m <= s@.len(),
            j <= m,
            forall|k: int| 0 <= k < j ==> s@[start + k] == p@[k],
        decreases m - j,
    {
        if s.get_char(start + j) != p.get_char(j) {
            assert(s@.subrange(start as int, start + m)[j as int] != p@[j as int]);
            return false;
        }
        j += 1;
    }
    assert(s@.subrange(start as int, start + m) =~= p@);
    true
}

/// `s` with every leftmost, non-overlapping occurrence of `p` replaced by `v`.
pub fn replace_all_exec(s: &str, p: &str, v: &str) -> (r: String)
    requires
        p@.len() > 0,
    ensures
        r@ == replace_all(s@, p@, v@),
{
    let n = s.unicode_len();
    let m = p.unicode_len();
    let mut out = String::new();
    let mut i: usize = 0;
    assert(s@.subrange(0, n as int) =~= s@);
    assert(out@ + replace_all(s@, p@, v@) =~= replace_all(s@, p@, v@));
    while i < n
        invariant
            n == s@.len(),
            m == p@.len(),
            m > 0,
            i <= n,
            out@ + replace_all(s@.subrange(i as int, n as int), p@, v@) == replace_all(s@, p@, v@),
        decreases n - i,
    {
        let ghost rest = s@.subrange(i as int, n as int);
        if m <= n - i && matches_at(s, i, p) {
            assert(rest.subrange(0, m as int) =~= s@.subrange(i as int, i + m));
            assert(rest.subrange(m as int, rest.len() as int) =~= s@.subrange(i + m, n as int));
            out.append(v);
            i += m;
        } else {
            if m <= n - i {
                assert(rest.subrange(0, m as int) =~= s@.subrange(i as int, i + m));
            }
            assert(rest.subrange(1, rest.len() as int) =~= s@.subrange(i + 1, n as int));
            let one = s.substring_char(i, i + 1);
            assert(one@ =~= seq![rest[0]]);
            out.append(one);
            i += 1;
        }
    }
    assert(s@.subrange(n as int, n as int) =~= Seq::<char>::empty());
    out
}

} // verus!
