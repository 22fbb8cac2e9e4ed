use vstd::prelude::*;

verus! {

/// `p` occurs in `t` as a contiguous run of characters.
pub open spec fn contains_seq(t: Seq<char>, p: Seq<char>) -> bool {
    exists|i: int| 0 <= i <= t.len() - p.len() && #[trigger] t.subrange(i, i + p.len()) == p
}

/// `s` ends with `p`.
pub open spec fn ends_with_seq(s: Seq<char>, p: Seq<char>) -> bool {
    p.len() <= s.len() && s.subrange(s.len() - p.len(), s.len() as int) == p
}

/// The characters of `s`, one by one.
pub fn chars_of(s: &str) -> (v: Vec<char>)
    ensures
        v@ == s@,
{
    let n = s.unicode_len();
    let mut v: Vec<char> = Vec::new();
    let mut i: usize = 0;
    while i < n
        invariant
            n == s@.len(),
            i <= n,
            v@ == s@.subrange(0, i as int),
        decreases n - i,
    {
        v.push(s.get_char(i));
        assert(s@.subrange(0, i as int).push(s@[i as int]) =~= s@.subrange(0, i + 1));
        i = i + 1;
    }
    assert(s@.subrange(0, n as int) =~= s@);
    v
}

/// Whether `p` equals `t` from position `at` on for `p`'s length.
fn matches_at(t: &Vec<char>, p: &Vec<char>, at: usize) -> (r: bool)
    requires
        at + p@.len() <= t@.len(),
    ensures
        r == (t@.subrange(at as int, at + p@.len()) == p@),
{
    let tl = t.len();
    let mut j: usize = 0;
    while j < p.len()
        invariant
            tl == t@.len(),
            at + p@.len() <= t@.len(),
            j <= p@.len(),
            t@.subrange(at as int, at + j) == p@.subrange(0, j as int),
        decreases p@.len() - j,
    {
        if t[at + j] != p[j] {
            assert(t@.subrange(at as int, at + p@.len())[j as int] != p@[j as int]);
            return false;
        }
        assert(t@.subrange(at as int, at + j + 1) =~= p@.subrange(0, j + 1));
        j = j + 1;
    }
    assert(t@.subrange(at as int, at + j) =~= t@.subrange(at as int, at + p@.len()));
    assert(p@.subrange(0, j as int) =~= p@);
    true
}

/// Whether `p` occurs in `t`.
pub fn contains_str(t: &str, p: &str) -> (r: bool)
    ensures
        r == contains_seq(t@, p@),
{
    let tv = chars_of(t);
    let pv = chars_of(p);
    if pv.len() > tv.len() {
        return false;
    }
    let last = tv.len() - pv.len();
    let mut i: usize = 0;
    while i <= last
        invariant
            last == tv@.len() - pv@.len(),
            tv@ == t@,
            pv@ == p@,
            forall|k: int| 0 <= k < i ==> #[trigger] t@.subrange(k, k + p@.len()) != p@,
        decreases last + 1 - i,
    {
        if matches_at(&tv, &pv, i) {
            return true;
        }
        if i == last {
            return false;
        }
        i = i + 1;
    }
    false
}

/// Whether `s` ends with `p`.
pub fn ends_with_str(s: &str, p: &str) -> (r: bool)
    ensures
        r == ends_with_seq(s@, p@),
{
    let sv = chars_of(s);
    let pv = chars_of(p);
    if pv.len() > sv.len() {
        return false;
    }
    matches_at(&sv, &pv, sv.len() - pv.len())
}

/// Whether `a` and `b` hold the same characters.
pub fn same_text(a: &str, b: &str) -> (r: bool)
    ensures
        r == (a@ == b@),
{
    let av = chars_of(a);
    let bv = chars_of(b);
    if av.len() != bv.len() {
        return false;
    }
    let r = matches_at(&av, &bv, 0);
    assert(av@.subrange(0, bv@.len() as int) =~= av@);
    r
}

} // verus!
