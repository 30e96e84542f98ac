//! Character-indexed helpers on strings.
//!
//! Every position in this crate counts characters, never bytes, so that the
//! executable code and the `Seq<char>` models agree on what an index means.
use vstd::prelude::*;
use vstd::string::*;

verus! {

/// The text `s` with every occurrence of `pat` replaced by `to`, scanning from
/// the left and never looking again at what was already replaced.
pub open spec fn replaced(s: Seq<char>, pat: Seq<char>, to: Seq<char>) -> Seq<char>
    decreases s.len(),
{
    if pat.len() == 0 || s.len() < pat.len() {
        s
    } else if s.subrange(0, pat.len() as int) == pat {
        to + replaced(s.subrange(pat.len() as int, s.len() as int), pat, to)
    } else {
        seq![s[0]] + replaced(s.subrange(1, s.len() as int), pat, to)
    }
}

/// Whether `c` occurs in `s`.
pub open spec fn has_char(s: Seq<char>, c: char) -> bool {
    exists|i: int| 0 <= i < s.len() && s[i] == c
}

/// Copies the characters of `s` from `from` up to `to`.
pub fn slice_of(s: &str, from: usize, to: usize) -> (r: String)
    requires
        from <= to <= s@.len(),
    ensures
        r@ == s@.subrange(from as int, to as int),
{
    s.substring_char(from, to).to_owned()
}

/// Whether the two texts hold the same characters.
pub fn same_text(a: &str, b: &str) -> (r: bool)
    ensures
        r == (a@ == b@),
{
    let n = a.unicode_len();
    if n != b.unicode_len() {
        return false;
    }
    let mut i: usize = 0;
    while i < n
        invariant
            n == a@.len(),
            n == b@.len(),
            i <= n,
            forall|k: int| 0 <= k < i ==> a@[k] == b@[k],
        decreases n - i,
    {
        if a.get_char(i) != b.get_char(i) {
            return false;
        }
        i += 1;
    }
    assert(a@ =~= b@);
    true
}

/// Whether `c` occurs in `s`.
pub fn contains_char(s: &str, c: char) -> (r: bool)
    ensures
        r == has_char(s@, c),
{
    let n = s.unicode_len();
    let mut i: usize = 0;
    while i < n
        invariant
            n == s@.len(),
            i <= n,
            forall|k: int| 0 <= k < i ==> s@[k] != c,
        decreases n - i,
    {
        if s.get_char(i) == c {
            return true;
        }
        i += 1;
    }
    false
}

/// Whether `pat` stands in `s` at position `at`.
pub open spec fn occurs_at(s: Seq<char>, pat: Seq<char>, at: int) -> bool {
    0 <= at && at + pat.len() <= s.len() && s.subrange(at, at + pat.len()) == pat
}

/// Whether `pat` stands in `s` at position `at`.
pub fn starts_at(s: &str, pat: &str, at: usize) -> (r: bool)
    requires
        at <= s@.len(),
    ensures
        r == occurs_at(s@, pat@, at as int),
{
    let n = s.unicode_len();
    let m = pat.unicode_len();
    if m > n - at {
        return false;
    }
    let mut i: usize = 0;
    while i < m
        invariant
            n == s@.len(),
            m == pat@.len(),
            at + m <= n,
            i <= m,
            forall|k: int| 0 <= k < i ==> s@[at + k] == pat@[k],
        decreases m - i,
    {
        if s.get_char(at + i) != pat.get_char(i) {
            assert(s@.subrange(at as int, at + m)[i as int] == s@[at + i]);
            return false;
        }
        i += 1;
    }
    assert(s@.subrange(at as int, at + m) =~= pat@);
    true
}

/// Replaces every occurrence of the non-empty `pat` in `s` by `to`.
pub fn replace_all(s: &str, pat: &str, to: &str) -> (r: String)
    requires
        pat@.len() > 0,
    ensures
        r@ == replaced(s@, pat@, to@),
{
    let n = s.unicode_len();
    let m = pat.unicode_len();
    let mut out = String::new();
    let mut i: usize = 0;
    proof {
        assert(s@.subrange(0, n as int) =~= s@);
        assert(out@ + replaced(s@, pat@, to@) =~= replaced(s@, pat@, to@));
    }
    while i < n
        invariant
            n == s@.len(),
            m == pat@.len(),
            m > 0,
            i <= n,
            out@ + replaced(s@.subrange(i as int, n as int), pat@, to@) == replaced(
                s@,
                pat@,
                to@,
            ),
        decreases n - i,
    {
        let ghost tail = s@.subrange(i as int, n as int);
        if starts_at(s, pat, i) {
            proof {
                assert(tail.subrange(0, m as int) =~= s@.subrange(i as int, i + m));
                assert(tail.subrange(m as int, tail.len() as int) =~= s@.subrange(
                    i + m,
                    n as int,
                ));
                assert((out@ + to@) + replaced(s@.subrange(i + m, n as int), pat@, to@) =~= out@
                    + (to@ + replaced(s@.subrange(i + m, n as int), pat@, to@)));
            }
            out.append(to);
            i += m;
        } else {
            proof {
                if tail.len() >= m {
                    assert(tail.subrange(0, m as int) =~= s@.subrange(i as int, i + m));
                }
                assert(tail.subrange(1, tail.len() as int) =~= s@.subrange(i + 1, n as int));
                assert(s@.subrange(i as int, i + 1) =~= seq![tail[0]]);
                if tail.len() < m {
                    lemma_replaced_short(s@.subrange(i + 1, n as int), pat@, to@);
                    assert(seq![tail[0]] + s@.subrange(i + 1, n as int) =~= tail);
                }
                assert((out@ + seq![tail[0]]) + replaced(
                    s@.subrange(i + 1, n as int),
                    pat@,
                    to@,
                ) =~= out@ + (seq![tail[0]] + replaced(s@.subrange(i + 1, n as int), pat@, to@)));
            }
            out.append(s.substring_char(i, i + 1));
            i += 1;
        }
    }
    proof {
        assert(s@.subrange(n as int, n as int) =~= Seq::<char>::empty());
        assert(out@ + Seq::<char>::empty() =~= out@);
    }
    out
}

/// A text shorter than the pattern holds no occurrence of it.
pub proof fn lemma_replaced_short(s: Seq<char>, pat: Seq<char>, to: Seq<char>)
    requires
        s.len() < pat.len(),
    ensures
        replaced(s, pat, to) == s,
{
}

} // verus!
