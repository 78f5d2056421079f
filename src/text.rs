//! Verified string helpers over the character view of `str` and `String`.

use vstd::prelude::*;

verus! {

/// A token is a flag when it begins with a dash.
pub open spec fn is_flag(s: Seq<char>) -> bool {
    s.len() > 0 && s[0] == '-'
}

/// `p` occurs in `s` at position `k`.
pub open spec fn occurs_at(s: Seq<char>, p: Seq<char>, k: int) -> bool {
    0 <= k && k + p.len() <= s.len() && s.subrange(k, k + p.len()) == p
}

/// `p` occurs somewhere in `s`.
pub open spec fn contains_seq(s: Seq<char>, p: Seq<char>) -> bool {
    exists|k: int| occurs_at(s, p, k)
}

/// `s` begins with `p`.
pub open spec fn has_prefix(s: Seq<char>, p: Seq<char>) -> bool {
    occurs_at(s, p, 0)
}

/// `s` with every leading and trailing `c` removed.
pub open spec fn trim_char(s: Seq<char>, c: char) -> Seq<char>
    decreases s.len(),
{
    if s.len() > 0 && s[0] == c {
        trim_char(s.drop_first(), c)
    } else if s.len() > 0 && s.last() == c {
        trim_char(s.drop_last(), c)
    } else {
        s
    }
}

/// A pattern value with surrounding double, then single, quotes removed.
pub open spec fn unquote(s: Seq<char>) -> Seq<char> {
    trim_char(trim_char(s, '"'), '\'')
}

/// The words of `s` separated by single spaces.
pub open spec fn join_words(s: Seq<Seq<char>>) -> Seq<char>
    decreases s.len(),
{
    if s.len() == 0 {
        Seq::empty()
    } else if s.len() == 1 {
        s[0]
    } else {
        join_words(s.drop_last()) + seq![' '] + s.last()
    }
}

/// The character view of an optional string.
pub open spec fn opt_view(o: Option<String>) -> Option<Seq<char>> {
    match o {
        Some(s) => Some(s@),
        None => None,
    }
}

/// The character views of a sequence of strings.
pub open spec fn words(v: Seq<String>) -> Seq<Seq<char>> {
    v.map_values(|s: String| s@)
}

pub fn is_flag_str(s: &str) -> (r: bool)
    ensures
        r == is_flag(s@),
{
    s.unicode_len() > 0 && s.get_char(0) == '-'
}

pub fn str_eq(a: &str, b: &str) -> (r: bool)
    ensures
        r == (a@ == b@),
{
    let n = a.unicode_len();
    if n != b.unicode_len() {
        return false;
    }
    let mut i: usize = 0;
    while i < n
        invariant
            n == a@.len(),
            n == b@.len(),
            i <= n,
            forall|j: int| 0 <= j < i ==> a@[j] == b@[j],
        decreases n - i,
    {
        if a.get_char(i) != b.get_char(i) {
            return false;
        }
        i = i + 1;
    }
    assert(a@ =~= b@);
    true
}

/// Whether `x` is `a` or `b`.
pub fn either(x: &str, a: &str, b: &str) -> (r: bool)
    ensures
        r == (x@ == a@ || x@ == b@),
{
    str_eq(x, a) || str_eq(x, b)
}

/// Whether `p` occurs in `s` at position `k`.
fn occurs_at_exec(s: &str, p: &str, k: usize) -> (r: bool)
    requires
        k + p@.len() <= s@.len(),
    ensures
        r == occurs_at(s@, p@, k as int),
{
    let m = p.unicode_len();
    let n = s.unicode_len();
    let mut i: usize = 0;
    while i < m
        invariant
            m == p@.len(),
            n == s@.len(),
            k + m <= s@.len(),
            i <= m,
            forall|j: int| 0 <= j < i ==> s@[k + j] == p@[j],
        decreases m - i,
    {
        if s.get_char(k + i) != p.get_char(i) {
            assert(s@.subrange(k as int, k + m)[i as int] != p@[i as int]);
            return false;
        }
        i = i + 1;
    }
    assert(s@.subrange(k as int, k + m) =~= p@);
    true
}

pub fn starts_with_str(s: &str, p: &str) -> (r: bool)
    ensures
        r == has_prefix(s@, p@),
{
    if p.unicode_len() > s.unicode_len() {
        return false;
    }
    occurs_at_exec(s, p, 0)
}

pub fn contains_str(s: &str, p: &str) -> (r: bool)
    ensures
        r == contains_seq(s@, p@),
{
    let n = s.unicode_len();
    let m = p.unicode_len();
    if m > n {
        return false;
    }
    let mut k: usize = 0;
    while k < n - m
        invariant
            n == s@.len(),
            m == p@.len(),
            m <= n,
            k <= n - m,
            forall|j: int| 0 <= j < k ==> !occurs_at(s@, p@, j),
        decreases n - m - k,
    {
        if occurs_at_exec(s, p, k) {
            return true;
        }
        k = k + 1;
    }
    if occurs_at_exec(s, p, k) {
        return true;
    }
    assert forall|j: int| !occurs_at(s@, p@, j) by {
        if 0 <= j && j + m <= n {
            assert(j <= k);
        }
    }
    false
}

proof fn lemma_trim_sub(s: Seq<char>, c: char, lo: int, hi: int)
    requires
        0 <= lo < hi <= s.len(),
        s[lo] == c,
    ensures
        trim_char(s.subrange(lo, hi), c) == trim_char(s.subrange(lo + 1, hi), c),
{
    assert(s.subrange(lo, hi).drop_first() =~= s.subrange(lo + 1, hi));
}

proof fn lemma_trim_sub_end(s: Seq<char>, c: char, lo: int, hi: int)
    requires
        0 <= lo < hi <= s.len(),
        s[lo] != c,
        s[hi - 1] == c,
    ensures
        trim_char(s.subrange(lo, hi), c) == trim_char(s.subrange(lo, hi - 1), c),
{
    assert(s.subrange(lo, hi).drop_last() =~= s.subrange(lo, hi - 1));
}

/// `s` with every leading and trailing `c` removed.
pub fn trim_char_str(s: &str, c: char) -> (r: String)
    ensures
        r@ == trim_char(s@, c),
{
    let n = s.unicode_len();
    let mut lo: usize = 0;
    proof {
        assert(s@.subrange(0, n as int) =~= s@);
    }
    while lo < n && s.get_char(lo) == c
        invariant
            n == s@.len(),
            lo <= n,
            trim_char(s@, c) == trim_char(s@.subrange(lo as int, n as int), c),
        decreases n - lo,
    {
        proof {
            lemma_trim_sub(s@, c, lo as int, n as int);
        }
        lo = lo + 1;
    }
    let mut hi: usize = n;
    while hi > lo && s.get_char(hi - 1) == c
        invariant
            n == s@.len(),
            lo <= hi <= n,
            lo < n ==> s@[lo as int] != c,
            trim_char(s@, c) == trim_char(s@.subrange(lo as int, hi as int), c),
        decreases hi - lo,
    {
        proof {
            lemma_trim_sub_end(s@, c, lo as int, hi as int);
        }
        hi = hi - 1;
    }
    let t = s.substring_char(lo, hi);
    proof {
        let u = s@.subrange(lo as int, hi as int);
        if u.len() > 0 {
            assert(u[0] == s@[lo as int]);
            assert(u.last() == s@[hi - 1]);
        }
    }
    t.to_owned()
}

/// The pattern value with surrounding quotes removed.
pub fn unquote_str(s: &str) -> (r: String)
    ensures
        r@ == unquote(s@),
{
    let t = trim_char_str(s, '"');
    trim_char_str(t.as_str(), '\'')
}

/// The words of `v` separated by single spaces.
pub fn join_str(v: &Vec<String>) -> (r: String)
    ensures
        r@ == join_words(words(v@)),
{
    let mut out = String::new();
    let mut i: usize = 0;
    while i < v.len()
        invariant
            i <= v@.len(),
            out@ == join_words(words(v@).take(i as int)),
        decreases v@.len() - i,
    {
        let ghost before = words(v@).take(i as int);
        if i > 0 {
            out.append(" ");
        }
        out.append(v[i].as_str());
        proof {
            let after = words(v@).take(i + 1);
            assert(after.drop_last() =~= before);
            reveal_strlit(" ");
            if i == 0 {
                assert(join_words(after) == after[0]);
            }
            assert(out@ =~= join_words(after));
        }
        i = i + 1;
    }
    proof {
        assert(words(v@).take(v@.len() as int) =~= words(v@));
    }
    out
}

/// Whether `s` is one of the strings of `v`.
pub fn contains_word(v: &Vec<String>, s: &str) -> (r: bool)
    ensures
        r == words(v@).contains(s@),
{
    let mut i: usize = 0;
    while i < v.len()
        invariant
            i <= v@.len(),
            forall|j: int| 0 <= j < i ==> v@[j]@ != s@,
        decreases v@.len() - i,
    {
        if str_eq(v[i].as_str(), s) {
            assert(words(v@)[i as int] == s@);
            return true;
        }
        i = i + 1;
    }
    proof {
        if words(v@).contains(s@) {
            let j = choose|j: int| 0 <= j < words(v@).len() && words(v@)[j] == s@;
            assert(v@[j]@ == s@);
        }
    }
    false
}

} // verus!
