//! `sed` to a substitution tool (`sd`), for a single `s/PATTERN/REPLACEMENT/`
//! expression.

use vstd::prelude::*;
use crate::text::words;

verus! {

/// The position of the first `/` in `x` at or after `from`, or `x.len()`.
pub open spec fn next_slash(x: Seq<char>, from: int) -> int
    decreases x.len() - from,
{
    if from < 0 || from >= x.len() {
        x.len() as int
    } else if x[from] == '/' {
        from
    } else {
        next_slash(x, from + 1)
    }
}

/// Every character from `from` on is a `g` or an `i`.
pub open spec fn substitution_flags(x: Seq<char>, from: int) -> bool {
    forall|t: int| from <= t < x.len() ==> x[t] == 'g' || x[t] == 'i'
}

/// The pattern and replacement of `s/PATTERN/REPLACEMENT/FLAGS`, where the
/// pattern is non-empty, neither part holds a `/`, and the flags are `g` and
/// `i` only.
pub open spec fn sed_parts(x: Seq<char>) -> Option<(Seq<char>, Seq<char>)> {
    if x.len() < 2 || x[0] != 's' || x[1] != '/' {
        None
    } else {
        let j = next_slash(x, 2);
        let k = next_slash(x, j + 1);
        if j == 2 || j >= x.len() || k >= x.len() || !substitution_flags(x, k + 1) {
            None
        } else {
            Some((x.subrange(2, j), x.subrange(j + 1, k)))
        }
    }
}

/// The arguments of the translated `sed`: pattern, replacement, then the
/// remaining operands.
pub open spec fn sed_translation(a: Seq<Seq<char>>) -> Option<Seq<Seq<char>>> {
    if a.len() == 0 {
        None
    } else {
        match sed_parts(a[0]) {
            Some(p) => Some(seq![p.0, p.1] + a.subrange(1, a.len() as int)),
            None => None,
        }
    }
}

proof fn lemma_next_slash_bounds(x: Seq<char>, from: int)
    requires
        0 <= from,
    ensures
        from <= next_slash(x, from) <= x.len() || (from > x.len() && next_slash(x, from) == x.len()),
        next_slash(x, from) < x.len() ==> x[next_slash(x, from)] == '/',
    decreases x.len() - from,
{
    if from < x.len() && x[from] != '/' {
        lemma_next_slash_bounds(x, from + 1);
    }
}

fn next_slash_exec(x: &str, from: usize) -> (r: usize)
    requires
        from <= x@.len(),
    ensures
        r == next_slash(x@, from as int),
{
    let n = x.unicode_len();
    let mut i = from;
    while i < n && x.get_char(i) != '/'
        invariant
            n == x@.len(),
            from <= i <= n,
            next_slash(x@, from as int) == next_slash(x@, i as int),
        decreases n - i,
    {
        i = i + 1;
    }
    i
}

/// Splits `s/PATTERN/REPLACEMENT/FLAGS` into pattern and replacement.
pub fn parse_sed_expression(expr: &str) -> (r: Option<(String, String)>)
    ensures
        match r {
            Some(p) => sed_parts(expr@) == Some((p.0@, p.1@)),
            None => sed_parts(expr@) is None,
        },
{
    let n = expr.unicode_len();
    if n < 2 || expr.get_char(0) != 's' || expr.get_char(1) != '/' {
        return None;
    }
    let j = next_slash_exec(expr, 2);
    proof {
        lemma_next_slash_bounds(expr@, 2);
    }
    if j == 2 || j >= n {
        return None;
    }
    let k = next_slash_exec(expr, j + 1);
    proof {
        lemma_next_slash_bounds(expr@, j + 1);
    }
    if k >= n {
        return None;
    }
    let mut t = k + 1;
    while t < n
        invariant
            n == expr@.len(),
            k < n,
            k + 1 <= t <= n,
            2 < j < n,
            expr@[0] == 's' && expr@[1] == '/',
            j as int == next_slash(expr@, 2),
            k as int == next_slash(expr@, j + 1),
            forall|u: int| k + 1 <= u < t ==> expr@[u] == 'g' || expr@[u] == 'i',
        decreases n - t,
    {
        let c = expr.get_char(t);
        if c != 'g' && c != 'i' {
            assert(expr@[t as int] == c);
            assert(!substitution_flags(expr@, k + 1));
            assert(sed_parts(expr@) is None);
            return None;
        }
        t = t + 1;
    }
    let pattern = expr.substring_char(2, j).to_owned();
    let replacement = expr.substring_char(j + 1, k).to_owned();
    Some((pattern, replacement))
}

/// Translates the arguments of `sed`, or `None` unless the first argument is
/// a single substitution.
pub fn replace_sed(args: &Vec<String>) -> (r: Option<Vec<String>>)
    ensures
        match r {
            Some(v) => sed_translation(words(args@)) == Some(words(v@)),
            None => sed_translation(words(args@)) is None,
        },
{
    let ghost a = words(args@);
    if args.len() == 0 {
        return None;
    }
    match parse_sed_expression(args[0].as_str()) {
        None => None,
        Some(parts) => {
            let (p, q) = parts;
            let mut out = vec![p, q];
            let mut i: usize = 1;
            assert(words(out@) =~= seq![out@[0]@, out@[1]@] + a.subrange(1, 1));
            while i < args.len()
                invariant
                    a == words(args@),
                    1 <= i <= args@.len(),
                    words(out@) == seq![parts.0@, parts.1@] + a.subrange(1, i as int),
                decreases args@.len() - i,
            {
                let w = args[i].clone();
                let ghost before = words(out@);
                out.push(w);
                proof {
                    assert(a[i as int] == args@[i as int]@);
                    assert(words(out@) =~= before.push(w@));
                    assert(words(out@) =~= seq![parts.0@, parts.1@] + a.subrange(1, i + 1));
                }
                i = i + 1;
            }
            Some(out)
        },
    }
}

} // verus!
