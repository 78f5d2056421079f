//! Memoised tool-availability answers with a time to live.

use vstd::prelude::*;
use crate::config::{assoc, assoc_from, find_key};

verus! {

/// Milliseconds from `at` to `now`; zero when `now` is earlier.
pub open spec fn age(now: u64, at: u64) -> int {
    if now >= at {
        now - at
    } else {
        0
    }
}

/// The cached answer for `tool` at time `now`, if its entry is younger than
/// `ttl` milliseconds.
pub open spec fn fresh_answer(
    entries: Seq<(String, (bool, u64))>,
    tool: Seq<char>,
    now: u64,
    ttl: u64,
) -> Option<bool> {
    match assoc(entries, tool) {
        Some(e) => if age(now, e.1) < ttl {
            Some(e.0)
        } else {
            None
        },
        None => None,
    }
}

/// Tool name to (available, time checked), first entry per name.
pub struct ToolCache {
    pub entries: Vec<(String, (bool, u64))>,
}

proof fn lemma_assoc_first<V>(s: Seq<(String, V)>, k: Seq<char>, i: int, j: int)
    requires
        0 <= j <= i < s.len(),
        s[i].0@ == k,
        forall|m: int| 0 <= m < i ==> s[m].0@ != k,
    ensures
        assoc_from(s, k, j) == Some(s[i].1),
    decreases i - j,
{
    if j < i {
        lemma_assoc_first(s, k, i, j + 1);
    }
}

proof fn lemma_assoc_update<V>(s: Seq<(String, V)>, i: int, e: (String, V), k: Seq<char>, j: int)
    requires
        0 <= i < s.len(),
        0 <= j,
        s[i].0@ == e.0@,
        k != e.0@,
    ensures
        assoc_from(s.update(i, e), k, j) == assoc_from(s, k, j),
    decreases s.len() - j,
{
    if j < s.len() {
        lemma_assoc_update(s, i, e, k, j + 1);
    }
}

proof fn lemma_assoc_push<V>(s: Seq<(String, V)>, e: (String, V), k: Seq<char>, j: int)
    requires
        0 <= j,
        k != e.0@,
    ensures
        assoc_from(s.push(e), k, j) == assoc_from(s, k, j),
    decreases s.len() + 1 - j,
{
    if j < s.len() + 1 {
        lemma_assoc_push(s, e, k, j + 1);
    }
}

impl ToolCache {
    pub fn new() -> (r: Self)
        ensures
            r.entries@.len() == 0,
    {
        ToolCache { entries: Vec::new() }
    }

    /// The cached answer for `tool`, if it is younger than `ttl`.
    pub fn cached(&self, tool: &str, now: u64, ttl: u64) -> (r: Option<bool>)
        ensures
            r == fresh_answer(self.entries@, tool@, now, ttl),
    {
        match find_key(&self.entries, tool) {
            Some(i) => {
                let (available, at) = self.entries[i].1;
                let age: u64 = if now >= at {
                    now - at
                } else {
                    0
                };
                if age < ttl {
                    Some(available)
                } else {
                    None
                }
            },
            None => None,
        }
    }

    /// Records the answer for `tool` checked at `now`.
    pub fn store(&mut self, tool: &str, available: bool, now: u64)
        ensures
            assoc(final(self).entries@, tool@) == Some((available, now)),
            forall|k: Seq<char>|
                k != tool@ ==> #[trigger] assoc(final(self).entries@, k) == assoc(
                    old(self).entries@,
                    k,
                ),
    {
        let e = (tool.to_owned(), (available, now));
        match find_key(&self.entries, tool) {
            Some(i) => {
                let ghost s = self.entries@;
                self.entries.set(i, e);
                proof {
                    let t = s.update(i as int, e);
                    assert(t[i as int] == e);
                    assert forall|m: int| 0 <= m < i implies t[m].0@ != tool@ by {
                        assert(t[m] == s[m]);
                    }
                    lemma_assoc_first(t, tool@, i as int, 0);
                    assert forall|k: Seq<char>| k != tool@ implies #[trigger] assoc(t, k) == assoc(
                        s,
                        k,
                    ) by {
                        lemma_assoc_update(s, i as int, e, k, 0);
                    }
                }
            },
            None => {
                let ghost s = self.entries@;
                self.entries.push(e);
                proof {
                    let t = s.push(e);
                    assert forall|m: int| 0 <= m < s.len() implies t[m].0@ != tool@ by {
                        assert(t[m] == s[m]);
                    }
                    lemma_assoc_first(t, tool@, s.len() as int, 0);
                    assert forall|k: Seq<char>| k != tool@ implies #[trigger] assoc(t, k) == assoc(
                        s,
                        k,
                    ) by {
                        lemma_assoc_push(s, e, k, 0);
                    }
                }
            },
        }
    }
}

} // verus!
