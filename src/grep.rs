//! `grep` to a regex search tool (`rg`).

use vstd::prelude::*;
use crate::config::{ReplacementConfig, mapped_flag};
use crate::text::{
    contains_seq, contains_str, contains_word, either, has_prefix, is_flag, is_flag_str, starts_with_str,
    str_eq, unquote, unquote_str, words,
};

verus! {

/// A word-boundary, lookaround, hex or unicode escape: regex constructs whose
/// meaning differs between the two tools.
pub open spec fn complex_word(w: Seq<char>) -> bool {
    contains_seq(w, "\\<"@) || contains_seq(w, "\\>"@) || contains_seq(w, "\\b"@) || contains_seq(
        w,
        "(?"@,
    ) || contains_seq(w, "\\x"@) || contains_seq(w, "\\u"@)
}

/// Some non-flag argument holds a complex regex construct.
pub open spec fn has_complex_regex(a: Seq<Seq<char>>) -> bool {
    exists|j: int| 0 <= j < a.len() && !is_flag(a[j]) && #[trigger] complex_word(a[j])
}

/// An argument that makes the translation unsafe on its own.
pub open spec fn grep_risky_arg(x: Seq<char>, compat: bool) -> bool {
    x == "-P"@ || x == "--perl-regexp"@ || x == "--null-data"@ || x == "-z"@ || (compat && (x
        == "-a"@ || x == "--text"@))
}

/// The semantic risk predicate of `grep`: Perl regexes, null data, and in
/// strict mode raw text or complex regex constructs.
pub open spec fn grep_unsafe(a: Seq<Seq<char>>, compat: bool) -> bool {
    (exists|j: int| 0 <= j < a.len() && #[trigger] grep_risky_arg(a[j], compat)) || (compat
        && has_complex_regex(a))
}

pub open spec fn is_ignore_flag(x: Seq<char>) -> bool {
    x == "--no-ignore"@ || x == "--hidden"@ || x == "-u"@ || x == "--unrestricted"@
}

pub open spec fn ignore_override(a: Seq<Seq<char>>) -> bool {
    exists|j: int| 0 <= j < a.len() && #[trigger] is_ignore_flag(a[j])
}

/// Flags with no faithful counterpart in the target tool.
pub open spec fn grep_flag_incompatible(x: Seq<char>) -> bool {
    x == "--null-data"@ || x == "-z"@ || x == "--line-buffered"@ || x == "--mmap"@ || x == "-U"@
        || x == "--binary"@ || x == "-Z"@ || x == "--null"@
}

/// A context flag and, when there is one, its value.
pub open spec fn context_step(f: Seq<char>, a: Seq<Seq<char>>, i: int) -> (Seq<Seq<char>>, bool) {
    if i < a.len() - 1 {
        (seq![f, a[i + 1]], true)
    } else {
        (seq![f], false)
    }
}

/// A file-selection value as a glob: unquoted, and negated for an exclusion.
pub open spec fn glob_value(v: Seq<char>, negate: bool) -> Seq<char> {
    if negate {
        seq!['!'] + unquote(v)
    } else {
        unquote(v)
    }
}

/// A two-token file-selection flag.
pub open spec fn selection_step(a: Seq<Seq<char>>, i: int, negate: bool) -> (
    Seq<Seq<char>>,
    bool,
) {
    if i < a.len() - 1 {
        (seq!["--glob"@, glob_value(a[i + 1], negate)], true)
    } else {
        (seq![], false)
    }
}

/// What the token at `i` becomes: the tokens emitted and whether the next
/// token was consumed as its value, or `None` when the command must be kept.
pub open spec fn grep_step(a: Seq<Seq<char>>, i: int, rule: ReplacementConfig, compat: bool) -> Option<
    (Seq<Seq<char>>, bool),
> {
    let x = a[i];
    if !is_flag(x) {
        Some((seq![x], false))
    } else if x == "-E"@ || x == "--extended-regexp"@ {
        if compat {
            None
        } else {
            Some((seq![], false))
        }
    } else if x == "-F"@ || x == "--fixed-strings"@ {
        Some((seq!["--fixed-strings"@], false))
    } else if x == "-P"@ || x == "--perl-regexp"@ {
        None
    } else if x == "-o"@ || x == "--only-matching"@ {
        Some((seq!["--only-matching"@], false))
    } else if x == "-c"@ || x == "--count"@ {
        Some((seq!["--count"@], false))
    } else if x == "-l"@ || x == "--files-with-matches"@ {
        Some((seq!["--files-with-matches"@], false))
    } else if x == "-L"@ || x == "--files-without-match"@ {
        Some((seq!["--files-without-match"@], false))
    } else if x == "-A"@ || x == "--after-context"@ {
        Some(context_step("-A"@, a, i))
    } else if x == "-B"@ || x == "--before-context"@ {
        Some(context_step("-B"@, a, i))
    } else if x == "-C"@ || x == "--context"@ {
        Some(context_step("-C"@, a, i))
    } else if has_prefix(x, "--include="@) {
        Some((seq!["--glob"@, glob_value(x.subrange("--include="@.len() as int, x.len() as int), false)], false))
    } else if has_prefix(x, "--exclude="@) {
        Some((seq!["--glob"@, glob_value(x.subrange("--exclude="@.len() as int, x.len() as int), true)], false))
    } else if x == "--include"@ {
        Some(selection_step(a, i, false))
    } else if x == "--exclude"@ {
        Some(selection_step(a, i, true))
    } else if words(rule.preserve_flags@).contains(x) {
        Some((seq![x], false))
    } else {
        match mapped_flag(rule.flag_mappings@, x) {
            Some(m) => Some(
                (
                    if m.len() == 0 {
                        seq![]
                    } else {
                        seq![m]
                    },
                    false,
                ),
            ),
            None => if grep_flag_incompatible(x) {
                None
            } else {
                Some((seq![x], false))
            },
        }
    }
}

/// The tokens emitted for the arguments from `i` on.
pub open spec fn grep_from(a: Seq<Seq<char>>, i: int, rule: ReplacementConfig, compat: bool) -> Option<
    Seq<Seq<char>>,
>
    decreases a.len() - i,
{
    if i < 0 || i >= a.len() {
        Some(seq![])
    } else {
        match grep_step(a, i, rule, compat) {
            None => None,
            Some(s) => match grep_from(a, i + 1 + if s.1 { 1int } else { 0int }, rule, compat) {
                None => None,
                Some(t) => Some(s.0 + t),
            },
        }
    }
}

/// Flags that make an unfiltered search inside a repository behave as the
/// original does.
pub open spec fn grep_prefix(a: Seq<Seq<char>>, in_repo: bool) -> Seq<Seq<char>> {
    if in_repo && !ignore_override(a) {
        seq!["--no-ignore"@, "--hidden"@]
    } else {
        seq![]
    }
}

/// The arguments of the translated `grep` command, or `None` when the
/// command is unsafe to translate or a flag has no safe counterpart.
pub open spec fn grep_translation(
    a: Seq<Seq<char>>,
    rule: ReplacementConfig,
    compat: bool,
    in_repo: bool,
) -> Option<Seq<Seq<char>>> {
    if grep_unsafe(a, compat) {
        None
    } else {
        match grep_from(a, 0, rule, compat) {
            None => None,
            Some(t) => Some(grep_prefix(a, in_repo) + t),
        }
    }
}

pub(crate) fn one(x: &str) -> (r: Vec<String>)
    ensures
        words(r@) == seq![x@],
{
    let v = vec![x.to_owned()];
    assert(words(v@) =~= seq![x@]);
    v
}

pub(crate) fn two(x: &str, y: &str) -> (r: Vec<String>)
    ensures
        words(r@) == seq![x@, y@],
{
    let v = vec![x.to_owned(), y.to_owned()];
    assert(words(v@) =~= seq![x@, y@]);
    v
}

fn glob_value_str(v: &str, negate: bool) -> (r: String)
    ensures
        r@ == glob_value(v@, negate),
{
    let u = unquote_str(v);
    if negate {
        let mut g = "!".to_owned();
        g.append(u.as_str());
        proof {
            reveal_strlit("!");
            assert(g@ =~= seq!['!'] + unquote(v@));
        }
        g
    } else {
        u
    }
}

fn context_step_exec(f: &str, a: &Vec<String>, i: usize) -> (r: (Vec<String>, bool))
    requires
        i < a@.len(),
    ensures
        (words(r.0@), r.1) == context_step(f@, words(a@), i as int),
{
    if i < a.len() - 1 {
        (two(f, a[i + 1].as_str()), true)
    } else {
        (one(f), false)
    }
}

fn selection_step_exec(a: &Vec<String>, i: usize, negate: bool) -> (r: (Vec<String>, bool))
    requires
        i < a@.len(),
    ensures
        (words(r.0@), r.1) == selection_step(words(a@), i as int, negate),
{
    if i < a.len() - 1 {
        let g = glob_value_str(a[i + 1].as_str(), negate);
        (two("--glob", g.as_str()), true)
    } else {
        let v: Vec<String> = Vec::new();
        assert(words(v@) =~= seq![]);
        (v, false)
    }
}

fn grep_risky_arg_exec(x: &str, compat: bool) -> (r: bool)
    ensures
        r == grep_risky_arg(x@, compat),
{
    either(x, "-P", "--perl-regexp") || either(x, "--null-data", "-z") || (compat && either(
        x,
        "-a",
        "--text",
    ))
}

fn complex_word_exec(w: &str) -> (r: bool)
    ensures
        r == complex_word(w@),
{
    contains_str(w, "\\<") || contains_str(w, "\\>") || contains_str(w, "\\b") || contains_str(
        w,
        "(?",
    ) || contains_str(w, "\\x") || contains_str(w, "\\u")
}

/// Whether some non-flag argument holds a complex regex construct.
pub fn has_complex_regex_patterns(args: &Vec<String>) -> (r: bool)
    ensures
        r == has_complex_regex(words(args@)),
{
    let ghost a = words(args@);
    let mut i: usize = 0;
    while i < args.len()
        invariant
            a == words(args@),
            i <= args@.len(),
            forall|j: int| 0 <= j < i ==> !(!is_flag(a[j]) && complex_word(a[j])),
        decreases args@.len() - i,
    {
        if !is_flag_str(args[i].as_str()) && complex_word_exec(args[i].as_str()) {
            assert(!is_flag(a[i as int]) && complex_word(a[i as int]));
            return true;
        }
        i = i + 1;
    }
    false
}

/// Whether translating `grep` with these arguments could change its meaning.
pub fn should_use_grep_fallback(args: &Vec<String>, compat: bool) -> (r: bool)
    ensures
        r == grep_unsafe(words(args@), compat),
{
    let ghost a = words(args@);
    let mut i: usize = 0;
    while i < args.len()
        invariant
            a == words(args@),
            i <= args@.len(),
            forall|j: int| 0 <= j < i ==> !grep_risky_arg(a[j], compat),
        decreases args@.len() - i,
    {
        if grep_risky_arg_exec(args[i].as_str(), compat) {
            assert(grep_risky_arg(a[i as int], compat));
            return true;
        }
        i = i + 1;
    }
    compat && has_complex_regex_patterns(args)
}

/// Whether an ignore-override flag is already present.
pub fn has_ignore_flags(args: &Vec<String>) -> (r: bool)
    ensures
        r == ignore_override(words(args@)),
{
    let ghost a = words(args@);
    let mut i: usize = 0;
    while i < args.len()
        invariant
            a == words(args@),
            i <= args@.len(),
            forall|j: int| 0 <= j < i ==> !is_ignore_flag(a[j]),
        decreases args@.len() - i,
    {
        let x = args[i].as_str();
        if either(x, "--no-ignore", "--hidden") || either(x, "-u", "--unrestricted") {
            assert(is_ignore_flag(a[i as int]));
            return true;
        }
        i = i + 1;
    }
    false
}

/// Whether `flag` has no faithful counterpart in the target tool.
pub fn is_problematic_grep_flag(flag: &str) -> (r: bool)
    ensures
        r == grep_flag_incompatible(flag@),
{
    either(flag, "--null-data", "-z") || either(flag, "--line-buffered", "--mmap") || either(
        flag,
        "-U",
        "--binary",
    ) || either(flag, "-Z", "--null")
}

fn grep_step_exec(args: &Vec<String>, i: usize, rule: &ReplacementConfig, compat: bool) -> (r:
    Option<(Vec<String>, bool)>)
    requires
        i < args@.len(),
    ensures
        match r {
            None => grep_step(words(args@), i as int, *rule, compat) is None,
            Some(s) => grep_step(words(args@), i as int, *rule, compat) == Some(
                (words(s.0@), s.1),
            ),
        },
{
    let x = args[i].as_str();
    let ghost xs = words(args@)[i as int];
    assert(xs == x@);
    if !is_flag_str(x) {
        Some((one(x), false))
    } else if either(x, "-E", "--extended-regexp") {
        if compat {
            None
        } else {
            let v: Vec<String> = Vec::new();
            assert(words(v@) =~= seq![]);
            Some((v, false))
        }
    } else if either(x, "-F", "--fixed-strings") {
        Some((one("--fixed-strings"), false))
    } else if either(x, "-P", "--perl-regexp") {
        None
    } else if either(x, "-o", "--only-matching") {
        Some((one("--only-matching"), false))
    } else if either(x, "-c", "--count") {
        Some((one("--count"), false))
    } else if either(x, "-l", "--files-with-matches") {
        Some((one("--files-with-matches"), false))
    } else if either(x, "-L", "--files-without-match") {
        Some((one("--files-without-match"), false))
    } else if either(x, "-A", "--after-context") {
        Some(context_step_exec("-A", args, i))
    } else if either(x, "-B", "--before-context") {
        Some(context_step_exec("-B", args, i))
    } else if either(x, "-C", "--context") {
        Some(context_step_exec("-C", args, i))
    } else if starts_with_str(x, "--include=") {
        proof {
            reveal_strlit("--include=");
        }
        let v = x.substring_char(10, x.unicode_len());
        let g = glob_value_str(v, false);
        Some((two("--glob", g.as_str()), false))
    } else if starts_with_str(x, "--exclude=") {
        proof {
            reveal_strlit("--exclude=");
        }
        let v = x.substring_char(10, x.unicode_len());
        let g = glob_value_str(v, true);
        Some((two("--glob", g.as_str()), false))
    } else if str_eq(x, "--include") {
        Some(selection_step_exec(args, i, false))
    } else if str_eq(x, "--exclude") {
        Some(selection_step_exec(args, i, true))
    } else if contains_word(&rule.preserve_flags, x) {
        Some((one(x), false))
    } else {
        match rule.mapping_for(x) {
            Some(m) => {
                if m.unicode_len() == 0 {
                    let v: Vec<String> = Vec::new();
                    assert(words(v@) =~= seq![]);
                    Some((v, false))
                } else {
                    Some((one(m.as_str()), false))
                }
            },
            None => {
                if is_problematic_grep_flag(x) {
                    None
                } else {
                    Some((one(x), false))
                }
            },
        }
    }
}

/// Translates the arguments of `grep`, or `None` when a flag has no safe
/// counterpart.
pub fn replace_grep(args: &Vec<String>, rule: &ReplacementConfig, compat: bool, in_repo: bool) -> (r:
    Option<Vec<String>>)
    ensures
        match r {
            Some(v) => grep_translation(words(args@), *rule, compat, in_repo) == Some(words(v@)),
            None => grep_translation(words(args@), *rule, compat, in_repo) is None,
        },
{
    let ghost a = words(args@);
    if should_use_grep_fallback(args, compat) {
        return None;
    }
    let mut out: Vec<String> = Vec::new();
    if in_repo && !has_ignore_flags(args) {
        out = two("--no-ignore", "--hidden");
    }
    assert(words(out@) =~= grep_prefix(a, in_repo));
    let mut i: usize = 0;
    while i < args.len()
        invariant
            a == words(args@),
            i <= args@.len(),
            !grep_unsafe(a, compat),
            grep_translation(a, *rule, compat, in_repo) == match grep_from(a, i as int, *rule, compat) {
                None => None,
                Some(t) => Some(words(out@) + t),
            },
        decreases args@.len() - i,
    {
        match grep_step_exec(args, i, rule, compat) {
            None => {
                return None;
            },
            Some(s) => {
                let (mut emitted, consumed) = s;
                let ghost before = words(out@);
                let ghost piece = words(emitted@);
                out.append(&mut emitted);
                let next: usize = if consumed { i + 2 } else { i + 1 };
                proof {
                    assert(words(out@) =~= before + piece);
                    match grep_from(a, next as int, *rule, compat) {
                        None => {},
                        Some(t) => {
                            assert(before + (piece + t) =~= (before + piece) + t);
                        },
                    }
                }
                i = next;
            },
        }
    }
    proof {
        assert(words(out@) + seq![] =~= words(out@));
    }
    Some(out)
}

} // verus!
