//! `find` to a file-finder tool (`fd`).

use vstd::prelude::*;
use crate::config::ReplacementConfig;
use crate::grep::{one, two};
use crate::text::{opt_view, contains_word, either, is_flag, is_flag_str, str_eq, words};

verus! {

/// Actions, unsupported predicates and boolean operators.
pub open spec fn find_blocked(x: Seq<char>) -> bool {
    x == "-exec"@ || x == "-execdir"@ || x == "-ok"@ || x == "-okdir"@ || x == "-delete"@ || x
        == "-print0"@ || x == "-size"@ || x == "-mtime"@ || x == "-ctime"@ || x == "-atime"@ || x
        == "-perm"@ || x == "-user"@ || x == "-group"@ || x == "-uid"@ || x == "-gid"@ || x
        == "-and"@ || x == "-or"@ || x == "-not"@ || x == "!"@ || x == "("@ || x == ")"@
}

/// File types that the target tool can select.
pub open spec fn simple_type(x: Seq<char>) -> bool {
    x == "f"@ || x == "d"@ || x == "l"@
}

/// The argument at `j` makes the translation unsafe.
pub open spec fn find_risky(a: Seq<Seq<char>>, j: int) -> bool {
    find_blocked(a[j]) || (a[j] == "-type"@ && j + 1 < a.len() && !simple_type(a[j + 1]))
}

/// Expressions that strict mode does not translate.
pub open spec fn find_complex(x: Seq<char>) -> bool {
    x == "-and"@ || x == "-or"@ || x == "-not"@ || x == "!"@ || x == "-exec"@ || x == "-execdir"@
        || x == "-ok"@ || x == "-okdir"@ || x == "-regex"@ || x == "-iregex"@ || x == "-newer"@
        || x == "-cnewer"@ || x == "-anewer"@ || x == "-samefile"@ || x == "-inum"@ || x
        == "-links"@
}

/// The semantic risk predicate of `find`.
pub open spec fn find_unsafe(a: Seq<Seq<char>>, compat: bool) -> bool {
    (exists|j: int| 0 <= j < a.len() && #[trigger] find_risky(a, j)) || (compat && exists|j: int|
        0 <= j < a.len() && #[trigger] find_complex(a[j]))
}

/// Flags with no faithful counterpart in the target tool.
pub open spec fn find_flag_incompatible(x: Seq<char>) -> bool {
    x == "-daystart"@ || x == "-follow"@ || x == "-regextype"@ || x == "-warn"@ || x == "-nowarn"@
        || x == "-mount"@ || x == "-xdev"@ || x == "-prune"@ || x == "-quit"@ || x == "-printf"@
        || x == "-fprintf"@ || x == "-fprint"@ || x == "-fls"@ || x == "-ls"@ || x == "-fprint0"@
}

/// A name pattern with one pair of surrounding quotes removed.
pub open spec fn strip_quote_pair(s: Seq<char>) -> Seq<char> {
    if s.len() >= 2 && ((s[0] == '"' && s.last() == '"') || (s[0] == '\'' && s.last() == '\'')) {
        s.subrange(1, s.len() - 1)
    } else {
        s
    }
}

/// What one token contributes: flags, a captured name pattern, search
/// paths, and whether the next token was consumed as its value.
pub struct FindPiece {
    pub flags: Seq<Seq<char>>,
    pub pattern: Option<Seq<char>>,
    pub paths: Seq<Seq<char>>,
    pub consumed: bool,
}

pub open spec fn piece(
    flags: Seq<Seq<char>>,
    pattern: Option<Seq<char>>,
    paths: Seq<Seq<char>>,
    consumed: bool,
) -> Option<FindPiece> {
    Some(FindPiece { flags, pattern, paths, consumed })
}

pub open spec fn valued(a: Seq<Seq<char>>, i: int, before: Seq<Seq<char>>, flag: Seq<char>) -> Option<FindPiece> {
    if i + 1 < a.len() {
        piece(before + seq![flag, a[i + 1]], None, seq![], true)
    } else {
        piece(before, None, seq![], false)
    }
}

pub open spec fn fd_type_word(x: Seq<char>) -> Seq<char> {
    if x == "f"@ {
        "file"@
    } else if x == "d"@ {
        "directory"@
    } else {
        "symlink"@
    }
}

/// What the token at `i` becomes, or `None` when the command must be kept.
pub open spec fn find_step(a: Seq<Seq<char>>, i: int, rule: ReplacementConfig) -> Option<FindPiece> {
    let x = a[i];
    let next = i + 1 < a.len();
    if x == "-name"@ || x == "-iname"@ {
        let f = if x == "-iname"@ { seq!["-i"@] } else { seq![] };
        if next {
            piece(f, Some(strip_quote_pair(a[i + 1])), seq![], true)
        } else {
            piece(f, None, seq![], false)
        }
    } else if x == "-path"@ {
        valued(a, i, seq![], "--glob"@)
    } else if x == "-ipath"@ {
        valued(a, i, seq!["-i"@], "--glob"@)
    } else if x == "-type"@ {
        if !next {
            piece(seq![], None, seq![], false)
        } else if simple_type(a[i + 1]) {
            piece(seq!["--type"@, fd_type_word(a[i + 1])], None, seq![], true)
        } else {
            None
        }
    } else if find_blocked(x) || x == "-readable"@ || x == "-writable"@ || x == "-executable"@ {
        None
    } else if x == "-maxdepth"@ {
        valued(a, i, seq![], "--max-depth"@)
    } else if x == "-mindepth"@ {
        valued(a, i, seq![], "--min-depth"@)
    } else if is_flag(x) {
        if words(rule.preserve_flags@).contains(x) {
            piece(seq![x], None, seq![], false)
        } else if find_flag_incompatible(x) {
            None
        } else {
            piece(seq![], None, seq![], false)
        }
    } else {
        piece(seq![], None, seq![x], false)
    }
}

/// Flags, last captured pattern, and paths, for the arguments from `i` on.
pub struct FindScan {
    pub flags: Seq<Seq<char>>,
    pub pattern: Option<Seq<char>>,
    pub paths: Seq<Seq<char>>,
}

/// The scan `t` preceded by `flags`, `pattern` and `paths`.
pub open spec fn after(
    flags: Seq<Seq<char>>,
    pattern: Option<Seq<char>>,
    paths: Seq<Seq<char>>,
    t: Option<FindScan>,
) -> Option<FindScan> {
    match t {
        None => None,
        Some(t) => Some(
            FindScan {
                flags: flags + t.flags,
                pattern: if t.pattern is Some {
                    t.pattern
                } else {
                    pattern
                },
                paths: paths + t.paths,
            },
        ),
    }
}

pub open spec fn find_from(a: Seq<Seq<char>>, i: int, rule: ReplacementConfig) -> Option<FindScan>
    decreases a.len() - i,
{
    if i < 0 || i >= a.len() {
        Some(FindScan { flags: seq![], pattern: None, paths: seq![] })
    } else {
        match find_step(a, i, rule) {
            None => None,
            Some(p) => after(
                p.flags,
                p.pattern,
                p.paths,
                find_from(a, i + 1 + if p.consumed { 1int } else { 0int }, rule),
            ),
        }
    }
}

/// The arguments of the translated `find` command: the pattern first, the
/// flags that show hidden and ignored entries, the other flags, the search
/// paths, and `.` when a pattern came without a path. `None` when the
/// command is unsafe to translate or a token has no safe counterpart.
pub open spec fn find_translation(a: Seq<Seq<char>>, rule: ReplacementConfig, compat: bool) -> Option<
    Seq<Seq<char>>,
> {
    if find_unsafe(a, compat) {
        None
    } else {
    match find_from(a, 0, rule) {
        None => None,
        Some(s) => Some(
            match s.pattern {
                Some(p) => seq![p],
                None => seq![],
            } + seq!["-H"@, "-I"@] + s.flags + s.paths + if s.paths.len() == 0
                && s.pattern is Some {
                seq!["."@]
            } else {
                seq![]
            },
        ),
    }
    }
}

fn find_blocked_exec(x: &str) -> (r: bool)
    ensures
        r == find_blocked(x@),
{
    either(x, "-exec", "-execdir") || either(x, "-ok", "-okdir") || either(x, "-delete", "-print0")
        || either(x, "-size", "-mtime") || either(x, "-ctime", "-atime") || either(x, "-perm", "-user")
        || either(x, "-group", "-uid") || either(x, "-gid", "-and") || either(x, "-or", "-not")
        || either(x, "!", "(") || str_eq(x, ")")
}

fn simple_type_exec(x: &str) -> (r: bool)
    ensures
        r == simple_type(x@),
{
    either(x, "f", "d") || str_eq(x, "l")
}

/// Whether `flag` has no faithful counterpart in the target tool.
pub fn is_problematic_find_flag(flag: &str) -> (r: bool)
    ensures
        r == find_flag_incompatible(flag@),
{
    either(flag, "-daystart", "-follow") || either(flag, "-regextype", "-warn") || either(
        flag,
        "-nowarn",
        "-mount",
    ) || either(flag, "-xdev", "-prune") || either(flag, "-quit", "-printf") || either(
        flag,
        "-fprintf",
        "-fprint",
    ) || either(flag, "-fls", "-ls") || str_eq(flag, "-fprint0")
}

fn find_complex_exec(x: &str) -> (r: bool)
    ensures
        r == find_complex(x@),
{
    either(x, "-and", "-or") || either(x, "-not", "!") || either(x, "-exec", "-execdir") || either(
        x,
        "-ok",
        "-okdir",
    ) || either(x, "-regex", "-iregex") || either(x, "-newer", "-cnewer") || either(
        x,
        "-anewer",
        "-samefile",
    ) || either(x, "-inum", "-links")
}

/// Whether some argument asks for what strict mode does not translate.
pub fn has_complex_find_expressions(args: &Vec<String>) -> (r: bool)
    ensures
        r == exists|j: int| 0 <= j < args@.len() && #[trigger] find_complex(words(args@)[j]),
{
    let mut i: usize = 0;
    while i < args.len()
        invariant
            i <= args@.len(),
            forall|j: int| 0 <= j < i ==> !find_complex(words(args@)[j]),
        decreases args@.len() - i,
    {
        if find_complex_exec(args[i].as_str()) {
            assert(find_complex(words(args@)[i as int]));
            return true;
        }
        i = i + 1;
    }
    false
}

/// Whether translating `find` with these arguments could change its meaning.
pub fn should_use_find_fallback(args: &Vec<String>, compat: bool) -> (r: bool)
    ensures
        r == find_unsafe(words(args@), compat),
{
    let ghost a = words(args@);
    let mut i: usize = 0;
    while i < args.len()
        invariant
            a == words(args@),
            i <= args@.len(),
            forall|j: int| 0 <= j < i ==> !find_risky(a, j),
        decreases args@.len() - i,
    {
        let x = args[i].as_str();
        if find_blocked_exec(x) {
            assert(find_risky(a, i as int));
            return true;
        }
        if str_eq(x, "-type") && i + 1 < args.len() && !simple_type_exec(args[i + 1].as_str()) {
            assert(find_risky(a, i as int));
            return true;
        }
        i = i + 1;
    }
    compat && has_complex_find_expressions(args)
}

/// Removes one pair of surrounding quotes from a name pattern.
pub fn convert_glob_to_regex(glob_pattern: &str) -> (r: String)
    ensures
        r@ == strip_quote_pair(glob_pattern@),
{
    let n = glob_pattern.unicode_len();
    if n >= 2 {
        let first = glob_pattern.get_char(0);
        let last = glob_pattern.get_char(n - 1);
        if (first == '"' && last == '"') || (first == '\'' && last == '\'') {
            return glob_pattern.substring_char(1, n - 1).to_owned();
        }
    }
    glob_pattern.to_owned()
}

fn empty() -> (r: Vec<String>)
    ensures
        words(r@) == Seq::<Seq<char>>::empty(),
{
    let v: Vec<String> = Vec::new();
    assert(words(v@) =~= seq![]);
    v
}

/// One token's contribution, as `find_step` gives it.
struct FindOut {
    flags: Vec<String>,
    pattern: Option<String>,
    paths: Vec<String>,
    consumed: bool,
}

spec fn out_view(o: FindOut) -> FindPiece {
    FindPiece {
        flags: words(o.flags@),
        pattern: opt_view(o.pattern),
        paths: words(o.paths@),
        consumed: o.consumed,
    }
}

fn flags_only(flags: Vec<String>, consumed: bool) -> (r: FindOut)
    ensures
        out_view(r) == (FindPiece {
            flags: words(flags@),
            pattern: None,
            paths: seq![],
            consumed,
        }),
{
    FindOut { flags, pattern: None, paths: empty(), consumed }
}

fn valued_exec(a: &Vec<String>, i: usize, before: Vec<String>, flag: &str) -> (r: FindOut)
    requires
        i < a@.len(),
    ensures
        Some(out_view(r)) == valued(words(a@), i as int, words(before@), flag@),
{
    if i < a.len() - 1 {
        let mut f = before;
        let ghost b = words(f@);
        let mut t = two(flag, a[i + 1].as_str());
        f.append(&mut t);
        assert(words(f@) =~= b + seq![flag@, words(a@)[i + 1]]);
        flags_only(f, true)
    } else {
        flags_only(before, false)
    }
}

fn find_step_exec(a: &Vec<String>, i: usize, rule: &ReplacementConfig) -> (r: Option<FindOut>)
    requires
        i < a@.len(),
    ensures
        match r {
            None => find_step(words(a@), i as int, *rule) is None,
            Some(o) => find_step(words(a@), i as int, *rule) == Some(out_view(o)),
        },
{
    let x = a[i].as_str();
    let ghost xs = words(a@)[i as int];
    assert(xs == x@);
    let next = i < a.len() - 1;
    if either(x, "-name", "-iname") {
        let f = if str_eq(x, "-iname") {
            one("-i")
        } else {
            empty()
        };
        if next {
            let p = convert_glob_to_regex(a[i + 1].as_str());
            Some(FindOut { flags: f, pattern: Some(p), paths: empty(), consumed: true })
        } else {
            Some(flags_only(f, false))
        }
    } else if str_eq(x, "-path") {
        Some(valued_exec(a, i, empty(), "--glob"))
    } else if str_eq(x, "-ipath") {
        Some(valued_exec(a, i, one("-i"), "--glob"))
    } else if str_eq(x, "-type") {
        if !next {
            Some(flags_only(empty(), false))
        } else {
            let t = a[i + 1].as_str();
            if str_eq(t, "f") {
                Some(flags_only(two("--type", "file"), true))
            } else if str_eq(t, "d") {
                Some(flags_only(two("--type", "directory"), true))
            } else if str_eq(t, "l") {
                Some(flags_only(two("--type", "symlink"), true))
            } else {
                None
            }
        }
    } else if find_blocked_exec(x) || either(x, "-readable", "-writable") || str_eq(
        x,
        "-executable",
    ) {
        None
    } else if str_eq(x, "-maxdepth") {
        Some(valued_exec(a, i, empty(), "--max-depth"))
    } else if str_eq(x, "-mindepth") {
        Some(valued_exec(a, i, empty(), "--min-depth"))
    } else if is_flag_str(x) {
        if contains_word(&rule.preserve_flags, x) {
            Some(flags_only(one(x), false))
        } else if is_problematic_find_flag(x) {
            None
        } else {
            Some(flags_only(empty(), false))
        }
    } else {
        Some(FindOut { flags: empty(), pattern: None, paths: one(x), consumed: false })
    }
}

/// Translates the arguments of `find`, or `None` when a token has no safe
/// counterpart.
pub fn replace_find(args: &Vec<String>, rule: &ReplacementConfig, compat: bool) -> (r: Option<
    Vec<String>,
>)
    ensures
        match r {
            Some(v) => find_translation(words(args@), *rule, compat) == Some(words(v@)),
            None => find_translation(words(args@), *rule, compat) is None,
        },
{
    let ghost a = words(args@);
    if should_use_find_fallback(args, compat) {
        return None;
    }
    let mut flags = empty();
    let mut pattern: Option<String> = None;
    let mut paths = empty();
    let mut i: usize = 0;
    while i < args.len()
        invariant
            a == words(args@),
            i <= args@.len(),
            !find_unsafe(a, compat),
            find_from(a, 0, *rule) == after(
                words(flags@),
                opt_view(pattern),
                words(paths@),
                find_from(a, i as int, *rule),
            ),
        decreases args@.len() - i,
    {
        match find_step_exec(args, i, rule) {
            None => {
                return None;
            },
            Some(o) => {
                let ghost f0 = words(flags@);
                let ghost s0 = words(paths@);
                let ghost ov = out_view(o);
                let FindOut { flags: mut f, pattern: p, paths: mut s, consumed } = o;
                flags.append(&mut f);
                paths.append(&mut s);
                if p.is_some() {
                    pattern = p;
                }
                let next: usize = if consumed { i + 2 } else { i + 1 };
                proof {
                    assert(words(flags@) =~= f0 + ov.flags);
                    assert(words(paths@) =~= s0 + ov.paths);
                    match find_from(a, next as int, *rule) {
                        None => {},
                        Some(t) => {
                            assert(f0 + (ov.flags + t.flags) =~= (f0 + ov.flags) + t.flags);
                            assert(s0 + (ov.paths + t.paths) =~= (s0 + ov.paths) + t.paths);
                        },
                    }
                }
                i = next;
            },
        }
    }
    proof {
        assert(words(flags@) + seq![] =~= words(flags@));
        assert(words(paths@) + seq![] =~= words(paths@));
    }
    let has_pattern = pattern.is_some();
    let no_paths = paths.len() == 0;
    let mut out: Vec<String> = match pattern {
        Some(p) => {
            let v = vec![p];
            proof {
                assert(words(v@) =~= seq![v@[0]@]);
            }
            v
        },
        None => empty(),
    };
    let ghost head = words(out@);
    let mut hidden = two("-H", "-I");
    out.append(&mut hidden);
    out.append(&mut flags);
    out.append(&mut paths);
    let ghost body = words(out@);
    if no_paths && has_pattern {
        out.push(".".to_owned());
        assert(words(out@) =~= body + seq!["."@]);
    } else {
        assert(words(out@) =~= body + seq![]);
    }
    proof {
        assert(body =~= head + seq!["-H"@, "-I"@] + find_from(a, 0, *rule)->Some_0.flags + find_from(
            a,
            0,
            *rule,
        )->Some_0.paths);
    }
    Some(out)
}

} // verus!
