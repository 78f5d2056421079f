//! Replacement rules and global settings.

use vstd::prelude::*;
use crate::text::{str_eq, words};

verus! {

/// How one source command is rewritten.
pub struct ReplacementConfig {
    /// Whether this replacement is enabled.
    pub enabled: bool,
    /// Name of the replacement tool.
    pub replacement: String,
    /// Flags passed through unchanged.
    pub preserve_flags: Vec<String>,
    /// Flags to rewrite, in order: source flag, target flag (empty: drop it).
    pub flag_mappings: Vec<(String, String)>,
    /// Ordering key among rules (higher first).
    pub priority: u8,
    /// Whether the original command is kept when the tool is missing.
    pub use_fallback: bool,
}

/// Process-wide settings.
pub struct GlobalSettings {
    pub debug: bool,
    /// Lifetime of a tool-availability entry, in milliseconds.
    pub tool_check_timeout: u64,
    /// Whether tool-availability checks are cached.
    pub cache_tool_checks: bool,
    /// Strict translation; unset means off.
    pub compatibility_mode: Option<bool>,
    /// Whether the deny patterns are consulted.
    pub semantic_analysis: bool,
    /// Regular expressions; a raw command matching one is never translated.
    pub fallback_patterns: Vec<String>,
}

/// The rule set: one rule per source command name, first entry wins.
pub struct Config {
    /// Tool paths, by name.
    pub tools: Vec<(String, String)>,
    /// Rules, by source command name.
    pub replacements: Vec<(String, ReplacementConfig)>,
    pub settings: GlobalSettings,
}

/// The value of the first entry keyed `k` at or after `i`.
pub open spec fn assoc_from<V>(s: Seq<(String, V)>, k: Seq<char>, i: int) -> Option<V>
    decreases s.len() - i,
{
    if i < 0 || i >= s.len() {
        None
    } else if s[i].0@ == k {
        Some(s[i].1)
    } else {
        assoc_from(s, k, i + 1)
    }
}

/// The value of the first entry keyed `k`.
pub open spec fn assoc<V>(s: Seq<(String, V)>, k: Seq<char>) -> Option<V> {
    assoc_from(s, k, 0)
}

/// The view of a flag mapping's target.
pub open spec fn mapped_flag(s: Seq<(String, String)>, k: Seq<char>) -> Option<Seq<char>> {
    match assoc(s, k) {
        Some(v) => Some(v@),
        None => None,
    }
}

/// The names of the keys of `s`, in order.
pub open spec fn keys<V>(s: Seq<(String, V)>) -> Seq<Seq<char>> {
    s.map_values(|e: (String, V)| e.0@)
}

pub open spec fn default_sources() -> Seq<Seq<char>> {
    seq!["grep"@, "find"@, "cat"@, "ls"@, "sed"@, "ps"@]
}

pub open spec fn default_targets() -> Seq<Seq<char>> {
    seq!["rg"@, "fd"@, "bat"@, "eza"@, "sd"@, "procs"@]
}

pub open spec fn default_priorities() -> Seq<u8> {
    seq![10u8, 10u8, 5u8, 8u8, 6u8, 7u8]
}

pub open spec fn default_preserved() -> Seq<Seq<Seq<char>>> {
    seq![
        seq![
            "--color"@, "-n"@, "--line-number"@, "-i"@, "--ignore-case"@, "-v"@,
            "--invert-match"@, "-r"@, "--recursive"@, "-A"@, "-B"@, "-C"@,
        ],
        seq!["-t"@, "--type"@, "-e"@, "--extension"@, "-H"@, "--hidden"@, "-I"@, "--no-ignore"@],
        seq!["-n"@, "--number"@],
        seq![
            "-l"@, "-a"@, "--all"@, "-h"@, "--human-readable"@, "-t"@, "--time"@, "-r"@,
            "--reverse"@,
        ],
        seq![],
        seq!["-a"@, "-u"@, "-x"@, "-f"@],
    ]
}

pub open spec fn default_mappings() -> Seq<Seq<(Seq<char>, Seq<char>)>> {
    seq![
        seq![],
        seq![("-name"@, ""@), ("-iname"@, "-i"@)],
        seq![("-n"@, "--number"@)],
        seq![],
        seq![],
        seq![],
    ]
}

pub open spec fn pair_views(s: Seq<(String, String)>) -> Seq<(Seq<char>, Seq<char>)> {
    s.map_values(|e: (String, String)| (e.0@, e.1@))
}

pub open spec fn default_patterns() -> Seq<Seq<char>> {
    seq!["grep.*-P"@, "grep.*--null-data"@, "find.*-exec"@, "find.*-size"@, "find.*-perm"@]
}

/// The settings that a new configuration starts with.
pub open spec fn is_default_settings(g: GlobalSettings) -> bool {
    &&& !g.debug
    &&& g.tool_check_timeout == 1000
    &&& g.cache_tool_checks
    &&& g.compatibility_mode is None
    &&& g.semantic_analysis
    &&& words(g.fallback_patterns@) == default_patterns()
}

/// The rule set that a new configuration starts with.
pub open spec fn is_default_config(c: Config) -> bool {
    &&& c.tools@.len() == 0
    &&& keys(c.replacements@) == default_sources()
    &&& forall|i: int|
        0 <= i < 6 ==> {
            let r = #[trigger] c.replacements@[i].1;
            &&& r.enabled
            &&& r.use_fallback
            &&& r.replacement@ == default_targets()[i]
            &&& r.priority == default_priorities()[i]
            &&& words(r.preserve_flags@) == default_preserved()[i]
            &&& pair_views(r.flag_mappings@) == default_mappings()[i]
        }
    &&& is_default_settings(c.settings)
}

fn rule(
    target: &str,
    preserve: Vec<String>,
    mappings: Vec<(String, String)>,
    priority: u8,
) -> (r: ReplacementConfig)
    ensures
        r.enabled,
        r.use_fallback,
        r.replacement@ == target@,
        r.preserve_flags == preserve,
        r.flag_mappings == mappings,
        r.priority == priority,
{
    ReplacementConfig {
        enabled: true,
        replacement: target.to_owned(),
        preserve_flags: preserve,
        flag_mappings: mappings,
        priority,
        use_fallback: true,
    }
}

fn s(x: &str) -> (r: String)
    ensures
        r@ == x@,
{
    x.to_owned()
}

impl Default for GlobalSettings {
    fn default() -> (r: Self)
        ensures
            is_default_settings(r),
    {
        let patterns = vec![
            s("grep.*-P"),
            s("grep.*--null-data"),
            s("find.*-exec"),
            s("find.*-size"),
            s("find.*-perm"),
        ];
        assert(words(patterns@) =~= default_patterns());
        GlobalSettings {
            debug: false,
            tool_check_timeout: 1000,
            cache_tool_checks: true,
            compatibility_mode: None,
            semantic_analysis: true,
            fallback_patterns: patterns,
        }
    }
}

impl Default for Config {
    fn default() -> (r: Self)
        ensures
            is_default_config(r),
    {
        let grep_flags = vec![
            s("--color"), s("-n"), s("--line-number"), s("-i"), s("--ignore-case"), s("-v"),
            s("--invert-match"), s("-r"), s("--recursive"), s("-A"), s("-B"), s("-C"),
        ];
        let find_flags = vec![
            s("-t"), s("--type"), s("-e"), s("--extension"), s("-H"), s("--hidden"), s("-I"),
            s("--no-ignore"),
        ];
        let find_maps = vec![(s("-name"), s("")), (s("-iname"), s("-i"))];
        let cat_flags = vec![s("-n"), s("--number")];
        let cat_maps = vec![(s("-n"), s("--number"))];
        let ls_flags = vec![
            s("-l"), s("-a"), s("--all"), s("-h"), s("--human-readable"), s("-t"), s("--time"),
            s("-r"), s("--reverse"),
        ];
        let ps_flags = vec![s("-a"), s("-u"), s("-x"), s("-f")];
        proof {
            assert(words(grep_flags@) =~= default_preserved()[0]);
            assert(words(find_flags@) =~= default_preserved()[1]);
            assert(words(cat_flags@) =~= default_preserved()[2]);
            assert(words(ls_flags@) =~= default_preserved()[3]);
            assert(words(Seq::<String>::empty()) =~= default_preserved()[4]);
            assert(words(ps_flags@) =~= default_preserved()[5]);
            assert(pair_views(find_maps@) =~= default_mappings()[1]);
            assert(pair_views(cat_maps@) =~= default_mappings()[2]);
            assert(pair_views(Seq::<(String, String)>::empty()) =~= default_mappings()[0]);
        }
        let replacements = vec![
            (s("grep"), rule("rg", grep_flags, Vec::new(), 10)),
            (s("find"), rule("fd", find_flags, find_maps, 10)),
            (s("cat"), rule("bat", cat_flags, cat_maps, 5)),
            (s("ls"), rule("eza", ls_flags, Vec::new(), 8)),
            (s("sed"), rule("sd", Vec::new(), Vec::new(), 6)),
            (s("ps"), rule("procs", ps_flags, Vec::new(), 7)),
        ];
        assert(keys(replacements@) =~= default_sources());
        Config { tools: Vec::new(), replacements, settings: GlobalSettings::default() }
    }
}

/// The index of the first entry keyed `k`, if any.
pub(crate) fn find_key<V>(s: &Vec<(String, V)>, k: &str) -> (r: Option<usize>)
    ensures
        match r {
            Some(i) => i < s@.len() && assoc(s@, k@) == Some(s@[i as int].1) && s@[i as int].0@
                == k@ && forall|j: int| 0 <= j < i ==> s@[j].0@ != k@,
            None => assoc(s@, k@) is None && forall|j: int| 0 <= j < s@.len() ==> s@[j].0@ != k@,
        },
{
    let mut i: usize = 0;
    while i < s.len()
        invariant
            i <= s@.len(),
            assoc(s@, k@) == assoc_from(s@, k@, i as int),
            forall|j: int| 0 <= j < i ==> s@[j].0@ != k@,
        decreases s@.len() - i,
    {
        if str_eq(s[i].0.as_str(), k) {
            return Some(i);
        }
        i = i + 1;
    }
    None
}

impl ReplacementConfig {
    /// The target that `flag` is mapped to, if a mapping is configured.
    pub fn mapping_for(&self, flag: &str) -> (r: Option<&String>)
        ensures
            match r {
                Some(t) => mapped_flag(self.flag_mappings@, flag@) == Some(t@),
                None => mapped_flag(self.flag_mappings@, flag@) is None,
            },
    {
        match find_key(&self.flag_mappings, flag) {
            Some(i) => Some(&self.flag_mappings[i].1),
            None => None,
        }
    }
}

impl Config {
    /// The rule for the source command `name`, if any.
    pub fn rule_for(&self, name: &str) -> (r: Option<&ReplacementConfig>)
        ensures
            match r {
                Some(c) => assoc(self.replacements@, name@) == Some(*c),
                None => assoc(self.replacements@, name@) is None,
            },
    {
        match find_key(&self.replacements, name) {
            Some(i) => Some(&self.replacements[i].1),
            None => None,
        }
    }
}

} // verus!
