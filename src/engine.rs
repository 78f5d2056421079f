//! The translation coordinator: tokenize, look up the rule, classify, check
//! tool availability, translate.

use vstd::prelude::*;
use crate::cache::{ToolCache, age, fresh_answer};
use crate::config::{
    Config, ReplacementConfig, assoc, assoc_from, default_sources, default_targets, find_key,
    is_default_config, keys,
};
use crate::filters::{cat_translation, listing_translation, replace_cat, replace_ls, replace_ps};
use crate::find::{find_translation, find_unsafe, replace_find, should_use_find_fallback};
use crate::grep::{grep_translation, grep_unsafe, replace_grep, should_use_grep_fallback};
use crate::outside::{
    DenyPattern, clock_start, compile_pattern, found_on_path, millis_since, pattern_finds,
    regex_compiles,
    regex_finds, shell_words, split_words,
};
use crate::sed::{replace_sed, sed_translation};
use crate::text::{join_str, join_words, str_eq, words};

verus! {

/// Why an engine could not be built.
pub enum EngineError {
    /// A deny pattern that is not a valid regular expression.
    InvalidPattern(String),
}

impl EngineError {
    /// A description of the error.
    pub fn message(&self) -> (r: String)
        ensures
            match self {
                EngineError::InvalidPattern(p) => r@ == "invalid fallback pattern: "@ + p@,
            },
    {
        match self {
            EngineError::InvalidPattern(p) => {
                let mut m = "invalid fallback pattern: ".to_owned();
                m.append(p.as_str());
                m
            },
        }
    }
}

/// A second tool to try when the configured one is missing.
pub open spec fn alternative(cmd: Seq<char>) -> Option<Seq<char>> {
    if cmd == "ls"@ {
        Some("exa"@)
    } else {
        None
    }
}

/// The per-tool semantic risk predicate.
pub open spec fn is_unsafe(cmd: Seq<char>, a: Seq<Seq<char>>, compat: bool) -> bool {
    if cmd == "grep"@ {
        grep_unsafe(a, compat)
    } else if cmd == "find"@ {
        find_unsafe(a, compat)
    } else {
        false
    }
}

/// The translated arguments, by source command.
pub open spec fn translated_args(
    cmd: Seq<char>,
    a: Seq<Seq<char>>,
    rule: ReplacementConfig,
    compat: bool,
    in_repo: bool,
) -> Option<Seq<Seq<char>>> {
    if cmd == "grep"@ {
        grep_translation(a, rule, compat, in_repo)
    } else if cmd == "find"@ {
        find_translation(a, rule, compat)
    } else if cmd == "cat"@ {
        Some(cat_translation(a, rule))
    } else if cmd == "ls"@ || cmd == "ps"@ {
        Some(listing_translation(a, rule))
    } else if cmd == "sed"@ {
        sed_translation(a)
    } else {
        None
    }
}

/// Some deny pattern matches the raw command.
pub open spec fn denied(patterns: Seq<Seq<char>>, command: Seq<char>) -> bool {
    exists|i: int| 0 <= i < patterns.len() && #[trigger] regex_finds(patterns[i], command)
}

/// The tool name followed by the arguments, space-separated.
pub open spec fn command_line(tool: Seq<char>, a: Seq<Seq<char>>) -> Seq<char> {
    tool + seq![' '] + join_words(a)
}

/// The shell words of `command` and the rule that applies to them, when the
/// command is one that may be translated: it parses into at least one word,
/// an enabled rule exists for the first, no deny pattern matches, and
/// the tool's risk predicate does not hold of the rest.
pub open spec fn eligible(cfg: Config, compat: bool, command: Seq<char>) -> Option<
    (Seq<Seq<char>>, ReplacementConfig),
> {
    match shell_words(command) {
        None => None,
        Some(t) => if t.len() == 0 {
            None
        } else {
            match assoc(cfg.replacements@, t[0]) {
                None => None,
                Some(rule) => if !rule.enabled || denied(
                    words(cfg.settings.fallback_patterns@),
                    command,
                ) || is_unsafe(t[0], t.drop_first(), compat) {
                    None
                } else {
                    Some((t, rule))
                },
            }
        },
    }
}

/// The command line produced when `tool` is the one found available.
pub open spec fn rewrite(
    cfg: Config,
    compat: bool,
    in_repo: bool,
    command: Seq<char>,
    tool: Seq<char>,
) -> Option<Seq<char>> {
    match eligible(cfg, compat, command) {
        None => None,
        Some(e) => match translated_args(e.0[0], e.0.drop_first(), e.1, compat, in_repo) {
            None => None,
            Some(a) => Some(command_line(tool, a)),
        },
    }
}

/// The tool named by the rule of an eligible command.
pub open spec fn rule_tool(cfg: Config, compat: bool, command: Seq<char>) -> Seq<char> {
    match eligible(cfg, compat, command) {
        Some(e) => e.1.replacement@,
        None => seq![],
    }
}

/// The result of `translate` when the rule's tool is available or not, and
/// the alternative tool, if the command has one, is available or not.
pub open spec fn outcome(
    cfg: Config,
    compat: bool,
    in_repo: bool,
    command: Seq<char>,
    primary_available: bool,
    alternative_available: bool,
) -> Option<Seq<char>> {
    match eligible(cfg, compat, command) {
        None => None,
        Some(e) => if primary_available {
            rewrite(cfg, compat, in_repo, command, e.1.replacement@)
        } else if alternative_available && alternative(e.0[0]) is Some {
            rewrite(cfg, compat, in_repo, command, alternative(e.0[0])->Some_0)
        } else {
            None
        },
    }
}

/// One availability check: with caching on, a fresh entry answers and the
/// cache is unchanged; otherwise the live answer `r` is recorded at `now`.
pub open spec fn availability_step(
    caching: bool,
    ttl: u64,
    c0: Seq<(String, (bool, u64))>,
    tool: Seq<char>,
    now: u64,
    r: bool,
    c1: Seq<(String, (bool, u64))>,
) -> bool {
    if !caching {
        c1 == c0
    } else {
        match fresh_answer(c0, tool, now, ttl) {
            Some(v) => r == v && c1 == c0,
            None => assoc(c1, tool) == Some((r, now)) && forall|k: Seq<char>|
                k != tool ==> #[trigger] assoc(c1, k) == assoc(c0, k),
        }
    }
}

/// Replaces commands with faster equivalents where that is safe.
pub struct ReplacementEngine {
    config: Config,
    compatibility_mode: bool,
    /// Whether the working directory is inside a version-controlled tree.
    pub is_git_repo: bool,
    deny: Vec<DenyPattern>,
    cache: ToolCache,
    /// The origin of the cache's timestamps.
    started: std::time::Instant,
}

impl ReplacementEngine {
    pub closed spec fn cfg(&self) -> Config {
        self.config
    }

    pub closed spec fn compat(&self) -> bool {
        self.compatibility_mode
    }

    pub closed spec fn in_repo(&self) -> bool {
        self.is_git_repo
    }

    pub closed spec fn cache_view(&self) -> Seq<(String, (bool, u64))> {
        self.cache.entries@
    }

    /// The compiled deny patterns are those of the configuration.
    pub closed spec fn wf(&self) -> bool {
        &&& self.deny@.len() == self.config.settings.fallback_patterns@.len()
        &&& forall|i: int|
            0 <= i < self.deny@.len() ==> #[trigger] self.deny@[i]@
                == self.config.settings.fallback_patterns@[i]@
    }

    /// Builds an engine; fails on the first deny pattern that is not a valid
    /// regular expression.
    pub fn new(config: Config, is_git_repo: bool) -> (r: Result<Self, EngineError>)
        ensures
            r is Ok <==> forall|i: int|
                0 <= i < config.settings.fallback_patterns@.len() ==> #[trigger] regex_compiles(
                    config.settings.fallback_patterns@[i]@,
                ),
            r matches Ok(e) ==> {
                &&& e.wf()
                &&& e.cfg() == config
                &&& e.compat() == (config.settings.compatibility_mode == Some(true))
                &&& e.in_repo() == is_git_repo
                &&& e.cache_view().len() == 0
            },
            r matches Err(EngineError::InvalidPattern(p)) ==> exists|i: int|
                0 <= i < config.settings.fallback_patterns@.len() && p@
                    == config.settings.fallback_patterns@[i]@ && !regex_compiles(p@),
    {
        let mut deny: Vec<DenyPattern> = Vec::new();
        let n = config.settings.fallback_patterns.len();
        let mut i: usize = 0;
        while i < n
            invariant
                n == config.settings.fallback_patterns@.len(),
                i <= n,
                deny@.len() == i,
                forall|j: int| 0 <= j < i ==> regex_compiles(config.settings.fallback_patterns@[j]@),
                forall|j: int|
                    0 <= j < i ==> #[trigger] deny@[j]@ == config.settings.fallback_patterns@[j]@,
            decreases n - i,
        {
            let p = &config.settings.fallback_patterns[i];
            match compile_pattern(p) {
                Ok(d) => {
                    deny.push(d);
                },
                Err(_) => {
                    return Err(EngineError::InvalidPattern(p.clone()));
                },
            }
            i = i + 1;
        }
        let compatibility_mode = match config.settings.compatibility_mode {
            Some(b) => b,
            None => false,
        };
        Ok(ReplacementEngine {
            config,
            compatibility_mode,
            is_git_repo,
            deny,
            cache: ToolCache::new(),
            started: clock_start(),
        })
    }

    /// The configuration the engine was built with.
    pub fn config(&self) -> (r: &Config)
        ensures
            *r == self.cfg(),
    {
        &self.config
    }

    /// Whether a deny pattern matches the raw command.
    fn matches_fallback_patterns(&self, command: &str) -> (r: bool)
        requires
            self.wf(),
        ensures
            r == denied(words(self.cfg().settings.fallback_patterns@), command@),
    {
        let ghost ps = words(self.config.settings.fallback_patterns@);
        let mut i: usize = 0;
        while i < self.deny.len()
            invariant
                self.wf(),
                ps == words(self.config.settings.fallback_patterns@),
                i <= self.deny@.len(),
                forall|j: int| 0 <= j < i ==> !regex_finds(ps[j], command@),
            decreases self.deny@.len() - i,
        {
            if pattern_finds(&self.deny[i], command) {
                assert(ps[i as int] == self.deny@[i as int]@);
                return true;
            }
            i = i + 1;
        }
        false
    }

    /// Whether `tool` is on `PATH`, consulting the cache at time `now`.
    pub fn is_tool_available_at(&mut self, tool: &str, now: u64) -> (r: bool)
        ensures
            final(self).cfg() == old(self).cfg(),
            final(self).compat() == old(self).compat(),
            final(self).in_repo() == old(self).in_repo(),
            old(self).wf() ==> final(self).wf(),
            availability_step(
                old(self).cfg().settings.cache_tool_checks,
                old(self).cfg().settings.tool_check_timeout,
                old(self).cache_view(),
                tool@,
                now,
                r,
                final(self).cache_view(),
            ),
    {
        if !self.config.settings.cache_tool_checks {
            return found_on_path(tool);
        }
        match self.cache.cached(tool, now, self.config.settings.tool_check_timeout) {
            Some(v) => v,
            None => {
                let v = found_on_path(tool);
                self.cache.store(tool, v, now);
                v
            },
        }
    }

    /// Whether `tool` is on `PATH`, consulting the cache at the current time.
    pub fn is_tool_available(&mut self, tool: &str) -> (r: bool)
        ensures
            final(self).cfg() == old(self).cfg(),
            old(self).wf() ==> final(self).wf(),
            exists|now: u64|
                availability_step(
                    old(self).cfg().settings.cache_tool_checks,
                    old(self).cfg().settings.tool_check_timeout,
                    old(self).cache_view(),
                    tool@,
                    now,
                    r,
                    final(self).cache_view(),
                ),
    {
        let now = millis_since(&self.started);
        self.is_tool_available_at(tool, now)
    }

    /// Records an availability answer for `tool` as checked at `now`.
    pub fn record_tool_check(&mut self, tool: &str, available: bool, now: u64)
        ensures
            final(self).cfg() == old(self).cfg(),
            final(self).compat() == old(self).compat(),
            final(self).in_repo() == old(self).in_repo(),
            old(self).wf() ==> final(self).wf(),
            assoc(final(self).cache_view(), tool@) == Some((available, now)),
            forall|k: Seq<char>|
                k != tool@ ==> #[trigger] assoc(final(self).cache_view(), k) == assoc(
                    old(self).cache_view(),
                    k,
                ),
    {
        self.cache.store(tool, available, now);
    }

    /// The shell words of `command` split into name and arguments, with the
    /// index of its rule, when the command is eligible for translation.
    fn prepare(&self, command: &str) -> (r: Option<(String, Vec<String>, usize)>)
        requires
            self.wf(),
        ensures
            match r {
                None => eligible(self.cfg(), self.compat(), command@) is None,
                Some(p) => eligible(self.cfg(), self.compat(), command@) matches Some(e) && e.0[0]
                    == p.0@ && e.0.drop_first() == words(p.1@) && p.2 < self.cfg().replacements@.len()
                    && self.cfg().replacements@[p.2 as int].1 == e.1,
            },
    {
        let tokens = match split_words(command) {
            None => {
                return None;
            },
            Some(t) => t,
        };
        let ghost t = words(tokens@);
        if tokens.len() == 0 {
            return None;
        }
        let cmd = tokens[0].clone();
        assert(cmd@ == t[0]);
        let mut args: Vec<String> = Vec::new();
        let mut j: usize = 1;
        while j < tokens.len()
            invariant
                t == words(tokens@),
                1 <= j <= tokens@.len(),
                words(args@) == t.subrange(1, j as int),
            decreases tokens@.len() - j,
        {
            let w = tokens[j].clone();
            assert(t[j as int] == tokens@[j as int]@);
            let ghost before = words(args@);
            args.push(w);
            assert(words(args@) =~= before.push(w@));
            assert(words(args@) =~= t.subrange(1, j + 1));
            j = j + 1;
        }
        assert(t.drop_first() =~= t.subrange(1, t.len() as int));
        let k = match find_key(&self.config.replacements, cmd.as_str()) {
            None => {
                return None;
            },
            Some(k) => k,
        };
        if !self.config.replacements[k].1.enabled {
            return None;
        }
        if self.matches_fallback_patterns(command) {
            return None;
        }
        if self.is_unsafe_exec(cmd.as_str(), &args) {
            return None;
        }
        Some((cmd, args, k))
    }

    /// The translated command line for `tool`, or `None` when the
    /// translator declines.
    fn finish(&self, cmd: &str, args: &Vec<String>, k: usize, tool: String) -> (r: Option<String>)
        requires
            k < self.cfg().replacements@.len(),
        ensures
            opt_str(r) == match translated_args(
                cmd@,
                words(args@),
                self.cfg().replacements@[k as int].1,
                self.compat(),
                self.in_repo(),
            ) {
                None => None,
                Some(a) => Some(command_line(tool@, a)),
            },
    {
        let rule = &self.config.replacements[k].1;
        match apply_replacement(cmd, args, rule, self.compatibility_mode, self.is_git_repo) {
            None => None,
            Some(out) => {
                let mut line = tool;
                line.append(" ");
                let joined = join_str(&out);
                line.append(joined.as_str());
                proof {
                    reveal_strlit(" ");
                    assert(line@ =~= command_line(tool@, words(out@)));
                }
                Some(line)
            },
        }
    }

    /// Translates `command` given whether the rule's tool and the
    /// alternative tool are available.
    pub fn translate_with(
        &self,
        command: &str,
        primary_available: bool,
        alternative_available: bool,
    ) -> (r: Option<String>)
        requires
            self.wf(),
        ensures
            opt_str(r) == outcome(
                self.cfg(),
                self.compat(),
                self.in_repo(),
                command@,
                primary_available,
                alternative_available,
            ),
    {
        let (cmd, args, k) = match self.prepare(command) {
            None => {
                return None;
            },
            Some(p) => p,
        };
        let tool = if primary_available {
            self.config.replacements[k].1.replacement.clone()
        } else if str_eq(cmd.as_str(), "ls") && alternative_available {
            "exa".to_owned()
        } else {
            return None;
        };
        self.finish(cmd.as_str(), &args, k, tool)
    }

    /// Translates `command` with tool availability checked at time `now`;
    /// `None` means the original command is to be run unchanged.
    pub fn replace_command_at(&mut self, command: &str, now: u64) -> (r: Option<String>)
        requires
            old(self).wf(),
        ensures
            final(self).wf(),
            final(self).cfg() == old(self).cfg(),
            final(self).compat() == old(self).compat(),
            final(self).in_repo() == old(self).in_repo(),
            exists|p: bool, a: bool|
                opt_str(r) == outcome(
                    old(self).cfg(),
                    old(self).compat(),
                    old(self).in_repo(),
                    command@,
                    p,
                    a,
                ),
            eligible(old(self).cfg(), old(self).compat(), command@) is None ==> r is None
                && final(self).cache_view() == old(self).cache_view(),
            denied(words(old(self).cfg().settings.fallback_patterns@), command@) ==> r is None,
            eligible(old(self).cfg(), old(self).compat(), command@) is Some
                && old(self).cfg().settings.cache_tool_checks && fresh_answer(
                old(self).cache_view(),
                rule_tool(old(self).cfg(), old(self).compat(), command@),
                now,
                old(self).cfg().settings.tool_check_timeout,
            ) == Some(true) ==> opt_str(r) == rewrite(
                old(self).cfg(),
                old(self).compat(),
                old(self).in_repo(),
                command@,
                rule_tool(old(self).cfg(), old(self).compat(), command@),
            ),
            eligible(old(self).cfg(), old(self).compat(), command@) is Some
                && old(self).cfg().settings.cache_tool_checks ==> exists|p: bool, a: bool, t: u64|
                assoc(
                    final(self).cache_view(),
                    rule_tool(old(self).cfg(), old(self).compat(), command@),
                ) == Some((p, t)) && opt_str(r)
                    == outcome(
                    old(self).cfg(),
                    old(self).compat(),
                    old(self).in_repo(),
                    command@,
                    p,
                    a,
                ),
    {
        let (cmd, _args, k) = match self.prepare(command) {
            None => {
                proof {
                    assert(outcome(self.cfg(), self.compat(), self.in_repo(), command@, true, true)
                        is None);
                }
                return None;
            },
            Some(p) => p,
        };
        let ghost e = eligible(self.cfg(), self.compat(), command@)->Some_0;
        let ghost c0 = self.cache_view();
        let primary = self.config.replacements[k].1.replacement.clone();
        assert(primary@ == e.1.replacement@);
        let p = self.is_tool_available_at(primary.as_str(), now);
        let ghost c1 = self.cache_view();
        proof {
            if self.cfg().settings.cache_tool_checks {
                match fresh_answer(c0, primary@, now, self.cfg().settings.tool_check_timeout) {
                    Some(v) => {
                        assert(assoc(c1, primary@) matches Some(x) && x.0 == p);
                    },
                    None => {},
                }
            }
        }
        let a = if !p && !str_eq(primary.as_str(), "exa") {
            self.get_alternative_tool(cmd.as_str(), now).is_some()
        } else {
            false
        };
        proof {
            if self.cfg().settings.cache_tool_checks {
                assert(assoc(self.cache_view(), primary@) == assoc(c1, primary@));
            }
            if !p && primary@ == "exa"@ && alternative(cmd@) is Some {
                reveal_strlit("exa");
                assert(alternative(cmd@) == Some("exa"@));
                assert(rewrite(self.cfg(), self.compat(), self.in_repo(), command@, "exa"@) == rewrite(
                    self.cfg(),
                    self.compat(),
                    self.in_repo(),
                    command@,
                    e.1.replacement@,
                ));
            }
        }
        let r = self.translate_with(command, p, a);
        proof {
            if self.cfg().settings.cache_tool_checks {
                let t = assoc(self.cache_view(), primary@)->Some_0.1;
                assert(assoc(self.cache_view(), primary@) == Some((p, t)));
                if !p && primary@ == "exa"@ && alternative(cmd@) is Some {
                    assert(opt_str(r) == outcome(
                        self.cfg(),
                        self.compat(),
                        self.in_repo(),
                        command@,
                        p,
                        false,
                    ));
                }
            }
        }
        r
    }

    /// Translates `command`; `None` means the original command is to be run
    /// unchanged.
    pub fn replace_command(&mut self, command: &str) -> (r: Option<String>)
        requires
            old(self).wf(),
        ensures
            final(self).wf(),
            final(self).cfg() == old(self).cfg(),
            exists|p: bool, a: bool|
                opt_str(r) == outcome(
                    old(self).cfg(),
                    old(self).compat(),
                    old(self).in_repo(),
                    command@,
                    p,
                    a,
                ),
            eligible(old(self).cfg(), old(self).compat(), command@) is None ==> r is None,
            denied(words(old(self).cfg().settings.fallback_patterns@), command@) ==> r is None,
            eligible(old(self).cfg(), old(self).compat(), command@) is Some
                && old(self).cfg().settings.cache_tool_checks ==> exists|p: bool, a: bool, t: u64|
                assoc(
                    final(self).cache_view(),
                    rule_tool(old(self).cfg(), old(self).compat(), command@),
                ) == Some((p, t)) && opt_str(r)
                    == outcome(
                    old(self).cfg(),
                    old(self).compat(),
                    old(self).in_repo(),
                    command@,
                    p,
                    a,
                ),
    {
        let now = millis_since(&self.started);
        self.replace_command_at(command, now)
    }

    /// The alternative to try for `cmd` when its tool is missing, if one
    /// exists and is available at `now`.
    fn get_alternative_tool(&mut self, cmd: &str, now: u64) -> (r: Option<String>)
        ensures
            final(self).cfg() == old(self).cfg(),
            final(self).compat() == old(self).compat(),
            final(self).in_repo() == old(self).in_repo(),
            old(self).wf() ==> final(self).wf(),
            alternative(cmd@) is None ==> r is None && final(self).cache_view() == old(
                self,
            ).cache_view(),
            r matches Some(t) ==> alternative(cmd@) == Some(t@),
            alternative(cmd@) matches Some(t) ==> availability_step(
                old(self).cfg().settings.cache_tool_checks,
                old(self).cfg().settings.tool_check_timeout,
                old(self).cache_view(),
                t,
                now,
                r is Some,
                final(self).cache_view(),
            ),
    {
        if str_eq(cmd, "ls") {
            if self.is_tool_available_at("exa", now) {
                Some("exa".to_owned())
            } else {
                None
            }
        } else {
            None
        }
    }

    fn is_unsafe_exec(&self, cmd: &str, args: &Vec<String>) -> (r: bool)
        ensures
            r == is_unsafe(cmd@, words(args@), self.compat()),
    {
        if str_eq(cmd, "grep") {
            should_use_grep_fallback(args, self.compatibility_mode)
        } else if str_eq(cmd, "find") {
            should_use_find_fallback(args, self.compatibility_mode)
        } else {
            false
        }
    }
}

/// The character view of an optional result.
pub open spec fn opt_str(r: Option<String>) -> Option<Seq<char>> {
    match r {
        Some(s) => Some(s@),
        None => None,
    }
}

/// Runs the translator for `cmd` on its arguments.
pub fn apply_replacement(
    cmd: &str,
    args: &Vec<String>,
    rule: &ReplacementConfig,
    compat: bool,
    in_repo: bool,
) -> (r: Option<Vec<String>>)
    ensures
        match r {
            Some(v) => translated_args(cmd@, words(args@), *rule, compat, in_repo) == Some(
                words(v@),
            ),
            None => translated_args(cmd@, words(args@), *rule, compat, in_repo) is None,
        },
{
    if str_eq(cmd, "grep") {
        replace_grep(args, rule, compat, in_repo)
    } else if str_eq(cmd, "find") {
        replace_find(args, rule, compat)
    } else if str_eq(cmd, "cat") {
        Some(replace_cat(args, rule))
    } else if str_eq(cmd, "ls") {
        Some(replace_ls(args, rule))
    } else if str_eq(cmd, "ps") {
        Some(replace_ps(args, rule))
    } else if str_eq(cmd, "sed") {
        replace_sed(args)
    } else {
        None
    }
}

/// A command with no rule for its first word, or whose rule is disabled, is
/// never translated.
pub proof fn unmatched_or_disabled_declines(cfg: Config, compat: bool, command: Seq<char>)
    requires
        shell_words(command) matches Some(t) && t.len() > 0 && match assoc(
            cfg.replacements@,
            t[0],
        ) {
            None => true,
            Some(rule) => !rule.enabled,
        },
    ensures
        eligible(cfg, compat, command) is None,
        forall|in_repo: bool, p: bool, a: bool|
            #[trigger] outcome(cfg, compat, in_repo, command, p, a) is None,
{
}

/// A command that a deny pattern matches is never translated,
/// whatever the rule for it and whichever tools are available.
pub proof fn denied_command_declines(cfg: Config, compat: bool, command: Seq<char>)
    requires
        denied(words(cfg.settings.fallback_patterns@), command),
    ensures
        eligible(cfg, compat, command) is None,
        forall|in_repo: bool, p: bool, a: bool|
            #[trigger] outcome(cfg, compat, in_repo, command, p, a) is None,
{
}

proof fn lemma_absent_key<V>(s: Seq<(String, V)>, k: Seq<char>, i: int)
    requires
        0 <= i,
        !keys(s).contains(k),
    ensures
        assoc_from(s, k, i) is None,
    decreases s.len() - i,
{
    if i < s.len() {
        assert(keys(s)[i] == s[i].0@);
        lemma_absent_key(s, k, i + 1);
    }
}

/// The tools that the default rules translate to, and the alternative
/// directory lister.
pub open spec fn default_tools() -> Seq<Seq<char>> {
    default_targets().push("exa"@)
}

/// With the default rules, a command that already starts with a replacement
/// tool matches no rule, and so is never translated again.
pub proof fn translated_command_declines(cfg: Config, compat: bool, command: Seq<char>)
    requires
        is_default_config(cfg),
        shell_words(command) matches Some(t) && t.len() > 0 && default_tools().contains(t[0]),
    ensures
        assoc(cfg.replacements@, shell_words(command)->Some_0[0]) is None,
        eligible(cfg, compat, command) is None,
        forall|in_repo: bool, p: bool, a: bool|
            #[trigger] outcome(cfg, compat, in_repo, command, p, a) is None,
{
    let w = shell_words(command)->Some_0[0];
    reveal_strlit("grep");
    reveal_strlit("find");
    reveal_strlit("cat");
    reveal_strlit("ls");
    reveal_strlit("sed");
    reveal_strlit("ps");
    reveal_strlit("rg");
    reveal_strlit("fd");
    reveal_strlit("bat");
    reveal_strlit("eza");
    reveal_strlit("sd");
    reveal_strlit("procs");
    reveal_strlit("exa");
    let ws = default_tools();
    let i = choose|i: int| 0 <= i < ws.len() && ws[i] == w;
    let srcs = default_sources();
    assert forall|j: int| 0 <= j < srcs.len() implies srcs[j] != w by {
        if srcs[j].len() == w.len() {
            assert(srcs[j][0] != w[0] || srcs[j][1] != w[1]);
        }
    }
    assert(!srcs.contains(w));
    lemma_absent_key(cfg.replacements@, w, 0);
}

/// After an availability check with caching on, the cache holds an entry
/// for the tool whose answer is the one returned.
pub proof fn checked_tool_is_cached(
    ttl: u64,
    c0: Seq<(String, (bool, u64))>,
    c1: Seq<(String, (bool, u64))>,
    tool: Seq<char>,
    now: u64,
    r: bool,
)
    requires
        availability_step(true, ttl, c0, tool, now, r, c1),
    ensures
        assoc(c1, tool) matches Some(e) && e.0 == r,
{
}

/// Two consecutive availability checks of one tool give the same answer
/// when the second comes while the entry the first left is younger than the
/// time to live; the second leaves the cache as it was, so it made no probe.
pub proof fn cached_answer_repeats(
    ttl: u64,
    c0: Seq<(String, (bool, u64))>,
    c1: Seq<(String, (bool, u64))>,
    c2: Seq<(String, (bool, u64))>,
    tool: Seq<char>,
    t1: u64,
    t2: u64,
    r1: bool,
    r2: bool,
)
    requires
        availability_step(true, ttl, c0, tool, t1, r1, c1),
        availability_step(true, ttl, c1, tool, t2, r2, c2),
        assoc(c1, tool) matches Some(e) && age(t2, e.1) < ttl,
    ensures
        r2 == r1,
        c2 == c1,
        fresh_answer(c1, tool, t2, ttl) == Some(r1),
{
    checked_tool_is_cached(ttl, c0, c1, tool, t1, r1);
}

/// In particular, when the first check probed, a second check less than the
/// time to live later repeats its answer without a probe.
pub proof fn probed_answer_repeats(
    ttl: u64,
    c0: Seq<(String, (bool, u64))>,
    c1: Seq<(String, (bool, u64))>,
    c2: Seq<(String, (bool, u64))>,
    tool: Seq<char>,
    t1: u64,
    t2: u64,
    r1: bool,
    r2: bool,
)
    requires
        fresh_answer(c0, tool, t1, ttl) is None,
        availability_step(true, ttl, c0, tool, t1, r1, c1),
        availability_step(true, ttl, c1, tool, t2, r2, c2),
        age(t2, t1) < ttl,
    ensures
        r2 == r1,
        c2 == c1,
{
    cached_answer_repeats(ttl, c0, c1, c2, tool, t1, t2, r1, r2);
}

} // verus!
