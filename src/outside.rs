//! What the library takes from outside crates: regular expressions, shell
//! word splitting, executable lookup, and the clock.

use vstd::prelude::*;
use crate::text::words;

verus! {

#[verifier::external_type_specification]
#[verifier::external_body]
pub struct ExRegex(regex::Regex);

#[verifier::external_type_specification]
#[verifier::external_body]
pub struct ExRegexError(regex::Error);

/// Whether `regex::Regex::new` accepts the pattern `p`.
pub uninterp spec fn regex_compiles(p: Seq<char>) -> bool;

/// Whether the regular expression `p` matches somewhere in `s`.
pub uninterp spec fn regex_finds(p: Seq<char>, s: Seq<char>) -> bool;

/// The words of `s` under POSIX shell splitting and quoting, or `None` when
/// the input is malformed (an unterminated quote, a trailing backslash).
pub uninterp spec fn shell_words(s: Seq<char>) -> Option<Seq<Seq<char>>>;

/// A compiled deny pattern together with its source text.
pub struct DenyPattern {
    source: String,
    re: regex::Regex,
}

impl View for DenyPattern {
    type V = Seq<char>;

    closed spec fn view(&self) -> Seq<char> {
        self.source@
    }
}

/// Relies on `regex::Regex::new`: it fails exactly on the patterns it does
/// not accept, and the compiled value stays paired with its source.
#[verifier::external_body]
pub(crate) fn compile_pattern(p: &String) -> (r: Result<DenyPattern, regex::Error>)
    ensures
        r is Ok <==> regex_compiles(p@),
        r matches Ok(d) ==> d@ == p@,
{
    match regex::Regex::new(p) {
        Ok(re) => Ok(DenyPattern { source: p.clone(), re }),
        Err(e) => Err(e),
    }
}

/// Relies on `regex::Regex::is_match`: whether the pattern matches anywhere
/// in `s`.
#[verifier::external_body]
pub(crate) fn pattern_finds(p: &DenyPattern, s: &str) -> (r: bool)
    ensures
        r == regex_finds(p@, s@),
{
    p.re.is_match(s)
}

/// Relies on `shlex::split`: the shell words of `s`, or `None` on malformed
/// quoting.
#[verifier::external_body]
pub(crate) fn split_words(s: &str) -> (r: Option<Vec<String>>)
    ensures
        match r {
            Some(v) => shell_words(s@) == Some(words(v@)),
            None => shell_words(s@) is None,
        },
{
    shlex::split(s)
}

/// Relies on `which::which`: whether an executable of this name is found on
/// `PATH`. The answer depends on the file system; a failed lookup is `false`.
#[verifier::external_body]
pub(crate) fn found_on_path(tool: &str) -> (r: bool) {
    which::which(tool).is_ok()
}

#[verifier::external_type_specification]
#[verifier::external_body]
pub struct ExInstant(std::time::Instant);

/// Relies on `std::time::Instant::now`: a reading of the monotonic clock.
#[verifier::external_body]
pub(crate) fn clock_start() -> (r: std::time::Instant) {
    std::time::Instant::now()
}

/// Relies on `std::time::Instant::elapsed`: whole milliseconds of the
/// monotonic clock since `start`.
#[verifier::external_body]
pub(crate) fn millis_since(start: &std::time::Instant) -> (r: u64) {
    start.elapsed().as_millis() as u64
}

} // verus!
