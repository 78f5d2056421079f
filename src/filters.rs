//! `cat`, `ls` and `ps`: flags kept, mapped or dropped, operands kept.
//!
//! These translators never decline. A flag that is neither preserved nor
//! mapped is dropped on purpose: the replacements differ from the originals
//! only in presentation, which these flags govern.

use vstd::prelude::*;
use crate::config::ReplacementConfig;
use crate::grep::one;
use crate::text::{contains_word, is_flag, is_flag_str, words};

verus! {

/// What one `cat` argument becomes: a mapped flag is substituted, a
/// preserved flag kept, any other flag dropped, an operand kept.
pub open spec fn cat_piece(x: Seq<char>, rule: ReplacementConfig) -> Seq<Seq<char>> {
    if is_flag(x) {
        match crate::config::mapped_flag(rule.flag_mappings@, x) {
            Some(m) => seq![m],
            None => if words(rule.preserve_flags@).contains(x) {
                seq![x]
            } else {
                seq![]
            },
        }
    } else {
        seq![x]
    }
}

pub open spec fn cat_args(a: Seq<Seq<char>>, rule: ReplacementConfig) -> Seq<Seq<char>>
    decreases a.len(),
{
    if a.len() == 0 {
        seq![]
    } else {
        cat_args(a.drop_last(), rule) + cat_piece(a.last(), rule)
    }
}

/// The arguments of the translated `cat`: plain style first.
pub open spec fn cat_translation(a: Seq<Seq<char>>, rule: ReplacementConfig) -> Seq<Seq<char>> {
    seq!["--style=plain"@] + cat_args(a, rule)
}

/// What one `ls` or `ps` argument becomes: a preserved flag or an operand is
/// kept, any other flag dropped.
pub open spec fn listing_piece(x: Seq<char>, rule: ReplacementConfig) -> Seq<Seq<char>> {
    if words(rule.preserve_flags@).contains(x) || !is_flag(x) {
        seq![x]
    } else {
        seq![]
    }
}

/// The arguments of the translated `ls` or `ps`.
pub open spec fn listing_translation(a: Seq<Seq<char>>, rule: ReplacementConfig) -> Seq<Seq<char>>
    decreases a.len(),
{
    if a.len() == 0 {
        seq![]
    } else {
        listing_translation(a.drop_last(), rule) + listing_piece(a.last(), rule)
    }
}

fn cat_piece_exec(x: &str, rule: &ReplacementConfig) -> (r: Vec<String>)
    ensures
        words(r@) == cat_piece(x@, *rule),
{
    if is_flag_str(x) {
        match rule.mapping_for(x) {
            Some(m) => one(m.as_str()),
            None => {
                if contains_word(&rule.preserve_flags, x) {
                    one(x)
                } else {
                    let v: Vec<String> = Vec::new();
                    assert(words(v@) =~= seq![]);
                    v
                }
            },
        }
    } else {
        one(x)
    }
}

fn listing_piece_exec(x: &str, rule: &ReplacementConfig) -> (r: Vec<String>)
    ensures
        words(r@) == listing_piece(x@, *rule),
{
    if contains_word(&rule.preserve_flags, x) || !is_flag_str(x) {
        one(x)
    } else {
        let v: Vec<String> = Vec::new();
        assert(words(v@) =~= seq![]);
        v
    }
}

/// Translates the arguments of `cat`.
pub fn replace_cat(args: &Vec<String>, rule: &ReplacementConfig) -> (r: Vec<String>)
    ensures
        words(r@) == cat_translation(words(args@), *rule),
{
    let ghost a = words(args@);
    let mut body: Vec<String> = Vec::new();
    let mut i: usize = 0;
    assert(a.take(0) =~= seq![]);
    assert(words(body@) =~= seq![]);
    while i < args.len()
        invariant
            a == words(args@),
            i <= args@.len(),
            words(body@) == cat_args(a.take(i as int), *rule),
        decreases args@.len() - i,
    {
        let mut p = cat_piece_exec(args[i].as_str(), rule);
        body.append(&mut p);
        proof {
            assert(a.take(i + 1).drop_last() =~= a.take(i as int));
            assert(words(body@) =~= cat_args(a.take(i + 1), *rule));
        }
        i = i + 1;
    }
    assert(a.take(args@.len() as int) =~= a);
    let mut out = one("--style=plain");
    let ghost head = words(out@);
    out.append(&mut body);
    assert(words(out@) =~= head + cat_args(a, *rule));
    out
}

fn replace_listing(args: &Vec<String>, rule: &ReplacementConfig) -> (r: Vec<String>)
    ensures
        words(r@) == listing_translation(words(args@), *rule),
{
    let ghost a = words(args@);
    let mut out: Vec<String> = Vec::new();
    let mut i: usize = 0;
    assert(a.take(0) =~= seq![]);
    assert(words(out@) =~= seq![]);
    while i < args.len()
        invariant
            a == words(args@),
            i <= args@.len(),
            words(out@) == listing_translation(a.take(i as int), *rule),
        decreases args@.len() - i,
    {
        let mut p = listing_piece_exec(args[i].as_str(), rule);
        out.append(&mut p);
        proof {
            assert(a.take(i + 1).drop_last() =~= a.take(i as int));
            assert(words(out@) =~= listing_translation(a.take(i + 1), *rule));
        }
        i = i + 1;
    }
    assert(a.take(args@.len() as int) =~= a);
    out
}

/// Translates the arguments of `ls`.
pub fn replace_ls(args: &Vec<String>, rule: &ReplacementConfig) -> (r: Vec<String>)
    ensures
        words(r@) == listing_translation(words(args@), *rule),
{
    replace_listing(args, rule)
}

/// Translates the arguments of `ps`.
pub fn replace_ps(args: &Vec<String>, rule: &ReplacementConfig) -> (r: Vec<String>)
    ensures
        words(r@) == listing_translation(words(args@), *rule),
{
    replace_listing(args, rule)
}

} // verus!
