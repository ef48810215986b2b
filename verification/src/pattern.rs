//! The shape of a directive line, and the regular-expression engine that
//! finds it.
//!
//! Matching is left to the `regex` crate. What it computes is not proved
//! here: the items below say what is taken on trust from it.

use regex::Regex;
use vstd::prelude::*;

verus! {

/// The shape of a directive line: a keyword, then in parentheses an address
/// after `0x` and a quoted name.
///
/// The character classes hold `|` as a member, so a keyword, an address or a
/// name may contain it, and the address class admits every ASCII letter and
/// digit, not the hexadecimal ones alone.
pub const LINE_PATTERN: &'static str =
    r#"([\w|_]+)\s+\(0[x|X]([0-9|a-z|A-Z]+),\s+"([\w|_]+)"\)"#;

#[verifier::external_type_specification]
#[verifier::external_body]
pub struct ExRegex(regex::Regex);

#[verifier::external_type_specification]
#[verifier::external_body]
pub struct ExRegexError(regex::Error);

/// The pattern text that a compiled expression was made from: what
/// `Regex::as_str` returns.
pub uninterp spec fn regex_source(re: Regex) -> Seq<char>;

/// What `Regex::captures` finds of `re` in `haystack`: `None` where the
/// expression matches nowhere; else, for the leftmost match, the text of each
/// capture group in the order of the opening parentheses, the whole match
/// first, with `None` for a group that took no part in the match.
pub uninterp spec fn regex_groups(re: Regex, haystack: Seq<char>) -> Option<
    Seq<Option<Seq<char>>>,
>;

/// Whether `Regex::new` accepts `pattern` where a machine word has
/// `word_bits` bits: the pattern is well formed, and the program it compiles
/// to stays within the engine's size limit. That limit is counted in bytes,
/// and a state of the program takes more of them where pointers are wider,
/// so the word size is part of the question.
pub uninterp spec fn regex_accepts(pattern: Seq<char>, word_bits: nat) -> bool;

/// `Regex::new` compiles a pattern. Which patterns it accepts is named by
/// `regex_accepts` and not stated further; an expression that it returns
/// remembers the pattern it was given.
pub assume_specification[ Regex::new ](re: &str) -> (res: Result<Regex, regex::Error>)
    ensures
        res is Ok <==> regex_accepts(re@, usize::BITS as nat),
        res matches Ok(compiled) ==> regex_source(compiled) == re@,
;

/// Calls `Regex::captures` and copies the text of every capture group out of
/// the match. The result is the one named by `regex_groups`, which depends on
/// the expression and the line alone.
#[verifier::external_body]
pub(crate) fn captures(re: &Regex, line: &str) -> (groups: Option<Vec<Option<String>>>)
    ensures
        groups.deep_view() == regex_groups(*re, line@),
{
    match re.captures(line) {
        None => None,
        Some(found) => Some(
            found.iter().map(|group| group.map(|m| m.as_str().to_string())).collect(),
        ),
    }
}

/// The pattern could not be compiled.
#[derive(Clone, Copy, Debug, PartialEq, Eq, Structural)]
pub struct PatternError;

/// Compiles `LINE_PATTERN`. This is done once; the expression is then used
/// for every line. It succeeds exactly where the engine accepts the pattern.
pub fn line_pattern() -> (res: Result<Regex, PatternError>)
    ensures
        res is Ok <==> regex_accepts(LINE_PATTERN@, usize::BITS as nat),
        res matches Ok(re) ==> regex_source(re) == LINE_PATTERN@,
{
    compiled_pattern(Regex::new(LINE_PATTERN))
}

/// What the compiler's answer comes to: the expression that it made, as it
/// is, or `PatternError` where it made none.
pub fn compiled_pattern(answer: Result<Regex, regex::Error>) -> (res: Result<Regex, PatternError>)
    ensures
        res == match answer {
            Ok(re) => Ok::<Regex, PatternError>(re),
            Err(_) => Err::<Regex, PatternError>(PatternError),
        },
{
    match answer {
        Ok(re) => Ok(re),
        Err(_) => Err(PatternError),
    }
}

} // verus!
