//! The naming rules the forms check names against, as regular expressions.

use vstd::prelude::*;
use vstd::string::*;

verus! {

#[verifier::external_type_specification]
#[verifier::external_body]
pub struct ExRegex(regex::Regex);

#[verifier::external_type_specification]
#[verifier::external_body]
pub struct ExRegexError(regex::Error);

/// Whether the regex crate accepts `pattern` (with its default limits).
pub uninterp spec fn regex_compiles(pattern: Seq<char>) -> bool;

/// Whether the regular expression `pattern`, as the regex crate reads it,
/// matches somewhere in `haystack`.
pub uninterp spec fn regex_finds(pattern: Seq<char>, haystack: Seq<char>) -> bool;

/// Compiles `pattern` with `regex::Regex::new`. The contract claims only that
/// it succeeds exactly for the patterns the regex crate accepts, which depends
/// on the pattern alone; nothing is stated of the compiled value.
#[verifier::external_body]
fn compile_regex(pattern: &str) -> (r: Result<regex::Regex, regex::Error>)
    ensures
        r is Ok == regex_compiles(pattern@),
{
    regex::Regex::new(pattern)
}

/// A naming rule: a regular expression kept with the text it was compiled
/// from.
pub struct TextPattern {
    source: String,
    re: regex::Regex,
}

/// The regex crate refused a pattern.
#[derive(Clone, Copy, Debug, PartialEq, Eq, Structural)]
pub struct PatternError;

impl View for TextPattern {
    type V = Seq<char>;

    /// The text the rule was compiled from.
    closed spec fn view(&self) -> Seq<char> {
        self.source@
    }
}

/// Tests the rule with `regex::Regex::is_match` on `haystack`. The rule's
/// expression was compiled from its text by `TextPattern::new`, the only way
/// to make one, so the result is named by that text and the haystack; nothing
/// more of the regex crate's matching is stated.
#[verifier::external_body]
fn regex_is_match(p: &TextPattern, haystack: &str) -> (r: bool)
    ensures
        r == regex_finds(p@, haystack@),
{
    p.re.is_match(haystack)
}

impl TextPattern {
    /// Compiles the rule `pattern`; fails exactly when the regex crate refuses it.
    pub fn new(pattern: &str) -> (r: Result<TextPattern, PatternError>)
        ensures
            r is Ok == regex_compiles(pattern@),
            r matches Ok(p) ==> p@ == pattern@,
    {
        match compile_regex(pattern) {
            Ok(re) => Ok(TextPattern { source: String::from_str(pattern), re }),
            Err(_) => Err(PatternError),
        }
    }

    /// The text the rule was compiled from.
    pub fn source(&self) -> (r: &str)
        ensures
            r@ == self@,
    {
        self.source.as_str()
    }

    /// Whether the rule matches somewhere in `text`.
    pub fn is_match(&self, text: &str) -> (r: bool)
        ensures
            r == regex_finds(self@, text@),
    {
        regex_is_match(self, text)
    }
}

/// Whether a name typed in a creation or renaming form can be sent: at least
/// two bytes long and matched by the naming rule.
pub fn name_acceptable(rule: &TextPattern, name: &str) -> (r: bool)
    ensures
        r == (name.len() >= 2 && regex_finds(rule@, name@)),
{
    name.len() >= 2 && rule.is_match(name)
}

/// Whether a quota typed in the quota form can be sent: not empty and matched
/// by the quota rule.
pub fn quota_text_acceptable(rule: &TextPattern, text: &str) -> (r: bool)
    ensures
        r == (text@.len() > 0 && regex_finds(rule@, text@)),
{
    !text.is_empty() && rule.is_match(text)
}

} // verus!
