//! Compiled regular expressions that text fields are searched with.

use vstd::prelude::*;

verus! {

#[verifier::external_type_specification]
#[verifier::external_body]
pub struct ExRegex(regex::Regex);

#[verifier::external_type_specification]
#[verifier::external_body]
pub struct ExRegexError(regex::Error);

/// Whether `pattern` compiles with default options: valid syntax, within the
/// default size limit.
pub uninterp spec fn regex_compiles(pattern: Seq<char>) -> bool;

/// Relies on regex::Regex::new: compiles a pattern, or fails on an invalid
/// or oversized one; which of the two depends on the pattern text alone.
pub assume_specification[ regex::Regex::new ](re: &str) -> (r: Result<regex::Regex, regex::Error>)
    ensures
        r is Ok == regex_compiles(re@),
;

/// Whether the regular expression `pattern`, compiled with default options,
/// matches anywhere within `text`.
pub uninterp spec fn regex_finds(pattern: Seq<char>, text: Seq<char>) -> bool;

/// Why a pattern could not be compiled.
#[derive(Debug, Clone, Copy, PartialEq, Eq, Structural)]
pub enum PatternError {
    /// The pattern is not valid syntax, or compiles beyond the size limit.
    Invalid,
}

/// A regular expression together with the text it was compiled from.
///
/// The only way to build one is `ValuePattern::new`, so `regex` is always
/// the default compilation of `source`.
#[derive(Debug)]
pub struct ValuePattern {
    source: String,
    regex: regex::Regex,
}

/// Relies on regex::Regex::is_match: true when the pattern matches anywhere
/// in `text`. The regex of a `ValuePattern` is always `Regex::new(source)`.
#[verifier::external_body]
fn search(p: &ValuePattern, text: &str) -> (r: bool)
    ensures
        r == regex_finds(p.source@, text@),
{
    p.regex.is_match(text)
}

impl ValuePattern {
    /// The text the pattern was compiled from.
    pub closed spec fn pattern(&self) -> Seq<char> {
        self.source@
    }

    /// Compiles `source`.
    pub fn new(source: &str) -> (r: Result<ValuePattern, PatternError>)
        ensures
            r is Ok == regex_compiles(source@),
            r matches Ok(p) ==> p.pattern() == source@,
            r matches Err(e) ==> e == PatternError::Invalid,
    {
        match regex::Regex::new(source) {
            Ok(regex) => Ok(ValuePattern { source: source.to_owned(), regex }),
            Err(_) => Err(PatternError::Invalid),
        }
    }

    /// The text the pattern was compiled from.
    pub fn as_str(&self) -> (r: &str)
        ensures
            r@ == self.pattern(),
    {
        self.source.as_str()
    }

    /// Whether the pattern matches anywhere within `text`.
    pub fn is_match(&self, text: &str) -> (r: bool)
        ensures
            r == regex_finds(self.pattern(), text@),
    {
        search(self, text)
    }
}

} // verus!
