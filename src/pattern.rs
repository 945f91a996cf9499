//! Ignore patterns: regular expressions searched for in a base filename.
use vstd::prelude::*;
use vstd::string::StringExecFns;

use regex::Regex;

verus! {

#[verifier::external_type_specification]
#[verifier::external_body]
pub struct ExRegex(regex::Regex);

#[verifier::external_type_specification]
#[verifier::external_body]
pub struct ExRegexError(regex::Error);

/// Whether `regex::Regex::new` accepts `pattern`: it is valid syntax and
/// compiles within the default size limit.
pub uninterp spec fn regex_compiles(pattern: Seq<char>) -> bool;

/// Whether the regular expression `pattern` matches anywhere in `text`.
pub uninterp spec fn regex_finds(pattern: Seq<char>, text: Seq<char>) -> bool;

/// Relies on `regex::Regex::new`: it fails exactly on the patterns that it
/// does not accept, which depends on the pattern alone.
#[verifier::external_body]
fn compile(pattern: &str) -> (r: Result<Regex, regex::Error>)
    ensures
        r is Ok <==> regex_compiles(pattern@),
{
    Regex::new(pattern)
}

/// Relies on `regex::Regex::is_match`: true iff the regex matches somewhere in
/// `text`. `p.regex` was compiled from `p.source` (`IgnorePattern::new` is the
/// only way to build an `IgnorePattern`).
#[verifier::external_body]
fn search(p: &IgnorePattern, text: &str) -> (r: bool)
    ensures
        r == regex_finds(p.source(), text@),
{
    p.regex.is_match(text)
}

/// A pattern in the configuration that is not a valid regular expression.
#[derive(Debug, PartialEq, Eq)]
pub enum ConfigError {
    InvalidPattern(String),
}

/// A regular expression with the text it was compiled from.
#[derive(Debug)]
pub struct IgnorePattern {
    source: String,
    regex: Regex,
}

impl IgnorePattern {
    /// The text the pattern was compiled from.
    pub closed spec fn source(&self) -> Seq<char> {
        self.source@
    }

    /// Compiles `pattern`; an error that holds the pattern where it is not
    /// accepted.
    pub fn new(pattern: &str) -> (r: Result<IgnorePattern, ConfigError>)
        ensures
            r is Ok <==> regex_compiles(pattern@),
            r is Ok ==> r->Ok_0.source() == pattern@,
            r matches Err(ConfigError::InvalidPattern(p)) ==> p@ == pattern@,
    {
        match compile(pattern) {
            Ok(regex) => Ok(IgnorePattern { source: String::from_str(pattern), regex }),
            Err(_) => Err(ConfigError::InvalidPattern(String::from_str(pattern))),
        }
    }

    /// Whether the pattern matches anywhere in `text`.
    pub fn is_match(&self, text: &str) -> (r: bool)
        ensures
            r == regex_finds(self.source(), text@),
    {
        search(self, text)
    }

    /// The text the pattern was compiled from.
    pub fn as_str(&self) -> (r: &str)
        ensures
            r@ == self.source(),
    {
        self.source.as_str()
    }
}

} // verus!
