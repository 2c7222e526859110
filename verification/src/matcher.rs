//! Filename matching through compiled regular expressions.  Pattern
//! compilation and matching are done by the `regex` crate; their results are
//! named, and every use of a match result goes through those names.

use vstd::prelude::*;

use crate::RotateError;

verus! {

#[verifier::external_type_specification]
#[verifier::external_body]
pub struct ExRegex(::regex::Regex);

#[verifier::external_type_specification]
#[verifier::external_body]
pub struct ExRegexError(::regex::Error);

/// Relies on the `Clone` impl of regex::Regex: cloning a compiled pattern.
pub assume_specification[ <::regex::Regex as Clone>::clone ](re: &::regex::Regex) -> ::regex::Regex;

/// Whether `pattern` is an expression that `regex::Regex::new` accepts;
/// compilation is a function of the pattern alone.
pub uninterp spec fn regex_valid(pattern: Seq<char>) -> bool;

/// Whether `pattern` matches `text` anywhere; matching is a function of the
/// pattern and the text alone.
pub uninterp spec fn regex_match(pattern: Seq<char>, text: Seq<char>) -> bool;

/// A compiled pattern together with its source text.  The view of a `Matcher`
/// is the pattern it was compiled from.
#[derive(Clone, Debug)]
pub struct Matcher {
    pattern: String,
    inner: ::regex::Regex,
}

impl View for Matcher {
    type V = Seq<char>;

    closed spec fn view(&self) -> Seq<char> {
        self.pattern@
    }
}

/// Relies on regex::Regex::new: compilation succeeds exactly when the
/// pattern is valid, and the compiled value matches as the pattern reads.
#[verifier::external_body]
fn compile(pattern: &str) -> (r: Result<Matcher, ::regex::Error>)
    ensures
        r is Ok <==> regex_valid(pattern@),
        r matches Ok(re) ==> re@ == pattern@,
{
    match ::regex::Regex::new(pattern) {
        Ok(inner) => Ok(Matcher { pattern: pattern.to_string(), inner }),
        Err(e) => Err(e),
    }
}

impl Matcher {
    /// Compiles `pattern`, rejecting invalid expressions.
    pub fn new(pattern: &str) -> (r: Result<Matcher, RotateError>)
        ensures
            r is Ok <==> regex_valid(pattern@),
            r matches Ok(re) ==> re@ == pattern@,
            r matches Err(e) ==> e == RotateError::InvalidConfiguration,
    {
        match compile(pattern) {
            Ok(re) => Ok(re),
            Err(_) => Err(RotateError::InvalidConfiguration),
        }
    }

    /// Relies on regex::Regex::is_match: the result is a function of the
    /// pattern and the text alone.
    #[verifier::external_body]
    pub fn is_match(&self, text: &str) -> (r: bool)
        ensures
            r == regex_match(self@, text@),
    {
        self.inner.is_match(text)
    }
}

} // verus!
