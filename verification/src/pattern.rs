//! File-name filters backed by the `regex` crate.
//!
//! The library holds only the pattern text; whether a pattern compiles and
//! whether a text matches it are computed by the `regex` crate and named by
//! [`regex_valid`] and [`regex_match`].  A [`FileRegex`] is a pattern that
//! is known to compile, so matching with it cannot fail.

use vstd::prelude::*;

verus! {

/// Whether `regex::Regex::new` accepts the pattern.
pub uninterp spec fn regex_valid(pattern: Seq<char>) -> bool;

/// Whether a regex compiled from `pattern` matches somewhere in `text`.
pub uninterp spec fn regex_match(pattern: Seq<char>, text: Seq<char>) -> bool;

/// Relies on `regex::Regex::new`: whether a pattern compiles is a function
/// of the pattern alone.  The error's rendering is passed along as text.
#[verifier::external_body]
fn regex_new_check(pattern: &str) -> (r: Result<(), String>)
    ensures
        r is Ok <==> regex_valid(pattern@),
{
    match regex::Regex::new(pattern) {
        Ok(_) => Ok(()),
        Err(e) => Err(format!("{}", e)),
    }
}

/// Relies on `regex::Regex::new` and `regex::Regex::is_match`: for a fixed
/// pattern, whether a text matches is a function of pattern and text alone.
/// The pattern is known to compile, so `new` cannot fail here.
#[verifier::external_body]
fn regex_is_match(pattern: &str, text: &str) -> (r: bool)
    requires
        regex_valid(pattern@),
    ensures
        r == regex_match(pattern@, text@),
{
    regex::Regex::new(pattern).unwrap().is_match(text)
}

/// A file-name filter: a regex pattern that is known to compile.
pub struct FileRegex {
    pattern: String,
}

impl FileRegex {
    /// The pattern this filter was built from.
    pub closed spec fn spec_pattern(&self) -> Seq<char> {
        self.pattern@
    }

    #[verifier::type_invariant]
    spec fn compiles(&self) -> bool {
        regex_valid(self.pattern@)
    }

    /// Builds a filter from a pattern, or hands back the regex error's
    /// rendering when the pattern does not compile.
    pub fn new(pattern: &str) -> (r: Result<FileRegex, String>)
        ensures
            match r {
                Ok(fr) => regex_valid(pattern@) && fr.spec_pattern() == pattern@,
                Err(_) => !regex_valid(pattern@),
            },
    {
        match regex_new_check(pattern) {
            Ok(_) => Ok(FileRegex { pattern: pattern.to_owned() }),
            Err(e) => Err(e),
        }
    }

    /// Whether this filter matches somewhere in `text`.
    pub fn is_match(&self, text: &str) -> (r: bool)
        ensures
            r == regex_match(self.spec_pattern(), text@),
    {
        proof {
            use_type_invariant(self);
        }
        regex_is_match(self.pattern.as_str(), text)
    }
}

} // verus!
