//! An expression that leaves records out: a pattern, compiled once, that
//! is asked of the path or the file name of each record.
use vstd::prelude::*;

verus! {

/// `regex::Regex`: a compiled regular expression.
#[verifier::external_type_specification]
#[verifier::external_body]
pub struct ExRegex(regex::Regex);

/// An expression that leaves out the texts that its pattern matches. One is
/// made only by compiling its pattern, so what it matches is a matter of
/// the pattern alone.
#[derive(Debug)]
pub struct Exclusion {
    pattern: String,
    expression: regex::Regex,
}

impl View for Exclusion {
    type V = Seq<char>;

    /// The pattern that the expression was compiled from.
    closed spec fn view(&self) -> Seq<char> {
        self.pattern@
    }
}

/// True when `pattern` is a regular expression that compiles.
pub uninterp spec fn pattern_compiles(pattern: Seq<char>) -> bool;

/// True when the expression compiled from `pattern` matches anywhere in
/// `text`.
pub uninterp spec fn pattern_matches(pattern: Seq<char>, text: Seq<char>) -> bool;

/// `regex::Regex::new`: the pattern compiled, kept beside its text; or
/// nothing where the pattern is not valid or its program would be too
/// large.
#[verifier::external_body]
fn compile(pattern: &str) -> (compiled: Option<Exclusion>)
    ensures
        compiled is Some <==> pattern_compiles(pattern@),
        compiled is Some ==> compiled->Some_0@ == pattern@,
{
    match regex::Regex::new(pattern) {
        Ok(expression) => Some(Exclusion { pattern: pattern.to_string(), expression }),
        Err(_) => None,
    }
}

/// `regex::Regex::is_match`: whether the expression matches anywhere in
/// `text`.
#[verifier::external_body]
fn matches(exclusion: &Exclusion, text: &str) -> (found: bool)
    ensures
        found == pattern_matches(exclusion@, text@),
{
    exclusion.expression.is_match(text)
}

impl Exclusion {
    /// The expression of the pattern `pattern`, where it compiles.
    pub fn new(pattern: &str) -> (compiled: Option<Exclusion>)
        ensures
            compiled is Some <==> pattern_compiles(pattern@),
            compiled is Some ==> compiled->Some_0@ == pattern@,
    {
        compile(pattern)
    }

    /// The pattern that the expression was compiled from.
    pub fn as_str(&self) -> (pattern: &str)
        ensures
            pattern@ == self@,
    {
        self.pattern.as_str()
    }

    /// True when the expression matches anywhere in `text`.
    pub fn is_match(&self, text: &str) -> (found: bool)
        ensures
            found == pattern_matches(self@, text@),
    {
        matches(self, text)
    }
}

} // verus!
