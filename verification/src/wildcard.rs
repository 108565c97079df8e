//! Shell-style wildcard patterns, matched by the `glob` crate.

use vstd::prelude::*;

verus! {

#[verifier::external_type_specification]
#[verifier::external_body]
pub struct ExGlobPattern(glob::Pattern);

/// Whether `glob::Pattern::new` accepts `pattern`. Named, not spelled out.
pub uninterp spec fn glob_accepts(pattern: Seq<char>) -> bool;

/// Whether the compiled `pattern` matches `name` (`glob::Pattern::matches`, default options).
/// Named, not spelled out.
pub uninterp spec fn glob_matches(pattern: Seq<char>, name: Seq<char>) -> bool;

/// A compiled wildcard pattern together with the text it was compiled from.
pub struct Wildcard {
    pattern: glob::Pattern,
    source: String,
}

impl Wildcard {
    /// The text the pattern was compiled from.
    pub closed spec fn source(&self) -> Seq<char> {
        self.source@
    }

    /// `glob::Pattern::matches(name)`. A `Wildcard` is only made by `compile_wildcard`, so
    /// its pattern is the one compiled from `source`.
    #[verifier::external_body]
    pub(crate) fn matches(&self, name: &str) -> (r: bool)
        ensures
            r == glob_matches(self.source(), name@),
    {
        self.pattern.matches(name)
    }
}

/// `glob::Pattern::new(pattern)`: `Some` exactly when the crate accepts the pattern.
#[verifier::external_body]
pub(crate) fn compile_wildcard(pattern: &str) -> (r: Option<Wildcard>)
    ensures
        r is Some <==> glob_accepts(pattern@),
        r matches Some(w) ==> w.source() == pattern@,
{
    match glob::Pattern::new(pattern) {
        Ok(p) => Some(Wildcard { pattern: p, source: pattern.to_string() }),
        Err(_) => None,
    }
}

} // verus!
