//! Shell-style patterns for tool names.

use vstd::prelude::*;

verus! {

/// `glob::Pattern`, a compiled shell-style pattern.
#[verifier::external_type_specification]
#[verifier::external_body]
pub struct ExGlobPattern(glob::Pattern);

/// What `glob::Pattern::new` makes of a text: the compiled pattern, or the text
/// of the syntax error.
pub uninterp spec fn glob_new(text: Seq<char>) -> Result<glob::Pattern, Seq<char>>;

/// What `glob::Pattern::matches` says of a pattern and a name.
pub uninterp spec fn glob_matches(pattern: glob::Pattern, name: Seq<char>) -> bool;

/// `glob::Pattern::new`, with its error turned into the text that its `Display`
/// writes. The outcome depends on the pattern text alone.
#[verifier::external_body]
pub(crate) fn compile_glob(text: &str) -> (r: Result<glob::Pattern, String>)
    ensures
        r is Ok <==> glob_new(text@) is Ok,
        r is Ok ==> r->Ok_0 == glob_new(text@)->Ok_0,
        r is Err ==> r->Err_0@ == glob_new(text@)->Err_0,
{
    glob::Pattern::new(text).map_err(|e| e.to_string())
}

/// `glob::Pattern::matches`: the answer depends on the pattern and the name alone.
#[verifier::external_body]
pub(crate) fn pattern_matches(pattern: &glob::Pattern, name: &str) -> (r: bool)
    ensures
        r == glob_matches(*pattern, name@),
{
    pattern.matches(name)
}

/// `glob::Pattern`'s `Clone::clone` copies every field of the pattern.
#[verifier::external_body]
pub(crate) fn clone_pattern(pattern: &glob::Pattern) -> (r: glob::Pattern)
    ensures
        r == *pattern,
{
    pattern.clone()
}

} // verus!
