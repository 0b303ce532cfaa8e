use vstd::prelude::*;

verus! {

/// What the glob crate answers for a pattern text and a path: the result
/// of compiling `pattern` with `glob::Pattern::new` and asking whether the
/// compiled pattern matches `path`; `false` where the pattern text is not
/// a valid glob. Compilation and matching read nothing but their
/// arguments, so this is a function of the two strings alone.
pub uninterp spec fn glob_match(pattern: Seq<char>, path: Seq<char>) -> bool;

/// Relies on glob::Pattern::new and glob::Pattern::matches: both are
/// deterministic in the pattern text and the path, and a pattern that does
/// not compile matches nothing.
#[verifier::external_body]
fn glob_matches(pattern: &str, path: &str) -> (r: bool)
    ensures
        r == glob_match(pattern@, path@),
{
    match glob::Pattern::new(pattern) {
        Ok(p) => p.matches(path),
        Err(_) => false,
    }
}

/// Whether any of the ignore patterns matches the path. With no pattern,
/// nothing is ignored.
pub open spec fn spec_is_ignored(patterns: Seq<Seq<char>>, path: Seq<char>) -> bool {
    exists|i: int| 0 <= i < patterns.len() && glob_match(patterns[i], path)
}

/// The Ignore Matcher: whether any of the glob patterns matches the path
/// as presented.
pub fn is_ignored(patterns: &Vec<String>, path: &str) -> (r: bool)
    ensures
        r == spec_is_ignored(patterns.deep_view(), path@),
{
    let ghost pats = patterns.deep_view();
    let mut i: usize = 0;
    while i < patterns.len()
        invariant
            i <= patterns.len(),
            pats == patterns.deep_view(),
            pats.len() == patterns.len(),
            forall|j: int| 0 <= j < i ==> !glob_match(#[trigger] pats[j], path@),
        decreases patterns.len() - i,
    {
        proof {
            assert(pats[i as int] == patterns[i as int]@);
        }
        if glob_matches(patterns[i].as_str(), path) {
            return true;
        }
        i = i + 1;
    }
    false
}

} // verus!
