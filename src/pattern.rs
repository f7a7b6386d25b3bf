//! Regular-expression patterns as scripts write them.
use vstd::prelude::*;

verus! {

/// Prepares a pattern written in a script for the regular-expression
/// engine. A backslash escape (`\d`, `\w`, `\.`, `\\`, ...) is kept as
/// written, and so is a trailing backslash, so the text comes out unchanged.
pub fn process_pattern(pattern: &str) -> (r: String)
    ensures
        r@ == pattern@,
{
    String::from_str(pattern)
}

} // verus!
