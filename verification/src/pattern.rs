//! Support for regular-expression argument descriptors.
//!
//! The engine itself never evaluates a pattern; a compiled pattern is an
//! opaque value carried inside an argument descriptor. Compilation is the
//! one operation taken from the `regex` crate.

use vstd::prelude::*;

verus! {

#[verifier::external_type_specification]
#[verifier::external_body]
pub struct ExRegex(regex::Regex);

/// Whether `regex::Regex::new` accepts the pattern text. Compilation is
/// deterministic in the pattern, so this is a function of the text alone.
pub uninterp spec fn regex_ok(pattern: Seq<char>) -> bool;

/// Relies on regex::Regex::new: compiles a pattern, succeeding exactly on
/// the pattern texts the crate accepts.
#[verifier::external_body]
pub(crate) fn compile_pattern(pattern: &str) -> (r: Option<regex::Regex>)
    ensures
        r is Some <==> regex_ok(pattern@),
{
    regex::Regex::new(pattern).ok()
}

} // verus!
