//! The symbol namer: derives, from a declared function name, the two link
//! identifiers a trampoline is built around.
//!
//! The internal name is the identifier under which the trampoline declares
//! its foreign entry point; the external name is the link name that entry
//! point is imported under, and the name the rewriter later truncates back
//! to the original.

use vstd::prelude::*;
use vstd::string::*;

verus! {

/// The internal trampoline identifier derived from a base name.
pub open spec fn spec_internal_name(name: Seq<char>) -> Seq<char> {
    name + "_internal"@
}

/// The external link name derived from a base name.
pub open spec fn spec_external_name(name: Seq<char>) -> Seq<char> {
    name + "_external"@
}

/// Derives the identifier for the trampoline's own foreign declaration.
pub fn internal_name(name: &str) -> (r: String)
    ensures
        r@ == spec_internal_name(name@),
{
    let mut s = name.to_owned();
    s.append("_internal");
    s
}

/// Derives the link name under which the real implementation is imported.
pub fn external_name(name: &str) -> (r: String)
    ensures
        r@ == spec_external_name(name@),
{
    let mut s = name.to_owned();
    s.append("_external");
    s
}

/// Law: naming is deterministic. The derived names are a pure function of the
/// base name — equal base names always give equal derived names — and the
/// external link name is always exactly the base name followed by `_external`.
pub proof fn lemma_naming_deterministic(name1: Seq<char>, name2: Seq<char>)
    requires
        name1 == name2,
    ensures
        spec_external_name(name1) == spec_external_name(name2),
        spec_internal_name(name1) == spec_internal_name(name2),
        spec_external_name(name1) == name1 + "_external"@,
        spec_internal_name(name1) == name1 + "_internal"@,
{
}

} // verus!
