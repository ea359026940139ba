//! Program id extraction for program-aware policies.

use vstd::prelude::*;

verus! {

/// The program identifier of a request, given the hint that the request carries.
///
/// Today the hint is passed through. The indirection gives later rewrites (a
/// namespace prefix per tenant, say) a single place to land.
///
/// Returns `None` for requests whose protocol does not carry a program id.
pub fn extract(program_id_hint: Option<&str>) -> (program_id: Option<&str>)
    ensures
        program_id == program_id_hint,
{
    program_id_hint
}

} // verus!
