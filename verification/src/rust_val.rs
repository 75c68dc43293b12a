//! The benchmarked repair with the final serde_json check.
use vstd::prelude::*;
use crate::bench::{bench_outcome, bench_repair};
use crate::validate::serde_json_accepts;
use crate::result_view;

verus! {

/// Repairs `input` in one streaming pass and returns the result only if
/// serde_json accepts it; valid JSON comes back unchanged.
pub fn repair_json(input: &[u8]) -> (r: Result<Vec<u8>, String>)
    ensures
        result_view(r) == bench_outcome(input@, true),
        r matches Ok(out) ==> serde_json_accepts(out@),
{
    bench_repair(input, true)
}

} // verus!
