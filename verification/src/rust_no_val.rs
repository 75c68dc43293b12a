//! The benchmarked repair without the final serde_json check.
use vstd::prelude::*;
use crate::bench::{bench_outcome, bench_repair};
use crate::lex::{lex, no_bare_single_quote};
use crate::validate::serde_json_accepts;
use crate::result_view;

verus! {

/// Repairs `input` in one streaming pass, relying on the pass's own check
/// that every container was closed; valid JSON comes back unchanged.
pub fn repair_json(input: &[u8]) -> (r: Result<Vec<u8>, String>)
    ensures
        result_view(r) == bench_outcome(input@, false),
        r matches Ok(out) ==> serde_json_accepts(input@) || (lex(out@).ok && lex(out@).stack.len()
            == 0 && no_bare_single_quote(out@)),
{
    bench_repair(input, false)
}

} // verus!
