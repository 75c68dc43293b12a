//! The repair as the benchmark harness runs it: the same streaming pass,
//! checking that every container was closed, with the shorter messages.
use vstd::prelude::*;
use crate::scan::{scan, repaired, repair_pass};
use crate::lex::{lex, no_bare_single_quote, lemma_repaired_is_well_nested};
use crate::message::{
    unclosed_count_message, invalid_short_message, unclosed_count_error, invalid_short_error,
};
use crate::validate::{serde_json_accepts, is_valid_json};
use crate::result_view;
use crate::commas::{no_comma_runs, no_trailing_comma, lemma_trailing_commas_removed};

verus! {

/// What the benchmark repair returns for `input`, with or without the final
/// serde_json check.
pub open spec fn bench_outcome(input: Seq<u8>, validate: bool) -> Result<Seq<u8>, Seq<char>> {
    if serde_json_accepts(input) {
        Ok(input)
    } else {
        let s = scan(input);
        if s.stack.len() > 0 {
            Err(unclosed_count_message(s.stack.len()))
        } else {
            let out = repaired(input);
            if validate && !serde_json_accepts(out) {
                Err(invalid_short_message())
            } else {
                Ok(out)
            }
        }
    }
}

/// Law: for input that is not JSON already, a text the benchmark repair
/// returns has all its brackets closed in order, no single-quoted string,
/// no comma before a closer or the end (unless the input ran commas
/// together), and is accepted by serde_json when `validate` asks for it; and
/// whenever the pass closes every container (and, with `validate`, serde_json
/// accepts what it wrote) the repair succeeds.
pub proof fn lemma_bench_outcome(input: Seq<u8>, validate: bool)
    ensures
        bench_outcome(input, validate) matches Ok(out) ==> (!serde_json_accepts(input) ==> {
            &&& lex(out).ok
            &&& lex(out).stack.len() == 0
            &&& no_bare_single_quote(out)
            &&& (no_comma_runs(input) ==> no_trailing_comma(out))
            &&& (validate ==> serde_json_accepts(out))
        }),
        bench_outcome(input, validate) matches Ok(out) ==> (serde_json_accepts(input) ==> out
            == input),
        (lex(repaired(input)).stack.len() == 0 && (validate ==> serde_json_accepts(
            repaired(input),
        ))) ==> bench_outcome(input, validate) is Ok,
{
    lemma_repaired_is_well_nested(input);
    if no_comma_runs(input) {
        lemma_trailing_commas_removed(input);
    }
}

/// Runs the benchmark repair: valid JSON comes back as it is; otherwise the
/// streaming pass, then the check that all containers were closed, then, with
/// `validate`, the serde_json check.
pub fn bench_repair(input: &[u8], validate: bool) -> (r: Result<Vec<u8>, String>)
    ensures
        result_view(r) == bench_outcome(input@, validate),
        r matches Ok(out) ==> serde_json_accepts(input@) || (lex(out@).ok && lex(out@).stack.len()
            == 0 && no_bare_single_quote(out@)),
        r matches Ok(out) ==> (!serde_json_accepts(input@) && no_comma_runs(input@)
            ==> no_trailing_comma(out@)),
{
    proof {
        lemma_bench_outcome(input@, validate);
    }
    if is_valid_json(input) {
        return Ok(vstd::slice::slice_to_vec(input));
    }
    let pass = repair_pass(input);
    if pass.open_containers > 0 {
        return Err(unclosed_count_error(pass.open_containers));
    }
    proof {
        lemma_repaired_is_well_nested(input@);
    }
    if validate && !is_valid_json(pass.output.as_slice()) {
        return Err(invalid_short_error());
    }
    Ok(pass.output)
}

} // verus!
