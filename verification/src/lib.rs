//! Repairs almost-JSON text: trailing commas, single-quoted strings and
//! stray closing brackets, in one streaming pass.
pub mod alphabet;
pub mod scan;
pub mod lex;
pub mod commas;
pub mod clean;
pub mod message;
pub mod validate;
pub mod bench;
pub mod rust_val;
pub mod rust_no_val;
pub mod text;
pub mod bench_data;

use vstd::prelude::*;
use crate::scan::{scan, repaired, repair_pass};
use crate::lex::{balanced, no_bare_single_quote, lemma_repaired_balanced, lemma_repaired_is_well_nested};
use crate::message::{
    unclosed_message, unterminated_message, invalid_message, unclosed_error, unterminated_error,
    invalid_error,
};
use crate::validate::{serde_json_accepts, is_valid_json};
use crate::commas::{no_comma_runs, no_trailing_comma, lemma_trailing_commas_removed};
use crate::clean::{clean, lemma_clean_unchanged, lemma_repair_twice};

verus! {

/// A byte result seen as plain values.
pub open spec fn result_view(r: Result<Vec<u8>, String>) -> Result<Seq<u8>, Seq<char>> {
    match r {
        Ok(v) => Ok(v@),
        Err(e) => Err(e@),
    }
}

/// The repair pass followed by its structural checks: every array and object
/// must have been closed, and no string may be left open.
pub open spec fn structural_repair(input: Seq<u8>) -> Result<Seq<u8>, Seq<char>> {
    let s = scan(input);
    if s.stack.len() > 0 {
        Err(unclosed_message(s.stack.len()))
    } else if s.quote is Some {
        Err(unterminated_message())
    } else {
        Ok(repaired(input))
    }
}

/// What the repair returns for `input`: valid JSON as it stands, else the
/// structural repair, which with `validate` serde_json must accept too.
pub open spec fn repair_outcome(input: Seq<u8>, validate: bool) -> Result<Seq<u8>, Seq<char>> {
    if serde_json_accepts(input) {
        Ok(input)
    } else {
        match structural_repair(input) {
            Ok(out) => if validate && !serde_json_accepts(out) {
                Err(invalid_message())
            } else {
                Ok(out)
            },
            Err(e) => Err(e),
        }
    }
}

/// Law: for input that is not JSON already, a text the repair returns is
/// balanced, has no single-quoted string, has no comma before a closer or
/// the end (unless the input ran commas together), and is accepted by
/// serde_json when `validate` asks for it; and whenever the pass closes every
/// container and string (and, with `validate`, serde_json accepts what it
/// wrote) the repair succeeds.
pub proof fn lemma_repair_outcome(input: Seq<u8>, validate: bool)
    ensures
        repair_outcome(input, validate) matches Ok(out) ==> (!serde_json_accepts(input) ==> {
            &&& balanced(out)
            &&& no_bare_single_quote(out)
            &&& (no_comma_runs(input) ==> no_trailing_comma(out))
            &&& (validate ==> serde_json_accepts(out))
        }),
        repair_outcome(input, validate) matches Ok(out) ==> (serde_json_accepts(input) ==> out
            == input),
        (balanced(repaired(input)) && (validate ==> serde_json_accepts(repaired(input))))
            ==> repair_outcome(input, validate) is Ok,
{
    lemma_repaired_is_well_nested(input);
    if no_comma_runs(input) {
        lemma_trailing_commas_removed(input);
    }
}

/// Runs the repair pass and its structural checks on `input`, whatever
/// serde_json would say of it.
pub fn repair_structure(input: &[u8]) -> (r: Result<Vec<u8>, String>)
    ensures
        result_view(r) == structural_repair(input@),
        r matches Ok(out) ==> balanced(out@) && no_bare_single_quote(out@),
        r matches Ok(out) ==> (no_comma_runs(input@) ==> no_trailing_comma(out@)),
        clean(input@) ==> result_view(r) == Ok::<Seq<u8>, Seq<char>>(input@),
{
    proof {
        if clean(input@) {
            lemma_clean_unchanged(input@);
        }
        if no_comma_runs(input@) {
            lemma_trailing_commas_removed(input@);
        }
    }
    let pass = repair_pass(input);
    if pass.open_containers > 0 {
        return Err(unclosed_error(pass.open_containers));
    }
    if pass.in_string {
        return Err(unterminated_error());
    }
    proof {
        lemma_repaired_balanced(input@);
    }
    Ok(pass.output)
}

fn repair_json_impl(input: &[u8], validate: bool) -> (r: Result<Vec<u8>, String>)
    ensures
        result_view(r) == repair_outcome(input@, validate),
{
    if is_valid_json(input) {
        return Ok(vstd::slice::slice_to_vec(input));
    }
    let repaired = repair_structure(input);
    match repaired {
        Ok(output) => {
            if validate && !is_valid_json(output.as_slice()) {
                Err(invalid_error())
            } else {
                Ok(output)
            }
        },
        Err(e) => Err(e),
    }
}

/// Repairs broken JSON by removing trailing commas in arrays and objects
/// and converting single quotes to double quotes, in one streaming pass
/// over the bytes that also checks bracket matching and string termination.
/// Input that is valid JSON already comes back unchanged; a repaired text is
/// returned only if serde_json accepts it.
pub fn repair_json(input: &[u8]) -> (r: Result<Vec<u8>, String>)
    ensures
        result_view(r) == repair_outcome(input@, true),
        serde_json_accepts(input@) ==> result_view(r) == Ok::<Seq<u8>, Seq<char>>(input@),
        r matches Ok(out) ==> serde_json_accepts(out@),
        r matches Ok(out) ==> (!serde_json_accepts(input@) && no_comma_runs(input@)
            ==> no_trailing_comma(out@)),
{
    proof {
        lemma_repair_outcome(input@, true);
    }
    repair_json_impl(input, true)
}

/// The same repair as `repair_json` without the final serde_json check: the
/// streaming pass's own checks decide. Input that is valid JSON comes back
/// unchanged; a repaired text is balanced and has no single-quoted strings.
pub fn repair_json_aws_smithy(input: &[u8]) -> (r: Result<Vec<u8>, String>)
    ensures
        result_view(r) == repair_outcome(input@, false),
        serde_json_accepts(input@) ==> result_view(r) == Ok::<Seq<u8>, Seq<char>>(input@),
        r matches Ok(out) ==> serde_json_accepts(input@) || (balanced(out@) && no_bare_single_quote(
            out@,
        )),
        r matches Ok(out) ==> (!serde_json_accepts(input@) && no_comma_runs(input@)
            ==> no_trailing_comma(out@)),
{
    proof {
        lemma_repair_outcome(input@, false);
    }
    let r = repair_json_impl(input, false);
    proof {
        if !serde_json_accepts(input@) && scan(input@).stack.len() == 0 && scan(input@).quote is None {
            lemma_repaired_balanced(input@);
        }
    }
    r
}

/// Law: on input without runs of commas, the structural repair of what the
/// structural repair returned is that text again.
pub proof fn lemma_structural_repair_idempotent(input: Seq<u8>, out: Seq<u8>)
    requires
        structural_repair(input) == Ok::<Seq<u8>, Seq<char>>(out),
        no_comma_runs(input),
    ensures
        structural_repair(out) == Ok::<Seq<u8>, Seq<char>>(out),
{
    lemma_repair_twice(input);
}

/// Law: repairing is idempotent. What `repair_json` returns, it returns
/// unchanged when given it again.
pub proof fn lemma_repair_json_idempotent(input: Seq<u8>, out: Seq<u8>)
    requires
        repair_outcome(input, true) == Ok::<Seq<u8>, Seq<char>>(out),
    ensures
        repair_outcome(out, true) == Ok::<Seq<u8>, Seq<char>>(out),
{
}

} // verus!
