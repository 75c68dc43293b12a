//! The repair over text, as the command-line tool runs it: the same
//! streaming pass over characters, where any Unicode whitespace may stand
//! between a trailing comma and its closer.
use vstd::prelude::*;
use crate::alphabet::unicode_space;
use crate::scan::{ScanState, scan, repaired, lemma_scan_wf};
use crate::message::{unclosed_message, invalid_message, unclosed_error, invalid_error};
use crate::validate::{serde_json_accepts_text, is_valid_json_text};
use crate::lex::{lex, no_bare_single_quote, lemma_repaired_is_well_nested};
use crate::commas::{no_comma_runs, no_trailing_comma, lemma_trailing_commas_removed};

verus! {

/// What the text repair returns for `input`.
pub open spec fn text_outcome(input: Seq<char>) -> Result<Seq<char>, Seq<char>> {
    let s = scan(input);
    if s.stack.len() > 0 {
        Err(unclosed_message(s.stack.len()))
    } else if !serde_json_accepts_text(repaired(input)) {
        Err(invalid_message())
    } else {
        Ok(repaired(input))
    }
}

/// Law: a text the repair returns is one serde_json accepts, whose brackets
/// all close in order, with no single-quoted string and, unless the input ran
/// commas together, no comma before a closer or the end; and whenever the
/// pass closes every container and serde_json accepts what it wrote, the
/// repair succeeds.
pub proof fn lemma_text_outcome(input: Seq<char>)
    ensures
        text_outcome(input) matches Ok(out) ==> {
            &&& serde_json_accepts_text(out)
            &&& lex(out).ok
            &&& lex(out).stack.len() == 0
            &&& no_bare_single_quote(out)
            &&& (no_comma_runs(input) ==> no_trailing_comma(out))
        },
        (lex(repaired(input)).stack.len() == 0 && serde_json_accepts_text(repaired(input)))
            ==> text_outcome(input) is Ok,
{
    lemma_repaired_is_well_nested(input);
    if no_comma_runs(input) {
        lemma_trailing_commas_removed(input);
    }
}

/// The state of the text pass, read from its variables.
pub open spec fn text_state_of(
    out: Seq<char>,
    stack: Seq<bool>,
    quote: Option<char>,
    escape: bool,
    comma: Option<usize>,
) -> ScanState<char> {
    ScanState {
        out,
        stack,
        quote,
        escape,
        comma: match comma {
            Some(p) => Some(p as nat),
            None => None,
        },
    }
}

/// Collects characters into a `String` (`String: FromIterator<char>`).
/// Trusted: the string holds exactly those characters, in order.
#[verifier::external_body]
fn collect_string(chars: &Vec<char>) -> (s: String)
    ensures
        s@ == chars@,
{
    chars.iter().collect()
}

/// Repairs broken JSON text by removing trailing commas in arrays and
/// objects and converting single-quoted strings to double-quoted ones, in one
/// streaming pass; the result is returned only if all containers were closed
/// and serde_json accepts it.
pub fn repair_json(input: &str) -> (r: Result<String, String>)
    ensures
        match r {
            Ok(s) => text_outcome(input@) == Ok::<Seq<char>, Seq<char>>(s@),
            Err(e) => text_outcome(input@) == Err::<Seq<char>, Seq<char>>(e@),
        },
        r matches Ok(out) ==> serde_json_accepts_text(out@) && lex(out@).ok && lex(out@).stack.len()
            == 0 && no_bare_single_quote(out@) && (no_comma_runs(input@) ==> no_trailing_comma(
            out@,
        )),
{
    proof {
        lemma_text_outcome(input@);
    }
    broadcast use vstd::string::group_string_axioms;

    let mut output: Vec<char> = Vec::new();
    let mut stack: Vec<bool> = Vec::new();
    let mut quote: Option<char> = None;
    let mut escape = false;
    let mut comma: Option<usize> = None;
    for c in it: input.chars()
        invariant
            it.seq() == input@,
            text_state_of(output@, stack@, quote, escape, comma) == scan(it.seq().take(it.index())),
    {
        proof {
            assert(it.seq().take(it.index() + 1).drop_last() =~= it.seq().take(it.index()));
            assert(it.seq().take(it.index() + 1).last() == c);
            lemma_scan_wf(it.seq().take(it.index()));
        }
        if escape {
            if c == '\'' && quote == Some('\'') {
                let n = output.len();
                output.truncate(n - 1);
            }
            output.push(c);
            escape = false;
        } else if let Some(q) = quote {
            if c == '\\' {
                escape = true;
                output.push(c);
            } else if c == q {
                quote = None;
                output.push('"');
            } else if c == '"' && q == '\'' {
                output.push('\\');
                output.push('"');
            } else {
                output.push(c);
            }
        } else if c == '\'' {
            output.push('"');
            quote = Some('\'');
            comma = None;
        } else if c == '"' {
            output.push(c);
            quote = Some('"');
            comma = None;
        } else if c == '[' || c == '{' {
            output.push(c);
            stack.push(c == '[');
            comma = None;
        } else if c == ']' || c == '}' {
            let is_array = c == ']';
            let n = stack.len();
            if n > 0 && stack[n - 1] == is_array {
                if let Some(p) = comma {
                    output.truncate(p);
                }
                output.push(c);
                stack.pop();
                comma = None;
            }
        } else if c == ',' {
            comma = Some(output.len());
            output.push(c);
        } else if c == ':' {
            comma = None;
            output.push(c);
        } else {
            if !unicode_space(c) {
                comma = None;
            }
            output.push(c);
        }
        assert(text_state_of(output@, stack@, quote, escape, comma) =~~= scan(
            it.seq().take(it.index() + 1),
        ));
    }
    proof {
        assert(input@.take(input@.len() as int) =~= input@);
        lemma_scan_wf(input@);
    }
    if let Some(p) = comma {
        output.truncate(p);
    }
    if stack.len() > 0 {
        return Err(unclosed_error(stack.len()));
    }
    let repaired_text = collect_string(&output);
    if !is_valid_json_text(repaired_text.as_str()) {
        return Err(invalid_error());
    }
    Ok(repaired_text)
}

} // verus!
