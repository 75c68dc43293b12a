//! Trailing commas: what the pass promises of the commas it leaves.
//!
//! A comma outside strings survives only where something other than a
//! closer follows it. The one input shape that defeats this is a run of
//! commas with nothing but whitespace (or skipped closers) between them:
//! `[1,,]` becomes `[1,]`, since only the last comma of the run is dropped.
use vstd::prelude::*;
use crate::alphabet::Symbol;
use crate::scan::{ScanState, scan, step, repaired, wf_state, lemma_scan_wf, lemma_step_wf};
use crate::lex::{lex, outside_string, lex_agrees, lemma_lex_push, lemma_scan_agrees,
    lemma_step_agrees};

verus! {

/// The comma at `i` is followed, before position `bound`, by a symbol that
/// is neither whitespace nor a closer, with only whitespace in between.
pub open spec fn comma_resolved<T: Symbol>(text: Seq<T>, i: int, bound: int) -> bool {
    exists|j: int|
        #![trigger text[j]]
        i < j < bound && !text[j].is_space() && text[j] != T::close_bracket() && text[j]
            != T::close_brace() && forall|k: int| i < k < j ==> text[k].is_space()
}

/// No comma outside strings is followed by a closer or by the end of the
/// text with only whitespace in between.
pub open spec fn no_trailing_comma<T: Symbol>(text: Seq<T>) -> bool {
    forall|i: int|
        #![trigger text[i]]
        0 <= i < text.len() && text[i] == T::comma() && outside_string(text, i) ==> comma_resolved(
            text,
            i,
            text.len() as int,
        )
}

/// The pass never reads a comma outside strings while an earlier comma is
/// still waiting to see what follows it.
pub open spec fn no_comma_runs<T: Symbol>(input: Seq<T>) -> bool {
    forall|i: int|
        #![trigger input[i]]
        0 <= i < input.len() && input[i] == T::comma() && !scan(input.take(i)).escape && scan(
            input.take(i),
        ).quote is None ==> scan(input.take(i)).comma is None
}

/// Where the commas the pass has settled end: the pending comma, if any.
pub open spec fn settled_bound<T>(s: ScanState<T>) -> int {
    match s.comma {
        Some(p) => p as int,
        None => s.out.len() as int,
    }
}

/// The pass's bookkeeping of commas: only whitespace follows the pending
/// comma, and every other comma outside strings is resolved before it.
pub open spec fn commas_settled<T: Symbol>(s: ScanState<T>) -> bool {
    &&& (s.comma matches Some(p) ==> forall|k: int| p < k < s.out.len() ==> (#[trigger] s.out[k]).is_space())
    &&& forall|i: int|
        #![trigger s.out[i]]
        0 <= i < s.out.len() && s.out[i] == T::comma() && outside_string(s.out, i) && s.comma
            != Some(i as nat) ==> comma_resolved(s.out, i, settled_bound(s))
}

/// After a comma outside strings, whitespace keeps the reader outside strings.
pub proof fn lemma_spaces_stay_outside<T: Symbol>(text: Seq<T>, i: int, n: int)
    requires
        0 <= i < n <= text.len(),
        text[i] == T::comma(),
        outside_string(text, i),
        forall|k: int| i < k < n ==> text[k].is_space(),
    ensures
        !lex(text.take(n)).in_string,
    decreases n - i,
{
    T::lemma_punctuation_distinct();
    assert(text.take(n) =~= text.take(n - 1).push(text[n - 1]));
    lemma_lex_push(text.take(n - 1), text[n - 1]);
    if n - 1 > i {
        lemma_spaces_stay_outside(text, i, n - 1);
    }
}

/// A resolved comma stays resolved when the text grows or the bound moves out.
pub proof fn lemma_resolved_extend<T: Symbol>(
    text: Seq<T>,
    longer: Seq<T>,
    i: int,
    bound: int,
    new_bound: int,
)
    requires
        comma_resolved(text, i, bound),
        0 <= i,
        bound <= new_bound,
        bound <= text.len(),
        bound <= longer.len(),
        forall|k: int| 0 <= k < bound ==> longer[k] == text[k],
    ensures
        comma_resolved(longer, i, new_bound),
{
    let j = choose|j: int|
        #![trigger text[j]]
        i < j < bound && !text[j].is_space() && text[j] != T::close_bracket() && text[j]
            != T::close_brace() && forall|k: int| i < k < j ==> text[k].is_space();
    assert(longer[j] == text[j]);
    assert forall|k: int| i < k < j implies longer[k].is_space() by {
        assert(longer[k] == text[k]);
    }
}

pub proof fn lemma_outside_prefix<T: Symbol>(text: Seq<T>, longer: Seq<T>, i: int)
    requires
        0 <= i <= text.len(),
        i <= longer.len(),
        forall|k: int| 0 <= k < i ==> longer[k] == text[k],
    ensures
        outside_string(longer, i) == outside_string(text, i),
{
    assert(longer.take(i) =~= text.take(i));
}

/// One step of the pass keeps the commas settled, unless it reads a comma
/// while another is pending.
pub proof fn lemma_step_settled<T: Symbol>(s: ScanState<T>, c: T)
    requires
        wf_state(s),
        lex_agrees(s),
        commas_settled(s),
        (c == T::comma() && !s.escape && s.quote is None) ==> s.comma is None,
    ensures
        commas_settled(step(s, c)),
{
    T::lemma_punctuation_distinct();
    lemma_step_wf(s, c);
    lemma_step_agrees(s, c);
    let t = step(s, c);
    let n = s.out.len() as int;
    let b = settled_bound(s);
    let nb = settled_bound(t);
    if s.escape && c == T::single_quote() && s.quote == Some(T::single_quote()) {
        // The backslash at n - 1 is replaced by the quote.
        let base = s.out.drop_last();
        assert forall|i: int|
            #![trigger t.out[i]]
            0 <= i < t.out.len() && t.out[i] == T::comma() && outside_string(t.out, i) && t.comma
                != Some(i as nat) implies comma_resolved(t.out, i, nb) by {
            if i < n - 1 {
                lemma_outside_prefix(s.out, t.out, i);
                assert(s.out[i] == t.out[i]);
                let j = choose|j: int|
                    #![trigger s.out[j]]
                    i < j < b && !s.out[j].is_space() && s.out[j] != T::close_bracket()
                        && s.out[j] != T::close_brace() && forall|k: int|
                        i < k < j ==> s.out[k].is_space();
                if j == n - 1 {
                    lemma_spaces_stay_outside(s.out, i, n - 1);
                    assert(s.out.take(n - 1) =~= base);
                }
                lemma_resolved_extend(s.out, t.out, i, j + 1, nb);
            } else {
                assert(t.out.take(i) =~= base);
            }
        }
    } else if s.escape || s.quote is Some {
        // Symbols are appended inside a string.
        assert(s.comma is None);
        assert forall|i: int|
            #![trigger t.out[i]]
            0 <= i < t.out.len() && t.out[i] == T::comma() && outside_string(t.out, i) && t.comma
                != Some(i as nat) implies comma_resolved(t.out, i, nb) by {
            if i < n {
                lemma_outside_prefix(s.out, t.out, i);
                assert(s.out[i] == t.out[i]);
                lemma_resolved_extend(s.out, t.out, i, b, nb);
            } else if i == n {
                assert(t.out.take(i) =~= s.out);
            } else {
                assert(t.out.take(i) =~= s.out.push(T::backslash()));
                lemma_lex_push(s.out, T::backslash());
            }
        }
    } else if (c == T::close_bracket() || c == T::close_brace()) && t != s {
        let base = match s.comma {
            Some(p) => s.out.take(p as int),
            None => s.out,
        };
        assert(t.out == base.push(c));
        assert forall|i: int|
            #![trigger t.out[i]]
            0 <= i < t.out.len() && t.out[i] == T::comma() && outside_string(t.out, i) && t.comma
                != Some(i as nat) implies comma_resolved(t.out, i, nb) by {
            if i < base.len() {
                lemma_outside_prefix(s.out, t.out, i);
                assert(s.out[i] == t.out[i]);
                lemma_resolved_extend(s.out, t.out, i, b, nb);
            }
        }
    } else if t == s {
    } else {
        // An opener, quote, colon, comma, whitespace or other symbol is appended outside strings.
        assert(t.out == s.out.push(t.out.last()));
        assert forall|i: int|
            #![trigger t.out[i]]
            0 <= i < t.out.len() && t.out[i] == T::comma() && outside_string(t.out, i) && t.comma
                != Some(i as nat) implies comma_resolved(t.out, i, nb) by {
            if i < n {
                lemma_outside_prefix(s.out, t.out, i);
                assert(s.out[i] == t.out[i]);
                if s.comma == Some(i as nat) {
                    assert(t.out[n] == t.out.last());
                    assert forall|k: int| i < k < n implies t.out[k].is_space() by {
                        assert(t.out[k] == s.out[k]);
                    }
                } else {
                    lemma_resolved_extend(s.out, t.out, i, b, nb);
                }
            }
        }
        if let Some(p) = t.comma {
            assert forall|k: int| p < k < t.out.len() implies (#[trigger] t.out[k]).is_space() by {
                if k < n {
                    assert(t.out[k] == s.out[k]);
                }
            }
        }
    }
}

/// The commas are settled at every prefix of an input without comma runs.
pub proof fn lemma_scan_settled<T: Symbol>(input: Seq<T>)
    requires
        no_comma_runs(input),
    ensures
        commas_settled(scan(input)),
    decreases input.len(),
{
    if input.len() > 0 {
        let prefix = input.drop_last();
        assert forall|i: int|
            #![trigger prefix[i]]
            0 <= i < prefix.len() && prefix[i] == T::comma() && !scan(prefix.take(i)).escape
                && scan(prefix.take(i)).quote is None implies scan(prefix.take(i)).comma is None by {
            assert(prefix.take(i) =~= input.take(i));
            assert(input[i] == prefix[i]);
        }
        lemma_scan_settled(prefix);
        lemma_scan_wf(prefix);
        lemma_scan_agrees(prefix);
        let k = input.len() - 1;
        assert(input.take(k) =~= prefix);
        assert(input[k] == input.last());
        lemma_step_settled(scan(prefix), input.last());
    }
}

/// Law: without runs of commas, the repaired text has no trailing comma:
/// every comma outside strings is followed, after any whitespace, by
/// something other than `]` or `}`.
pub proof fn lemma_trailing_commas_removed<T: Symbol>(input: Seq<T>)
    requires
        no_comma_runs(input),
    ensures
        no_trailing_comma(repaired(input)),
{
    T::lemma_punctuation_distinct();
    lemma_scan_settled(input);
    lemma_scan_wf(input);
    lemma_scan_agrees(input);
    let s = scan(input);
    let r = repaired(input);
    assert forall|i: int|
        #![trigger r[i]]
        0 <= i < r.len() && r[i] == T::comma() && outside_string(r, i) implies comma_resolved(
            r,
            i,
            r.len() as int,
        ) by {
        lemma_outside_prefix(s.out, r, i);
        assert(s.out[i] == r[i]);
        lemma_resolved_extend(s.out, r, i, settled_bound(s), r.len() as int);
    }
}

} // verus!
