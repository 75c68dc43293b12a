//! The pass is conservative: text that needs no repair comes out as it went in.
use vstd::prelude::*;
use crate::alphabet::Symbol;
use crate::scan::{scan, step, repaired, lemma_scan_wf};
use crate::lex::{
    lex, balanced, outside_string, no_bare_single_quote, lemma_lex_push,
    lemma_repaired_balanced,
};
use crate::commas::{no_trailing_comma, no_comma_runs, lemma_trailing_commas_removed};

verus! {

/// Text that needs no repair: balanced, with double-quoted strings only and
/// no trailing comma.
pub open spec fn clean<T: Symbol>(text: Seq<T>) -> bool {
    &&& balanced(text)
    &&& no_bare_single_quote(text)
    &&& no_trailing_comma(text)
}

/// Once a closer has met a container of the other kind, the reader stays refused.
pub proof fn lemma_lex_ok_prefix<T: Symbol>(text: Seq<T>, i: int)
    requires
        0 <= i <= text.len(),
        lex(text).ok,
    ensures
        lex(text.take(i)).ok,
    decreases text.len() - i,
{
    if i < text.len() {
        assert(text.take(i + 1) =~= text.take(i).push(text[i]));
        lemma_lex_push(text.take(i), text[i]);
        lemma_lex_ok_prefix(text, i + 1);
    } else {
        assert(text.take(i) =~= text);
    }
}

/// How the pass stands on a prefix of clean text: it has copied the prefix,
/// and its containers and string are those the reader sees.
pub open spec fn copies_prefix<T: Symbol>(text: Seq<T>, i: int) -> bool {
    let s = scan(text.take(i));
    let l = lex(text.take(i));
    &&& s.out == text.take(i)
    &&& s.stack == l.stack
    &&& s.quote == (if l.in_string {
        Some(T::double_quote())
    } else {
        None
    })
    &&& s.escape == l.escape
    &&& (s.comma matches Some(p) ==> {
        &&& p < i
        &&& text[p as int] == T::comma()
        &&& outside_string(text, p as int)
        &&& forall|k: int| p < k < i ==> text[k].is_space()
    })
}

/// In text without trailing commas, a comma followed only by whitespace up
/// to position `n` is not followed by a closer at `n`.
pub proof fn lemma_no_closer_after_comma<T: Symbol>(text: Seq<T>, p: int, n: int)
    requires
        no_trailing_comma(text),
        0 <= p < n < text.len(),
        text[p] == T::comma(),
        outside_string(text, p),
        forall|k: int| p < k < n ==> text[k].is_space(),
    ensures
        text[n] != T::close_bracket(),
        text[n] != T::close_brace(),
{
    assert(text[p] == T::comma());
    let j = choose|j: int|
        #![trigger text[j]]
        p < j < text.len() && !text[j].is_space() && text[j] != T::close_bracket() && text[j]
            != T::close_brace() && forall|k: int| p < k < j ==> text[k].is_space();
    assert(text[j] == text[j]);
    T::lemma_punctuation_distinct();
    if j < n {
        assert(text[j].is_space());
    } else if j > n {
        assert(text[n].is_space());
    }
}

/// Copying one more symbol of clean text.
pub proof fn lemma_copies_step<T: Symbol>(text: Seq<T>, i: int)
    requires
        0 < i <= text.len(),
        copies_prefix(text, i - 1),
        lex(text.take(i)).ok,
        outside_string(text, i - 1) ==> text[i - 1] != T::single_quote(),
        (scan(text.take(i - 1)).comma is Some && outside_string(text, i - 1)) ==> (text[i - 1]
            != T::close_bracket() && text[i - 1] != T::close_brace()),
    ensures
        copies_prefix(text, i),
{
    T::lemma_punctuation_distinct();
    let pre = text.take(i - 1);
    let c = text[i - 1];
    assert(text.take(i) =~= pre.push(c));
    assert(text.take(i).drop_last() =~= pre);
    lemma_lex_push(pre, c);
    let s = scan(pre);
    lemma_scan_wf(pre);
    assert(pre.take(i - 1) =~= pre);
    let t = step(s, c);
    assert(t.out =~= text.take(i));
}

pub proof fn lemma_copies_prefix<T: Symbol>(text: Seq<T>, i: int)
    requires
        clean(text),
        0 <= i <= text.len(),
    ensures
        copies_prefix(text, i),
    decreases i,
{
    if i > 0 {
        lemma_copies_prefix(text, i - 1);
        lemma_lex_ok_prefix(text, i);
        let s = scan(text.take(i - 1));
        if let Some(p) = s.comma {
            if outside_string(text, i - 1) {
                lemma_no_closer_after_comma(text, p as int, i - 1);
            }
        }
        lemma_copies_step(text, i);
    } else {
        assert(text.take(0) =~= Seq::<T>::empty());
    }
}

/// Law: the pass leaves text that needs no repair unchanged, and closes
/// everything it opened.
pub proof fn lemma_clean_unchanged<T: Symbol>(text: Seq<T>)
    requires
        clean(text),
    ensures
        repaired(text) == text,
        scan(text).stack.len() == 0,
        scan(text).quote is None,
{
    T::lemma_punctuation_distinct();
    lemma_copies_prefix(text, text.len() as int);
    assert(text.take(text.len() as int) =~= text);
    let s = scan(text);
    if let Some(p) = s.comma {
        assert(text[p as int] == T::comma());
        let j = choose|j: int|
            #![trigger text[j]]
            p < j < text.len() && !text[j].is_space() && text[j] != T::close_bracket() && text[j]
                != T::close_brace() && forall|k: int| p < k < j ==> text[k].is_space();
        assert(text[j] == text[j]);
    }
}

/// Law: on input without runs of commas, repairing twice gives what
/// repairing once gave.
pub proof fn lemma_repair_twice<T: Symbol>(input: Seq<T>)
    requires
        no_comma_runs(input),
        scan(input).stack.len() == 0,
        scan(input).quote is None,
    ensures
        repaired(repaired(input)) == repaired(input),
        scan(repaired(input)).stack.len() == 0,
        scan(repaired(input)).quote is None,
{
    lemma_repaired_balanced(input);
    lemma_trailing_commas_removed(input);
    lemma_clean_unchanged(repaired(input));
}

} // verus!
