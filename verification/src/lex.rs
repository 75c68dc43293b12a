//! How JSON text nests: double-quoted strings with backslash escapes, and
//! arrays and objects that must be closed by the matching bracket.
//!
//! `lex` reads text the way a JSON reader sees its structure; the laws here
//! state that what the repair pass writes is well nested in that sense.
use vstd::prelude::*;
use crate::alphabet::Symbol;
use crate::scan::{ScanState, scan, step, repaired, wf_state, lemma_scan_wf, lemma_step_wf};

verus! {

/// The structure a JSON reader has seen after some prefix of a text.
pub struct LexState {
    /// The open containers, innermost last: `true` for an array, `false` for an object.
    pub stack: Seq<bool>,
    /// Inside a double-quoted string.
    pub in_string: bool,
    /// Inside a string, right after a backslash.
    pub escape: bool,
    /// No closer so far has met a container of the other kind, or none at all.
    pub ok: bool,
}

pub open spec fn lex_initial() -> LexState {
    LexState { stack: Seq::empty(), in_string: false, escape: false, ok: true }
}

/// A closer outside strings: it must close the innermost container, of its kind.
pub open spec fn lex_close(l: LexState, is_array: bool) -> LexState {
    if l.stack.len() > 0 && l.stack.last() == is_array {
        LexState { stack: l.stack.drop_last(), ..l }
    } else {
        LexState { ok: false, ..l }
    }
}

pub open spec fn lex_step<T: Symbol>(l: LexState, c: T) -> LexState {
    if !l.ok {
        l
    } else if l.in_string {
        if l.escape {
            LexState { escape: false, ..l }
        } else if c == T::backslash() {
            LexState { escape: true, ..l }
        } else if c == T::double_quote() {
            LexState { in_string: false, ..l }
        } else {
            l
        }
    } else if c == T::double_quote() {
        LexState { in_string: true, ..l }
    } else if c == T::open_bracket() {
        LexState { stack: l.stack.push(true), ..l }
    } else if c == T::open_brace() {
        LexState { stack: l.stack.push(false), ..l }
    } else if c == T::close_bracket() {
        lex_close(l, true)
    } else if c == T::close_brace() {
        lex_close(l, false)
    } else {
        l
    }
}

/// The structure seen after reading all of `text`.
pub open spec fn lex<T: Symbol>(text: Seq<T>) -> LexState
    decreases text.len(),
{
    if text.len() == 0 {
        lex_initial()
    } else {
        lex_step(lex(text.drop_last()), text.last())
    }
}

/// Position `i` of `text` is read outside any string.
pub open spec fn outside_string<T: Symbol>(text: Seq<T>, i: int) -> bool {
    !lex(text.take(i)).in_string
}

/// No single quote stands outside a string: every string is delimited by double quotes.
pub open spec fn no_bare_single_quote<T: Symbol>(text: Seq<T>) -> bool {
    forall|i: int| 0 <= i < text.len() && outside_string(text, i) ==> text[i] != T::single_quote()
}

/// Every bracket and brace is closed by its match, and every string is closed.
pub open spec fn balanced<T: Symbol>(text: Seq<T>) -> bool {
    let l = lex(text);
    l.ok && l.stack.len() == 0 && !l.in_string
}

/// What `lex` sees of the pass's output while the pass is in state `s`.
pub open spec fn lex_view<T>(s: ScanState<T>) -> LexState {
    LexState { stack: s.stack, in_string: s.quote is Some, escape: s.escape, ok: true }
}

/// The correspondence between the pass and the structure of what it wrote.
pub open spec fn lex_agrees<T: Symbol>(s: ScanState<T>) -> bool {
    &&& lex(s.out) == lex_view(s)
    &&& (s.escape ==> lex(s.out.drop_last()) == LexState { escape: false, ..lex_view(s) })
    &&& (s.comma matches Some(p) ==> lex(s.out.take(p as int)) == lex(s.out))
    &&& no_bare_single_quote(s.out)
}

pub proof fn lemma_lex_push<T: Symbol>(text: Seq<T>, c: T)
    ensures
        lex(text.push(c)) == lex_step(lex(text), c),
{
    assert(text.push(c).drop_last() =~= text);
}

pub proof fn lemma_bare_push<T: Symbol>(text: Seq<T>, c: T)
    requires
        no_bare_single_quote(text),
        lex(text).in_string || c != T::single_quote(),
    ensures
        no_bare_single_quote(text.push(c)),
{
    let t = text.push(c);
    assert forall|i: int| 0 <= i < t.len() && outside_string(t, i) implies t[i]
        != T::single_quote() by {
        if i < text.len() {
            assert(t.take(i) =~= text.take(i));
        } else {
            assert(t.take(i) =~= text);
        }
    }
}

pub proof fn lemma_bare_take<T: Symbol>(text: Seq<T>, n: int)
    requires
        no_bare_single_quote(text),
        0 <= n <= text.len(),
    ensures
        no_bare_single_quote(text.take(n)),
{
    let t = text.take(n);
    assert forall|i: int| 0 <= i < t.len() && outside_string(t, i) implies t[i]
        != T::single_quote() by {
        assert(t.take(i) =~= text.take(i));
    }
}

/// One step of the pass keeps the correspondence.
pub proof fn lemma_step_agrees<T: Symbol>(s: ScanState<T>, c: T)
    requires
        wf_state(s),
        lex_agrees(s),
    ensures
        lex_agrees(step(s, c)),
{
    T::lemma_punctuation_distinct();
    lemma_step_wf(s, c);
    let t = step(s, c);
    if s.escape {
        if c == T::single_quote() && s.quote == Some(T::single_quote()) {
            let base = s.out.drop_last();
            lemma_lex_push(base, c);
            lemma_bare_take(s.out, s.out.len() - 1);
            assert(base =~= s.out.take(s.out.len() - 1));
            lemma_bare_push(base, c);
        } else {
            lemma_lex_push(s.out, c);
            lemma_bare_push(s.out, c);
        }
    } else if let Some(q) = s.quote {
        if c == T::backslash() {
            lemma_lex_push(s.out, c);
            lemma_bare_push(s.out, c);
            assert(t.out.drop_last() =~= s.out);
        } else if c == q {
            lemma_lex_push(s.out, T::double_quote());
            lemma_bare_push(s.out, T::double_quote());
        } else if c == T::double_quote() && q == T::single_quote() {
            let mid = s.out.push(T::backslash());
            lemma_lex_push(s.out, T::backslash());
            lemma_bare_push(s.out, T::backslash());
            lemma_lex_push(mid, T::double_quote());
            lemma_bare_push(mid, T::double_quote());
        } else {
            lemma_lex_push(s.out, c);
            lemma_bare_push(s.out, c);
        }
    } else {
        if c == T::single_quote() {
            lemma_lex_push(s.out, T::double_quote());
            lemma_bare_push(s.out, T::double_quote());
        } else if c == T::close_bracket() || c == T::close_brace() {
            let is_array = c == T::close_bracket();
            if s.stack.len() > 0 && s.stack.last() == is_array {
                let base = match s.comma {
                    Some(p) => s.out.take(p as int),
                    None => s.out,
                };
                if let Some(p) = s.comma {
                    lemma_bare_take(s.out, p as int);
                }
                lemma_lex_push(base, c);
                lemma_bare_push(base, c);
            }
        } else if c == T::comma() {
            lemma_lex_push(s.out, c);
            lemma_bare_push(s.out, c);
            assert(t.out.take(s.out.len() as int) =~= s.out);
        } else {
            lemma_lex_push(s.out, c);
            lemma_bare_push(s.out, c);
            if let Some(p) = s.comma {
                if c.is_space() {
                    assert(t.out.take(p as int) =~= s.out.take(p as int));
                }
            }
        }
    }
}

/// Every state of the pass agrees with the structure of its output.
pub proof fn lemma_scan_agrees<T: Symbol>(input: Seq<T>)
    ensures
        lex_agrees(scan(input)),
    decreases input.len(),
{
    if input.len() == 0 {
        assert(no_bare_single_quote(scan(input).out));
    } else {
        lemma_scan_agrees(input.drop_last());
        lemma_scan_wf(input.drop_last());
        lemma_step_agrees(scan(input.drop_last()), input.last());
    }
}

/// Law: what the repair pass writes is well nested. No closer in it meets a
/// container of the other kind (stray closers were skipped), the containers
/// and the string it leaves open are exactly those the pass reports open, and
/// no single quote stands outside a string (single-quoted strings were
/// rewritten with double quotes).
pub proof fn lemma_repaired_is_well_nested<T: Symbol>(input: Seq<T>)
    ensures
        lex(repaired(input)).ok,
        lex(repaired(input)).stack == scan(input).stack,
        lex(repaired(input)).in_string == scan(input).quote is Some,
        no_bare_single_quote(repaired(input)),
{
    let s = scan(input);
    lemma_scan_agrees(input);
    lemma_scan_wf(input);
    if let Some(p) = s.comma {
        lemma_bare_take(s.out, p as int);
    }
}

/// Law: when the pass ends with no container and no string open, its output
/// is balanced: every bracket and brace is closed by its match and every
/// string is closed.
pub proof fn lemma_repaired_balanced<T: Symbol>(input: Seq<T>)
    requires
        scan(input).stack.len() == 0,
        scan(input).quote is None,
    ensures
        balanced(repaired(input)),
        no_bare_single_quote(repaired(input)),
{
    lemma_repaired_is_well_nested(input);
}

/// Law: inside a string of the repaired text, an escape sequence is copied
/// as written unless its second symbol is a single quote. Extending the input
/// by a backslash and a symbol `c` other than `'` extends the repaired text by
/// exactly that backslash and `c`; with `c` a single quote, the backslash is
/// kept or dropped, and the quote follows.
pub proof fn lemma_escape_copied<T: Symbol>(x: Seq<T>, c: T)
    requires
        lex(repaired(x)).in_string,
        !lex(repaired(x)).escape,
    ensures
        c != T::single_quote() ==> repaired(x + seq![T::backslash(), c]) == repaired(x) + seq![
            T::backslash(),
            c,
        ],
        c == T::single_quote() ==> (repaired(x + seq![T::backslash(), c]) == repaired(x) + seq![c]
            || repaired(x + seq![T::backslash(), c]) == repaired(x) + seq![T::backslash(), c]),
{
    T::lemma_punctuation_distinct();
    let s = scan(x);
    lemma_scan_agrees(x);
    lemma_scan_wf(x);
    if let Some(p) = s.comma {
        assert(lex(repaired(x)) == lex(s.out));
        assert(false);
    }
    assert(repaired(x) == s.out);
    let x1 = x.push(T::backslash());
    let x2 = x1.push(c);
    assert(x + seq![T::backslash(), c] =~= x2);
    assert(x2.drop_last() =~= x1);
    assert(x1.drop_last() =~= x);
    let s1 = step(s, T::backslash());
    assert(scan(x1) == s1);
    assert(scan(x2) == step(s1, c));
    if c == T::single_quote() {
        assert(s1.out.drop_last() =~= s.out);
        if s.quote == Some(T::single_quote()) {
            assert(repaired(x2) =~= repaired(x) + seq![c]);
        } else {
            assert(repaired(x2) =~= repaired(x) + seq![T::backslash(), c]);
        }
    } else {
        assert(repaired(x2) =~= repaired(x) + seq![T::backslash(), c]);
    }
}

} // verus!
