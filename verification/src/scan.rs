//! The single streaming pass that repairs the text.
//!
//! The pass reads the input one symbol at a time and keeps a small state: the
//! output written so far, a stack of the open containers, the quote that opened
//! the string it is in (if any), whether the previous symbol was a backslash
//! inside a string, and where the last comma outside a string was written
//! while only whitespace has followed it.
use vstd::prelude::*;
use crate::alphabet::{Symbol, ascii_space};

verus! {

/// The state of the repair pass after some prefix of the input.
pub struct ScanState<T> {
    /// What has been written so far.
    pub out: Seq<T>,
    /// The open containers, innermost last: `true` for an array, `false` for an object.
    pub stack: Seq<bool>,
    /// The quote symbol that opened the string the scanner is in, if it is in one.
    pub quote: Option<T>,
    /// The previous symbol was a backslash inside a string.
    pub escape: bool,
    /// Position in `out` of a comma that only whitespace has followed so far.
    pub comma: Option<nat>,
}

/// The state before any input has been read.
pub open spec fn initial_state<T>() -> ScanState<T> {
    ScanState { out: Seq::empty(), stack: Seq::empty(), quote: None, escape: false, comma: None }
}

/// `out` cut back to before the pending comma, if there is one.
pub open spec fn drop_pending_comma<T>(out: Seq<T>, comma: Option<nat>) -> Seq<T> {
    match comma {
        Some(p) => out.take(p as int),
        None => out,
    }
}

/// Reading `c` while the previous symbol was an escaping backslash: the symbol
/// is copied, except that an escaped single quote in a single-quoted string
/// loses its backslash (a single quote needs no escape in a double-quoted string).
pub open spec fn step_escaped<T: Symbol>(s: ScanState<T>, c: T) -> ScanState<T> {
    ScanState {
        out: if c == T::single_quote() && s.quote == Some(T::single_quote()) {
            s.out.drop_last().push(c)
        } else {
            s.out.push(c)
        },
        escape: false,
        ..s
    }
}

/// Reading `c` inside a string opened by `q`.
pub open spec fn step_in_string<T: Symbol>(s: ScanState<T>, q: T, c: T) -> ScanState<T> {
    if c == T::backslash() {
        ScanState { out: s.out.push(c), escape: true, ..s }
    } else if c == q {
        ScanState { out: s.out.push(T::double_quote()), quote: None, ..s }
    } else if c == T::double_quote() && q == T::single_quote() {
        ScanState { out: s.out.push(T::backslash()).push(T::double_quote()), ..s }
    } else {
        ScanState { out: s.out.push(c), ..s }
    }
}

/// Reading a closer outside strings: it closes the innermost container when
/// that container is of its kind (`is_array`), dropping a pending trailing
/// comma; otherwise it is skipped.
pub open spec fn step_close<T: Symbol>(s: ScanState<T>, c: T, is_array: bool) -> ScanState<T> {
    if s.stack.len() > 0 && s.stack.last() == is_array {
        ScanState {
            out: drop_pending_comma(s.out, s.comma).push(c),
            stack: s.stack.drop_last(),
            comma: None,
            ..s
        }
    } else {
        s
    }
}

/// Reading `c` outside strings.
pub open spec fn step_outside<T: Symbol>(s: ScanState<T>, c: T) -> ScanState<T> {
    if c == T::single_quote() {
        ScanState {
            out: s.out.push(T::double_quote()),
            quote: Some(T::single_quote()),
            comma: None,
            ..s
        }
    } else if c == T::double_quote() {
        ScanState { out: s.out.push(c), quote: Some(T::double_quote()), comma: None, ..s }
    } else if c == T::open_bracket() {
        ScanState { out: s.out.push(c), stack: s.stack.push(true), comma: None, ..s }
    } else if c == T::open_brace() {
        ScanState { out: s.out.push(c), stack: s.stack.push(false), comma: None, ..s }
    } else if c == T::close_bracket() {
        step_close(s, c, true)
    } else if c == T::close_brace() {
        step_close(s, c, false)
    } else if c == T::comma() {
        ScanState { out: s.out.push(c), comma: Some(s.out.len()), ..s }
    } else if c.is_space() {
        ScanState { out: s.out.push(c), ..s }
    } else {
        ScanState { out: s.out.push(c), comma: None, ..s }
    }
}

/// One step of the pass.
pub open spec fn step<T: Symbol>(s: ScanState<T>, c: T) -> ScanState<T> {
    if s.escape {
        step_escaped(s, c)
    } else {
        match s.quote {
            Some(q) => step_in_string(s, q, c),
            None => step_outside(s, c),
        }
    }
}

/// The state after reading all of `input`.
pub open spec fn scan<T: Symbol>(input: Seq<T>) -> ScanState<T>
    decreases input.len(),
{
    if input.len() == 0 {
        initial_state()
    } else {
        step(scan(input.drop_last()), input.last())
    }
}

/// What the pass writes for `input`: the scanned output, with a comma that
/// only whitespace followed up to the end removed.
pub open spec fn repaired<T: Symbol>(input: Seq<T>) -> Seq<T> {
    let s = scan(input);
    drop_pending_comma(s.out, s.comma)
}

/// The shape facts that every reachable state has.
pub open spec fn wf_state<T: Symbol>(s: ScanState<T>) -> bool {
    &&& (s.quote matches Some(q) ==> (q == T::single_quote() || q == T::double_quote()))
    &&& (s.escape ==> s.quote is Some && s.out.len() > 0 && s.out.last() == T::backslash())
    &&& (s.comma matches Some(p) ==> s.quote is None && p < s.out.len() && s.out[p as int] == T::comma())
}

pub proof fn lemma_step_wf<T: Symbol>(s: ScanState<T>, c: T)
    requires
        wf_state(s),
    ensures
        wf_state(step(s, c)),
{
    T::lemma_punctuation_distinct();
    if !s.escape && s.quote is None && (c == T::close_bracket() || c == T::close_brace()) {
        if let Some(p) = s.comma {
            assert(s.out.take(p as int).len() == p);
        }
    }
}

/// Every state the pass reaches is well formed.
pub proof fn lemma_scan_wf<T: Symbol>(input: Seq<T>)
    ensures
        wf_state(scan(input)),
    decreases input.len(),
{
    if input.len() > 0 {
        lemma_scan_wf(input.drop_last());
        lemma_step_wf(scan(input.drop_last()), input.last());
    }
}

/// The state of the byte pass, read from its variables.
pub open spec fn state_of(
    out: Seq<u8>,
    stack: Seq<bool>,
    quote: Option<u8>,
    escape: bool,
    comma: Option<usize>,
) -> ScanState<u8> {
    ScanState {
        out,
        stack,
        quote,
        escape,
        comma: match comma {
            Some(p) => Some(p as nat),
            None => None,
        },
    }
}

/// The result of the repair pass over bytes.
pub struct Repaired {
    /// The repaired bytes.
    pub output: Vec<u8>,
    /// How many arrays and objects were still open at the end of the input.
    pub open_containers: usize,
    /// Whether the input ended inside a string.
    pub in_string: bool,
}

/// Runs the repair pass over `input` in one streaming pass: single-quoted
/// strings become double-quoted, trailing commas before `]` or `}` (or at the
/// end) are removed, and closers that match no open container are skipped.
pub fn repair_pass(input: &[u8]) -> (r: Repaired)
    ensures
        r.output@ == repaired(input@),
        r.open_containers == scan(input@).stack.len(),
        r.in_string == scan(input@).quote is Some,
{
    let mut output: Vec<u8> = Vec::with_capacity(input.len());
    let mut stack: Vec<bool> = Vec::new();
    let mut quote: Option<u8> = None;
    let mut escape = false;
    let mut comma: Option<usize> = None;
    let mut i: usize = 0;
    while i < input.len()
        invariant
            i <= input.len(),
            state_of(output@, stack@, quote, escape, comma) == scan(input@.take(i as int)),
        decreases input.len() - i,
    {
        let c = input[i];
        proof {
            assert(input@.take(i + 1).drop_last() =~= input@.take(i as int));
            lemma_scan_wf(input@.take(i as int));
        }
        if escape {
            if c == 0x27u8 && quote == Some(0x27u8) {
                let n = output.len();
                output.truncate(n - 1);
            }
            output.push(c);
            escape = false;
        } else if let Some(q) = quote {
            if c == 0x5Cu8 {
                escape = true;
                output.push(c);
            } else if c == q {
                quote = None;
                output.push(0x22u8);
            } else if c == 0x22u8 && q == 0x27u8 {
                output.push(0x5Cu8);
                output.push(0x22u8);
            } else {
                output.push(c);
            }
        } else if c == 0x27u8 {
            output.push(0x22u8);
            quote = Some(0x27u8);
            comma = None;
        } else if c == 0x22u8 {
            output.push(c);
            quote = Some(0x22u8);
            comma = None;
        } else if c == 0x5Bu8 || c == 0x7Bu8 {
            output.push(c);
            stack.push(c == 0x5Bu8);
            comma = None;
        } else if c == 0x5Du8 || c == 0x7Du8 {
            let is_array = c == 0x5Du8;
            let n = stack.len();
            if n > 0 && stack[n - 1] == is_array {
                if let Some(p) = comma {
                    output.truncate(p);
                }
                output.push(c);
                stack.pop();
                comma = None;
            }
        } else if c == 0x2Cu8 {
            comma = Some(output.len());
            output.push(c);
        } else if c == 0x3Au8 {
            comma = None;
            output.push(c);
        } else {
            if !ascii_space(c) {
                comma = None;
            }
            output.push(c);
        }
        proof {
            assert(input@.take(i + 1).last() == c);
        }
        i = i + 1;
        assert(state_of(output@, stack@, quote, escape, comma) =~~= scan(input@.take(i as int)));
    }
    proof {
        assert(input@.take(i as int) =~= input@);
        lemma_scan_wf(input@);
    }
    if let Some(p) = comma {
        output.truncate(p);
    }
    let open_containers = stack.len();
    Repaired { output, open_containers, in_string: quote.is_some() }
}

} // verus!
