//! The error messages the repair functions return, and the decimal
//! rendering of counts that they contain.
use vstd::prelude::*;

verus! {

/// The decimal digit `d` as a character.
pub open spec fn digit_char(d: nat) -> char {
    if d == 0 {
        '0'
    } else if d == 1 {
        '1'
    } else if d == 2 {
        '2'
    } else if d == 3 {
        '3'
    } else if d == 4 {
        '4'
    } else if d == 5 {
        '5'
    } else if d == 6 {
        '6'
    } else if d == 7 {
        '7'
    } else if d == 8 {
        '8'
    } else {
        '9'
    }
}

/// `n` written in decimal, without leading zeros.
pub open spec fn decimal_text(n: nat) -> Seq<char>
    decreases n,
{
    if n < 10 {
        seq![digit_char(n)]
    } else {
        decimal_text(n / 10).push(digit_char(n % 10))
    }
}

fn digit_str(d: usize) -> (s: &'static str)
    requires
        d < 10,
    ensures
        s@ == seq![digit_char(d as nat)],
{
    proof {
        reveal_strlit("0");
        reveal_strlit("1");
        reveal_strlit("2");
        reveal_strlit("3");
        reveal_strlit("4");
        reveal_strlit("5");
        reveal_strlit("6");
        reveal_strlit("7");
        reveal_strlit("8");
        reveal_strlit("9");
    }
    if d == 0 {
        "0"
    } else if d == 1 {
        "1"
    } else if d == 2 {
        "2"
    } else if d == 3 {
        "3"
    } else if d == 4 {
        "4"
    } else if d == 5 {
        "5"
    } else if d == 6 {
        "6"
    } else if d == 7 {
        "7"
    } else if d == 8 {
        "8"
    } else {
        "9"
    }
}

/// `n` written in decimal.
pub fn decimal_string(n: usize) -> (s: String)
    ensures
        s@ == decimal_text(n as nat),
    decreases n,
{
    if n < 10 {
        String::from_str(digit_str(n))
    } else {
        let mut s = decimal_string(n / 10);
        s.append(digit_str(n % 10));
        s
    }
}

/// The message for input that leaves `n` arrays or objects open.
pub open spec fn unclosed_message(n: nat) -> Seq<char> {
    "Unclosed containers: "@ + decimal_text(n) + " unclosed brackets"@
}

/// The shorter form of the same message.
pub open spec fn unclosed_count_message(n: nat) -> Seq<char> {
    "Unclosed containers: "@ + decimal_text(n)
}

/// The message for input that ends inside a string.
pub open spec fn unterminated_message() -> Seq<char> {
    "Unterminated string"@
}

/// The message for a repaired text that the JSON reader still refuses.
pub open spec fn invalid_message() -> Seq<char> {
    "Invalid JSON structure after repair"@
}

/// The shorter form of the same message.
pub open spec fn invalid_short_message() -> Seq<char> {
    "Invalid JSON after repair"@
}

pub fn unclosed_error(n: usize) -> (s: String)
    ensures
        s@ == unclosed_message(n as nat),
{
    let mut s = String::from_str("Unclosed containers: ");
    let digits = decimal_string(n);
    s.append(digits.as_str());
    s.append(" unclosed brackets");
    s
}

pub fn unclosed_count_error(n: usize) -> (s: String)
    ensures
        s@ == unclosed_count_message(n as nat),
{
    let mut s = String::from_str("Unclosed containers: ");
    let digits = decimal_string(n);
    s.append(digits.as_str());
    s
}

pub fn unterminated_error() -> (s: String)
    ensures
        s@ == unterminated_message(),
{
    String::from_str("Unterminated string")
}

pub fn invalid_error() -> (s: String)
    ensures
        s@ == invalid_message(),
{
    String::from_str("Invalid JSON structure after repair")
}

pub fn invalid_short_error() -> (s: String)
    ensures
        s@ == invalid_short_message(),
{
    String::from_str("Invalid JSON after repair")
}

} // verus!
