//! The inputs the benchmark repairs: broken JSON of a given size and kind.
use vstd::prelude::*;
use vstd::string::StringSliceAdditionalSpecFns;

verus! {

/// `n` in decimal, as ASCII digits.
pub open spec fn decimal_bytes(n: nat) -> Seq<u8>
    decreases n,
{
    if n < 10 {
        seq![(0x30 + n) as u8]
    } else {
        decimal_bytes(n / 10).push((0x30 + n % 10) as u8)
    }
}

/// The `i`-th entry of a list of counting numbers: `i`, preceded by a comma
/// unless it is the first.
pub open spec fn number_item(i: nat) -> Seq<u8> {
    if i > 0 {
        seq![0x2Cu8] + decimal_bytes(i)
    } else {
        decimal_bytes(i)
    }
}

/// `s` followed by the counting numbers from `i` on, comma separated, for as
/// long as the text is shorter than `limit`.
pub open spec fn numbers_until(s: Seq<u8>, i: nat, limit: nat) -> Seq<u8>
    decreases (if s.len() < limit {
        limit - s.len()
    } else {
        0
    }),
{
    if s.len() < limit {
        proof {
            lemma_decimal_nonempty(i);
        }
        numbers_until(s + number_item(i), i + 1, limit)
    } else {
        s
    }
}

/// `s` followed by copies of `unit` for as long as the text is shorter than
/// `limit`, and how many copies that took.
pub open spec fn repeat_until(s: Seq<u8>, unit: Seq<u8>, limit: nat) -> (Seq<u8>, nat)
    decreases (if s.len() < limit {
        limit - s.len()
    } else {
        0
    }),
{
    if s.len() < limit && unit.len() > 0 {
        let (t, k) = repeat_until(s + unit, unit, limit);
        (t, k + 1)
    } else {
        (s, 0)
    }
}

/// `n` copies of the byte `b`.
pub open spec fn copies(b: u8, n: nat) -> Seq<u8> {
    Seq::new(n, |_i: int| b)
}

/// The benchmark input of `kind` for about `size` bytes.
pub open spec fn test_data(size: nat, kind: Seq<char>) -> Seq<u8> {
    if kind == "trailing_comma"@ {
        numbers_until("{'items':[".spec_bytes(), 0, (size - 20) as nat) + "],}".spec_bytes()
    } else if kind == "single_quotes"@ {
        let (s, k) = repeat_until(
            "{'key':'value'".spec_bytes(),
            ",'nested':{'a':'b'".spec_bytes(),
            (size - 30) as nat,
        );
        s + copies(0x7Du8, k + 1) + seq![0x7Du8]
    } else if kind == "mixed"@ {
        repeat_until(
            "{'items':[1,2,3,],'name':'test'".spec_bytes(),
            ",'extra':{'a':[1,]}".spec_bytes(),
            (size - 50) as nat,
        ).0 + seq![0x7Du8]
    } else if kind == "valid"@ {
        numbers_until("{\"items\":[".spec_bytes(), 0, (size - 20) as nat) + "]}".spec_bytes()
    } else {
        Seq::empty()
    }
}

/// The lengths of the fixed pieces the inputs are built from.
pub proof fn lemma_piece_lengths()
    ensures
        "{'items':[".spec_bytes().len() == 10,
        "],}".spec_bytes().len() == 3,
        "{\"items\":[".spec_bytes().len() == 10,
        "]}".spec_bytes().len() == 2,
        "{'key':'value'".spec_bytes().len() == 14,
        ",'nested':{'a':'b'".spec_bytes().len() == 18,
        "{'items':[1,2,3,],'name':'test'".spec_bytes().len() == 31,
        ",'extra':{'a':[1,]}".spec_bytes().len() == 19,
        "trailing_comma"@ != "single_quotes"@,
        "trailing_comma"@ != "mixed"@,
        "trailing_comma"@ != "valid"@,
        "single_quotes"@ != "mixed"@,
        "single_quotes"@ != "valid"@,
        "mixed"@ != "valid"@,
{
    broadcast use vstd::string::group_string_axioms;

    reveal_strlit("{'items':[");
    reveal_strlit("],}");
    reveal_strlit("{\"items\":[");
    reveal_strlit("]}");
    reveal_strlit("{'key':'value'");
    reveal_strlit(",'nested':{'a':'b'");
    reveal_strlit("{'items':[1,2,3,],'name':'test'");
    reveal_strlit(",'extra':{'a':[1,]}");
    reveal_strlit("trailing_comma");
    reveal_strlit("single_quotes");
    reveal_strlit("mixed");
    reveal_strlit("valid");
    assert(vstd::string::is_ascii("{'items':["));
    assert(vstd::string::is_ascii("],}"));
    assert(vstd::string::is_ascii("{\"items\":["));
    assert(vstd::string::is_ascii("]}"));
    assert(vstd::string::is_ascii("{'key':'value'"));
    assert(vstd::string::is_ascii(",'nested':{'a':'b'"));
    assert(vstd::string::is_ascii("{'items':[1,2,3,],'name':'test'"));
    assert(vstd::string::is_ascii(",'extra':{'a':[1,]}"));
    assert("trailing_comma"@.len() != "single_quotes"@.len());
    assert("trailing_comma"@.len() != "mixed"@.len());
    assert("trailing_comma"@.len() != "valid"@.len());
    assert("single_quotes"@.len() != "mixed"@.len());
    assert("single_quotes"@.len() != "valid"@.len());
    assert("mixed"@[0] != "valid"@[0]);
}

/// Ten to the power `k`.
pub open spec fn pow10(k: nat) -> nat
    decreases k,
{
    if k == 0 {
        1
    } else {
        10 * pow10((k - 1) as nat)
    }
}

/// A number below `10^k` has at most `k` decimal digits.
pub proof fn lemma_decimal_len(n: nat, k: nat)
    requires
        k >= 1,
        n < pow10(k),
    ensures
        decimal_bytes(n).len() <= k,
    decreases k,
{
    if n >= 10 {
        let p = pow10((k - 1) as nat);
        assert(n / 10 < p) by (nonlinear_arith)
            requires
                n < 10 * p,
        ;
        if k == 1 {
            assert(pow10(1) == 10) by {
                reveal_with_fuel(pow10, 2);
            }
        } else {
            lemma_decimal_len(n / 10, (k - 1) as nat);
        }
    }
}

/// Repeating `unit` until the text reaches `limit` stops within one unit of it.
pub proof fn lemma_repeat_until_len(s: Seq<u8>, unit: Seq<u8>, limit: nat)
    requires
        unit.len() > 0,
    ensures
        s.len() >= limit ==> repeat_until(s, unit, limit) == (s, 0nat),
        s.len() < limit ==> limit <= repeat_until(s, unit, limit).0.len() < limit + unit.len(),
        repeat_until(s, unit, limit).1 <= repeat_until(s, unit, limit).0.len() - s.len(),
    decreases (if s.len() < limit {
        limit - s.len()
    } else {
        0
    }),
{
    if s.len() < limit {
        lemma_repeat_until_len(s + unit, unit, limit);
    }
}

/// Counting up until the text reaches `limit` stops within one entry of it;
/// an entry has at most 21 bytes while the count stays below `10^20`.
pub proof fn lemma_numbers_until_len(s: Seq<u8>, i: nat, limit: nat)
    requires
        s.len() < limit ==> i + limit - s.len() < pow10(20),
    ensures
        s.len() >= limit ==> numbers_until(s, i, limit) == s,
        s.len() < limit ==> limit <= numbers_until(s, i, limit).len() < limit + 21,
    decreases (if s.len() < limit {
        limit - s.len()
    } else {
        0
    }),
{
    if s.len() < limit {
        lemma_decimal_nonempty(i);
        lemma_decimal_len(i, 20);
        lemma_numbers_until_len(s + number_item(i), i + 1, limit);
    }
}

/// Law: the generated input has about `size` bytes. Each kind fills its
/// list until the text reaches `size` less room for its closing (20, 30 or
/// 50 bytes) and overshoots by at most one entry; a size too small to hold
/// any entry gives just the opening and closing.
pub proof fn lemma_test_data_size(size: usize)
    ensures
        size >= 20 ==> ({
            let limit = size - 20;
            let len = test_data(size as nat, "trailing_comma"@).len();
            if limit <= 10 {
                len == 13
            } else {
                limit + 3 <= len < limit + 24
            }
        }),
        size >= 20 ==> ({
            let limit = size - 20;
            let len = test_data(size as nat, "valid"@).len();
            if limit <= 10 {
                len == 12
            } else {
                limit + 2 <= len < limit + 23
            }
        }),
        size >= 30 ==> ({
            let limit = size - 30;
            let len = test_data(size as nat, "single_quotes"@).len();
            if limit <= 14 {
                len == 16
            } else {
                limit + 2 <= len < 2 * limit + 24
            }
        }),
        size >= 50 ==> ({
            let limit = size - 50;
            let len = test_data(size as nat, "mixed"@).len();
            if limit <= 31 {
                len == 32
            } else {
                limit + 1 <= len < limit + 20
            }
        }),
{
    lemma_piece_lengths();
    assert(pow10(20) == 100000000000000000000nat) by {
        reveal_with_fuel(pow10, 21);
    }
    if size >= 20 {
        let limit = (size - 20) as nat;
        lemma_numbers_until_len("{'items':[".spec_bytes(), 0, limit);
        lemma_numbers_until_len("{\"items\":[".spec_bytes(), 0, limit);
    }
    if size >= 30 {
        lemma_repeat_until_len(
            "{'key':'value'".spec_bytes(),
            ",'nested':{'a':'b'".spec_bytes(),
            (size - 30) as nat,
        );
    }
    if size >= 50 {
        lemma_repeat_until_len(
            "{'items':[1,2,3,],'name':'test'".spec_bytes(),
            ",'extra':{'a':[1,]}".spec_bytes(),
            (size - 50) as nat,
        );
    }
}

pub proof fn lemma_decimal_nonempty(n: nat)
    ensures
        decimal_bytes(n).len() > 0,
    decreases n,
{
    if n >= 10 {
        lemma_decimal_nonempty(n / 10);
    }
}

/// Compares two strings (`str: PartialEq`). Trusted: equal exactly when
/// they hold the same characters.
#[verifier::external_body]
fn same_text(a: &str, b: &str) -> (r: bool)
    ensures
        r == (a@ == b@),
{
    a == b
}

/// Appends `bytes` to `out`.
pub fn append_bytes(out: &mut Vec<u8>, bytes: &[u8])
    ensures
        final(out)@ == old(out)@ + bytes@,
{
    let mut i: usize = 0;
    while i < bytes.len()
        invariant
            i <= bytes.len(),
            out@ == old(out)@ + bytes@.take(i as int),
        decreases bytes.len() - i,
    {
        out.push(bytes[i]);
        i = i + 1;
        assert(out@ =~= old(out)@ + bytes@.take(i as int));
    }
    assert(bytes@.take(i as int) =~= bytes@);
}

/// Appends `n` in decimal to `out`.
pub fn append_decimal(out: &mut Vec<u8>, n: usize)
    ensures
        final(out)@ == old(out)@ + decimal_bytes(n as nat),
    decreases n,
{
    if n >= 10 {
        append_decimal(out, n / 10);
    }
    let digit: u8 = (n % 10) as u8;
    out.push(0x30u8 + digit);
    proof {
        if n >= 10 {
            assert(decimal_bytes(n as nat) == decimal_bytes((n / 10) as nat).push(
                (0x30 + n % 10) as u8,
            ));
        }
    }
    assert(final(out)@ =~= old(out)@ + decimal_bytes(n as nat));
}

fn append_numbers(out: &mut Vec<u8>, limit: usize)
    ensures
        final(out)@ == numbers_until(old(out)@, 0, limit as nat),
{
    let mut i: usize = 0;
    while out.len() < limit
        invariant
            i <= out@.len(),
            numbers_until(out@, i as nat, limit as nat) == numbers_until(
                old(out)@,
                0,
                limit as nat,
            ),
        decreases (if out@.len() < limit {
            limit - out@.len()
        } else {
            0
        }),
    {
        let ghost before = out@;
        proof {
            lemma_decimal_nonempty(i as nat);
        }
        if i > 0 {
            out.push(0x2Cu8);
        }
        append_decimal(out, i);
        assert(out@ =~= before + number_item(i as nat));
        i = i + 1;
    }
}

fn append_repeated(out: &mut Vec<u8>, unit: &[u8], limit: usize) -> (count: usize)
    requires
        unit@.len() > 0,
    ensures
        (final(out)@, count as nat) == repeat_until(old(out)@, unit@, limit as nat),
{
    let mut count: usize = 0;
    while out.len() < limit
        invariant
            unit@.len() > 0,
            count <= out@.len(),
            ({
                let (t, k) = repeat_until(out@, unit@, limit as nat);
                (t, (k + count) as nat) == repeat_until(old(out)@, unit@, limit as nat)
            }),
        decreases (if out@.len() < limit {
            limit - out@.len()
        } else {
            0
        }),
    {
        append_bytes(out, unit);
        count = count + 1;
    }
    count
}

/// Builds the benchmark input of the kind named by `error_type`
/// (`trailing_comma`, `single_quotes`, `mixed` or `valid`; any other name
/// gives no bytes) for about `size` bytes.
pub fn generate_test_data(size: usize, error_type: &str) -> (r: Vec<u8>)
    requires
        (error_type@ == "trailing_comma"@ || error_type@ == "valid"@) ==> size >= 20,
        error_type@ == "single_quotes"@ ==> size >= 30,
        error_type@ == "mixed"@ ==> size >= 50,
    ensures
        r@ == test_data(size as nat, error_type@),
{
    let mut s: Vec<u8> = Vec::with_capacity(size);
    if same_text(error_type, "trailing_comma") {
        append_bytes(&mut s, "{'items':[".as_bytes());
        append_numbers(&mut s, size - 20);
        append_bytes(&mut s, "],}".as_bytes());
    } else if same_text(error_type, "single_quotes") {
        append_bytes(&mut s, "{'key':'value'".as_bytes());
        let unit = ",'nested':{'a':'b'".as_bytes();
        proof {
            reveal_strlit(",'nested':{'a':'b'");
        }
        let nested = append_repeated(&mut s, unit, size - 30);
        let ghost body = s@;
        let mut j: usize = 0;
        while j < nested
            invariant
                j <= nested,
                s@ == body + copies(0x7Du8, j as nat),
            decreases nested - j,
        {
            s.push(0x7Du8);
            j = j + 1;
            assert(s@ =~= body + copies(0x7Du8, j as nat));
        }
        s.push(0x7Du8);
        s.push(0x7Du8);
        assert(s@ =~= body + copies(0x7Du8, (nested + 1) as nat) + seq![0x7Du8]);
    } else if same_text(error_type, "mixed") {
        append_bytes(&mut s, "{'items':[1,2,3,],'name':'test'".as_bytes());
        let unit = ",'extra':{'a':[1,]}".as_bytes();
        proof {
            reveal_strlit(",'extra':{'a':[1,]}");
        }
        append_repeated(&mut s, unit, size - 50);
        s.push(0x7Du8);
    } else if same_text(error_type, "valid") {
        append_bytes(&mut s, "{\"items\":[".as_bytes());
        append_numbers(&mut s, size - 20);
        append_bytes(&mut s, "]}".as_bytes());
    }
    s
}

} // verus!
