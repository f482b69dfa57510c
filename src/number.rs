use vstd::prelude::*;
use crate::chars::{is_digit, is_sign};
use crate::grammar::{after_sign, digits_end, num_span_end, scan, ws, ws_end};

verus! {

pub open spec fn digit_char(d: nat) -> char {
    if d == 0 {
        '0'
    } else if d == 1 {
        '1'
    } else if d == 2 {
        '2'
    } else if d == 3 {
        '3'
    } else if d == 4 {
        '4'
    } else if d == 5 {
        '5'
    } else if d == 6 {
        '6'
    } else if d == 7 {
        '7'
    } else if d == 8 {
        '8'
    } else {
        '9'
    }
}

/// The decimal digits of `n`, most significant first, without leading zeros.
pub open spec fn digits_of(n: nat) -> Seq<char>
    decreases n,
{
    if n < 10 {
        seq![digit_char(n)]
    } else {
        digits_of(n / 10).push(digit_char(n % 10))
    }
}

/// The canonical decimal form of an integer: `-` before negative values.
pub open spec fn decimal(v: int) -> Seq<char> {
    if v < 0 {
        seq!['-'] + digits_of((-v) as nat)
    } else {
        digits_of(v as nat)
    }
}

/// The value of a run of decimal digits.
pub open spec fn digits_value(t: Seq<char>) -> int
    decreases t.len(),
{
    if t.len() == 0 {
        0
    } else {
        digits_value(t.drop_last()) * 10 + (t.last() as int - '0' as int)
    }
}

/// The integer that an optional sign and one or more decimal digits spell,
/// when it fits an `i64`.
pub open spec fn int_value(t: Seq<char>) -> Option<int> {
    let body = if t.len() > 0 && is_sign(t[0]) {
        t.subrange(1, t.len() as int)
    } else {
        t
    };
    let v = if t.len() > 0 && t[0] == '-' {
        -digits_value(body)
    } else {
        digits_value(body)
    };
    if body.len() > 0 && (forall|j: int| 0 <= j < body.len() ==> is_digit(#[trigger] body[j]))
        && i64::MIN <= v <= i64::MAX {
        Some(v)
    } else {
        None
    }
}

/// Relies on `str::parse::<i64>`: an optional `+` or `-` and decimal digits,
/// nothing else, and a value in range; `None` otherwise.
#[verifier::external_body]
pub(crate) fn int_of(t: String) -> (r: Option<i64>)
    ensures
        r is Some <==> int_value(t@) is Some,
        r matches Some(n) ==> int_value(t@) == Some(n as int),
{
    t.parse::<i64>().ok()
}

proof fn lemma_digit_char(d: nat)
    requires
        d < 10,
    ensures
        is_digit(digit_char(d)),
        digit_char(d) as int - '0' as int == d,
{
}

proof fn lemma_digits_of(n: nat)
    ensures
        digits_of(n).len() > 0,
        forall|j: int| 0 <= j < digits_of(n).len() ==> is_digit(#[trigger] digits_of(n)[j]),
        digits_value(digits_of(n)) == n,
    decreases n,
{
    if n < 10 {
        lemma_digit_char(n);
        assert(digits_of(n).drop_last() =~= Seq::<char>::empty());
        assert(digits_value(Seq::<char>::empty()) == 0);
    } else {
        lemma_digits_of(n / 10);
        lemma_digit_char(n % 10);
        assert(digits_of(n).drop_last() =~= digits_of(n / 10));
        assert(digits_of(n).last() == digit_char(n % 10));
        assert(n == (n / 10) * 10 + n % 10) by (nonlinear_arith);
    }
}

proof fn lemma_scan_to_end(s: Seq<char>, i: int)
    requires
        0 <= i <= s.len(),
        forall|j: int| i <= j < s.len() ==> is_digit(#[trigger] s[j]),
    ensures
        digits_end(s, i) == s.len(),
    decreases s.len() - i,
{
    if i < s.len() {
        lemma_scan_to_end(s, i + 1);
    }
}

/// Formatting an `i64` and parsing it back as an integer gives the same value:
/// over the canonical decimal form of `v`, no whitespace is skipped, the
/// numeric literal spans the whole text, and its value is `v`.
pub proof fn lemma_int_round_trip(v: i64)
    ensures
        ({
            let s = decimal(v as int);
            let d = after_sign(s, ws_end(s, 0));
            &&& ws_end(s, 0) == 0
            &&& d < s.len()
            &&& num_span_end(s, d, false) == s.len()
            &&& int_value(s.subrange(0, s.len() as int)) == Some(v as int)
        }),
{
    let s = decimal(v as int);
    let n: nat = if v < 0 {
        (-v) as nat
    } else {
        v as nat
    };
    lemma_digits_of(n);
    let digits = digits_of(n);
    assert(s.subrange(0, s.len() as int) =~= s);
    assert(!ws(s[0]));
    assert(ws_end(s, 0) == 0);
    if v < 0 {
        assert(s.subrange(1, s.len() as int) =~= digits);
        lemma_scan_to_end(s, 1);
    } else {
        lemma_scan_to_end(s, 0);
    }
}

} // verus!
