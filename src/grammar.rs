use vstd::prelude::*;
use crate::chars::{alphanumeric_of, is_digit, is_sign, same_letter, whitespace_of};

verus! {

/// The end of the longest run of characters satisfying `p` that starts at `i`.
pub open spec fn scan(s: Seq<char>, i: int, p: spec_fn(char) -> bool) -> int
    decreases s.len() - i,
{
    if i < 0 || i >= s.len() || !p(s[i]) {
        i
    } else {
        scan(s, i + 1, p)
    }
}

pub open spec fn ws(c: char) -> bool {
    whitespace_of(c)
}

pub open spec fn alnum(c: char) -> bool {
    alphanumeric_of(c)
}

pub open spec fn digit(c: char) -> bool {
    is_digit(c)
}

/// Past the whitespace that starts at `i`.
pub open spec fn ws_end(s: Seq<char>, i: int) -> int {
    scan(s, i, |c: char| ws(c))
}

/// Past the alphanumeric run that starts at `i`.
pub open spec fn word_end(s: Seq<char>, i: int) -> int {
    scan(s, i, |c: char| alnum(c))
}

/// Past the ASCII digits that start at `i`.
pub open spec fn digits_end(s: Seq<char>, i: int) -> int {
    scan(s, i, |c: char| digit(c))
}

/// The first occurrence of `q` at or after `i`, or the length when there is none.
pub open spec fn find(s: Seq<char>, i: int, q: char) -> int
    decreases s.len() - i,
{
    if i < 0 || i >= s.len() || s[i] == q {
        i
    } else {
        find(s, i + 1, q)
    }
}

pub proof fn lemma_scan(s: Seq<char>, i: int, p: spec_fn(char) -> bool)
    requires
        0 <= i <= s.len(),
    ensures
        i <= scan(s, i, p) <= s.len(),
        forall|k: int| i <= k < scan(s, i, p) ==> p(#[trigger] s[k]),
        scan(s, i, p) < s.len() ==> !p(s[scan(s, i, p)]),
    decreases s.len() - i,
{
    if i < s.len() && p(s[i]) {
        lemma_scan(s, i + 1, p);
    }
}

pub proof fn lemma_ws_end(s: Seq<char>, i: int)
    requires
        0 <= i <= s.len(),
    ensures
        i <= ws_end(s, i) <= s.len(),
        ws_end(s, i) < s.len() ==> !ws(s[ws_end(s, i)]),
{
    lemma_scan(s, i, |c: char| ws(c));
}

pub proof fn lemma_word_end(s: Seq<char>, i: int)
    requires
        0 <= i <= s.len(),
    ensures
        i <= word_end(s, i) <= s.len(),
{
    lemma_scan(s, i, |c: char| alnum(c));
}

pub proof fn lemma_digits_end(s: Seq<char>, i: int)
    requires
        0 <= i <= s.len(),
    ensures
        i <= digits_end(s, i) <= s.len(),
{
    lemma_scan(s, i, |c: char| digit(c));
}

pub proof fn lemma_find(s: Seq<char>, i: int, q: char)
    requires
        0 <= i <= s.len(),
    ensures
        i <= find(s, i, q) <= s.len(),
        find(s, i, q) < s.len() ==> s[find(s, i, q)] == q,
    decreases s.len() - i,
{
    if i < s.len() && s[i] != q {
        lemma_find(s, i + 1, q);
    }
}

/// The bracket that closes `o`, for the four opening brackets.
pub open spec fn closing(o: char) -> Option<char> {
    if o == '(' {
        Some(')')
    } else if o == '[' {
        Some(']')
    } else if o == '{' {
        Some('}')
    } else if o == '<' {
        Some('>')
    } else {
        None
    }
}

/// Where the bracket pair `o`/`c` that is `depth` levels open at `i` closes,
/// counting nested pairs of the same kind; the length when it never does.
pub open spec fn close_at(s: Seq<char>, i: int, o: char, c: char, depth: nat) -> int
    decreases s.len() - i,
{
    if i < 0 || i >= s.len() {
        s.len() as int
    } else if s[i] == c {
        if depth <= 1 {
            i
        } else {
            close_at(s, i + 1, o, c, (depth - 1) as nat)
        }
    } else if s[i] == o {
        close_at(s, i + 1, o, c, depth + 1)
    } else {
        close_at(s, i + 1, o, c, depth)
    }
}

/// `w` spells `INF`, `INFINITY` or `NAN`, in any mix of cases.
pub open spec fn special_float_word(w: Seq<char>) -> bool {
    ||| (w.len() == 3 && same_letter(w[0], 'I') && same_letter(w[1], 'N') && same_letter(w[2], 'F'))
    ||| (w.len() == 3 && same_letter(w[0], 'N') && same_letter(w[1], 'A') && same_letter(w[2], 'N'))
    ||| (w.len() == 8 && same_letter(w[0], 'I') && same_letter(w[1], 'N') && same_letter(w[2], 'F')
        && same_letter(w[3], 'I') && same_letter(w[4], 'N') && same_letter(w[5], 'I')
        && same_letter(w[6], 'T') && same_letter(w[7], 'Y'))
}

/// The first letters of the special float literals.
pub open spec fn special_start(c: char) -> bool {
    c == 'i' || c == 'I' || c == 'n' || c == 'N'
}

/// Past an optional sign at `i`.
pub open spec fn after_sign(s: Seq<char>, i: int) -> int {
    if 0 <= i < s.len() && is_sign(s[i]) {
        i + 1
    } else {
        i
    }
}

/// For a float target: past an optional `.` and digits that follow the integer part ending at `i`.
pub open spec fn fraction_end(s: Seq<char>, i: int) -> int {
    if 0 <= i < s.len() && s[i] == '.' {
        digits_end(s, i + 1)
    } else {
        i
    }
}

/// For a float target: past an optional exponent (`e` or `E`, sign, digits) at `i`.
pub open spec fn exponent_end(s: Seq<char>, i: int) -> int {
    if 0 <= i < s.len() && (s[i] == 'e' || s[i] == 'E') {
        digits_end(s, after_sign(s, i + 1))
    } else {
        i
    }
}

/// The end of the plain numeric literal whose digits start at `i` (after the sign).
pub open spec fn number_end(s: Seq<char>, i: int, is_float: bool) -> int {
    if is_float {
        exponent_end(s, fraction_end(s, digits_end(s, i)))
    } else {
        digits_end(s, i)
    }
}

/// Where the span of a numeric literal whose sign part ends at `d` stops.
pub open spec fn num_span_end(s: Seq<char>, d: int, is_float: bool) -> int {
    if is_float && 0 <= d < s.len() && special_start(s[d]) {
        word_end(s, d)
    } else {
        number_end(s, d, is_float)
    }
}

/// A word that starts like a special float literal but is none of them.
pub open spec fn bad_special(s: Seq<char>, d: int, is_float: bool) -> bool {
    is_float && 0 <= d < s.len() && special_start(s[d]) && !special_float_word(
        s.subrange(d, word_end(s, d)),
    )
}

pub open spec fn is_quote(c: char) -> bool {
    c == '\'' || c == '"'
}

/// How a literal match of `v` at position `w` of `s` comes out.
pub enum MatchOutcome {
    Matched,
    Mismatched,
    RanOut,
}

pub open spec fn match_outcome(s: Seq<char>, w: int, v: Seq<char>) -> MatchOutcome {
    let m = if v.len() <= s.len() - w { v.len() as int } else { s.len() - w };
    if s.subrange(w, w + m) != v.subrange(0, m) {
        MatchOutcome::Mismatched
    } else if m == v.len() {
        MatchOutcome::Matched
    } else {
        MatchOutcome::RanOut
    }
}

} // verus!
