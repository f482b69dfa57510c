use vstd::prelude::*;
use crate::chars::{
    chars_of, decimal_string, digit, is_alnum, is_ws, letter,
};
use crate::cursor::{at, cursor_ok, Cursor};
use crate::error::{ErrorKind, ParseError};
use crate::grammar::{
    after_sign, alnum, bad_special, close_at, closing, digits_end, find, is_quote, lemma_digits_end,
    lemma_find, lemma_word_end, lemma_ws_end, match_outcome, num_span_end, number_end,
    special_float_word, word_end, ws_end, MatchOutcome,
};
use crate::number::{decimal, int_of, int_value};

verus! {

/// `r` is an error of kind `k`.
pub open spec fn fails_with<T>(r: Result<T, ParseError>, k: ErrorKind) -> bool {
    r matches Err(e) && e.kind == k
}

/// `b` is the cursor `a`, text, committed position and lookahead alike.
pub open spec fn same_cursor<C: Cursor>(a: &C, b: &C) -> bool {
    a.text() == b.text() && a.committed() == b.committed() && a.lookahead() == b.lookahead()
}

/// `b` is `a` committed up to index `pos`, with no lookahead left.
pub open spec fn committed_to<C: Cursor>(a: &C, b: &C, pos: int) -> bool {
    b.text() == a.text() && b.committed() == pos && b.lookahead() == 0
}

/// `b` is `a` with its lookahead rolled back.
pub open spec fn rolled_back<C: Cursor>(a: &C, b: &C) -> bool {
    committed_to(a, b, a.committed() as int)
}

/// A failure `r` leaves the committed position of `a` where it was.
pub open spec fn keeps_position_on_error<C: Cursor, T>(a: &C, b: &C, r: Result<T, ParseError>) -> bool {
    r is Err ==> b.text() == a.text() && b.committed() == a.committed()
}

/// A failure `r` carries `label` as its outermost breadcrumb.
pub open spec fn labelled<T>(r: Result<T, ParseError>, label: Seq<char>) -> bool {
    r matches Err(e) ==> e.breadcrumbs().len() > 0 && e.breadcrumbs().last() == label
}

/// A failure `r` carries exactly the breadcrumbs `labels`, innermost first.
pub open spec fn carries<T>(r: Result<T, ParseError>, labels: Seq<Seq<char>>) -> bool {
    r matches Err(e) ==> e.breadcrumbs() == labels
}

/// How `match_str` on the literal `v` takes the cursor from `a` to `b` with result `r`.
pub open spec fn literal_match<C: Cursor>(a: &C, b: &C, v: Seq<char>, r: Result<bool, ParseError>) -> bool {
    let s = a.text();
    let w = ws_end(s, a.committed() as int);
    if a.lookahead() != 0 {
        fails_with(r, ErrorKind::Generic) && same_cursor(a, b)
    } else if v.len() == 0 {
        fails_with(r, ErrorKind::Empty) && same_cursor(a, b)
    } else {
        match match_outcome(s, w, v) {
            MatchOutcome::Matched => r == Ok::<bool, ParseError>(true) && committed_to(a, b, w + v.len()),
            MatchOutcome::Mismatched => r == Ok::<bool, ParseError>(false) && same_cursor(a, b),
            MatchOutcome::RanOut => fails_with(r, ErrorKind::Empty) && same_cursor(a, b),
        }
    }
}

/// The lexical primitives. Those named `parse_*`, `match_*` and `consume_whitespace`
/// need a fresh cursor (no lookahead) and fail with `Generic` otherwise; each of
/// them commits what it read on success and leaves the cursor as it was on failure.
pub trait CommonParserFunctions: Cursor {
    /// Moves the lookahead past the whitespace ahead, without committing.
    fn skip_whitespace(&mut self) -> (r: Result<(), ParseError>)
        requires
            cursor_ok(old(self)),
        ensures
            r is Ok,
            cursor_ok(final(self)),
            final(self).text() == old(self).text(),
            final(self).committed() == old(self).committed(),
            at(final(self)) == ws_end(old(self).text(), at(old(self))),
    ;

    /// Commits the whitespace ahead.
    fn consume_whitespace(&mut self) -> (r: Result<(), ParseError>)
        requires
            cursor_ok(old(self)),
        ensures
            cursor_ok(final(self)),
            keeps_position_on_error(old(self), final(self), r),
            labelled(r, "could not consume whitespace"@),
            old(self).lookahead() != 0 ==> fails_with(r, ErrorKind::Generic) && same_cursor(
                old(self),
                final(self),
            ),
            old(self).lookahead() == 0 ==> r is Ok && committed_to(
                old(self),
                final(self),
                ws_end(old(self).text(), old(self).committed() as int),
            ),
    ;

    /// Reads the alphanumeric run that follows the whitespace ahead, leaving the
    /// lookahead past it, uncommitted. The run may be empty; only the end of the
    /// input fails (`Empty`), with the lookahead rolled back.
    fn read_word(&mut self) -> (r: Result<String, ParseError>)
        requires
            cursor_ok(old(self)),
        ensures
            cursor_ok(final(self)),
            keeps_position_on_error(old(self), final(self), r),
            labelled(r, "could not read word"@),
            ({
                let s = old(self).text();
                let w = ws_end(s, at(old(self)));
                &&& w == s.len() ==> fails_with(r, ErrorKind::Empty) && rolled_back(
                    old(self),
                    final(self),
                ) && carries(r, seq!["could not read word"@])
                &&& w < s.len() ==> (r matches Ok(t) && t@ == s.subrange(w, word_end(s, w))
                    && final(self).text() == s && final(self).committed() == old(self).committed()
                    && at(final(self)) == word_end(s, w))
            }),
    ;

    /// Reads a word, as `read_word`, and commits it with the whitespace before it.
    fn parse_word(&mut self) -> (r: Result<String, ParseError>)
        requires
            cursor_ok(old(self)),
        ensures
            cursor_ok(final(self)),
            keeps_position_on_error(old(self), final(self), r),
            labelled(r, "could not parse word"@),
            old(self).lookahead() != 0 ==> fails_with(r, ErrorKind::Generic) && same_cursor(
                old(self),
                final(self),
            ) && carries(r, seq!["could not parse word"@]),
            old(self).lookahead() == 0 ==> ({
                let s = old(self).text();
                let w = ws_end(s, old(self).committed() as int);
                &&& w == s.len() ==> fails_with(r, ErrorKind::Empty) && same_cursor(
                    old(self),
                    final(self),
                ) && carries(r, seq!["could not read word"@, "could not parse word"@])
                &&& w < s.len() ==> (r matches Ok(t) && t@ == s.subrange(w, word_end(s, w))
                    && committed_to(old(self), final(self), word_end(s, w)))
            }),
    ;
    /// Parses a string: the characters between a pair of `'` or `"` delimiters
    /// (no escapes), or else a bare word as `parse_word` reads it. A quoted
    /// string is committed with both delimiters.
    fn parse_string(&mut self) -> (r: Result<String, ParseError>)
        requires
            cursor_ok(old(self)),
        ensures
            cursor_ok(final(self)),
            keeps_position_on_error(old(self), final(self), r),
            labelled(r, "could not parse string"@),
            old(self).lookahead() != 0 ==> fails_with(r, ErrorKind::Generic) && same_cursor(
                old(self),
                final(self),
            ),
            old(self).lookahead() == 0 ==> ({
                let s = old(self).text();
                let w = ws_end(s, old(self).committed() as int);
                let k = find(s, w + 1, s[w]);
                &&& w == s.len() ==> fails_with(r, ErrorKind::Empty) && same_cursor(
                    old(self),
                    final(self),
                )
                &&& w < s.len() && is_quote(s[w]) && k == s.len() ==> fails_with(
                    r,
                    ErrorKind::Empty,
                ) && same_cursor(old(self), final(self))
                &&& w < s.len() && is_quote(s[w]) && k < s.len() ==> (r matches Ok(t) && t@
                    == s.subrange(w + 1, k) && committed_to(old(self), final(self), k + 1))
                &&& w < s.len() && !is_quote(s[w]) ==> (r matches Ok(t) && t@ == s.subrange(
                    w,
                    word_end(s, w),
                ) && committed_to(old(self), final(self), word_end(s, w)))
            }),
    ;

    /// Parses a bracketed span opened by one of `(`, `[`, `{`, `<` and closed by
    /// its partner, and returns what lies between the two. Nested pairs of the
    /// same kind are counted, so the span ends at the partner of the opening
    /// bracket, not at the first closing one.
    fn parse_brackets(&mut self) -> (r: Result<String, ParseError>)
        requires
            cursor_ok(old(self)),
        ensures
            cursor_ok(final(self)),
            keeps_position_on_error(old(self), final(self), r),
            labelled(r, "could not parse brackets"@),
            old(self).lookahead() != 0 ==> fails_with(r, ErrorKind::Generic) && same_cursor(
                old(self),
                final(self),
            ),
            old(self).lookahead() == 0 ==> ({
                let s = old(self).text();
                let w = ws_end(s, old(self).committed() as int);
                let k = close_at(s, w + 1, s[w], closing(s[w])->Some_0, 1);
                &&& w == s.len() ==> fails_with(r, ErrorKind::Empty) && same_cursor(
                    old(self),
                    final(self),
                )
                &&& w < s.len() && closing(s[w]) is None ==> fails_with(r, ErrorKind::Unexpected)
                    && same_cursor(old(self), final(self))
                &&& w < s.len() && closing(s[w]) is Some && k == s.len() ==> fails_with(
                    r,
                    ErrorKind::Empty,
                ) && same_cursor(old(self), final(self))
                &&& w < s.len() && closing(s[w]) is Some && k < s.len() ==> (r matches Ok(t)
                    && t@ == s.subrange(w + 1, k) && committed_to(old(self), final(self), k + 1))
            }),
    ;

    /// Parses a numeric literal: an optional sign, then digits; for a float
    /// target (`is_float`) also an optional fraction and exponent, or one of the
    /// words `inf`, `infinity`, `nan` in any case. The span, sign included, is
    /// handed to `convert`; a `None` from it fails with `Generic`.
    fn parse_num<N, F: Fn(String) -> Option<N>>(&mut self, is_float: bool, convert: F) -> (r:
        Result<N, ParseError>)
        requires
            cursor_ok(old(self)),
            forall|t: String| convert.requires((t,)),
        ensures
            cursor_ok(final(self)),
            keeps_position_on_error(old(self), final(self), r),
            labelled(r, "could not parse num"@),
            old(self).lookahead() != 0 ==> fails_with(r, ErrorKind::Generic) && same_cursor(
                old(self),
                final(self),
            ),
            old(self).lookahead() == 0 ==> ({
                let s = old(self).text();
                let w = ws_end(s, old(self).committed() as int);
                let d = after_sign(s, w);
                let e = num_span_end(s, d, is_float);
                &&& d == s.len() ==> fails_with(r, ErrorKind::Empty) && same_cursor(
                    old(self),
                    final(self),
                )
                &&& d < s.len() && bad_special(s, d, is_float) ==> fails_with(
                    r,
                    ErrorKind::Generic,
                ) && same_cursor(old(self), final(self))
                &&& d < s.len() && !bad_special(s, d, is_float) ==> ({
                    &&& r matches Ok(v) ==> committed_to(old(self), final(self), e) && exists|
                        t: String,
                    |
                        t@ == s.subrange(w, e) && convert.ensures((t,), Some(v))
                    &&& r is Err ==> fails_with(r, ErrorKind::Generic) && same_cursor(
                        old(self),
                        final(self),
                    ) && exists|t: String|
                        t@ == s.subrange(w, e) && convert.ensures((t,), None::<N>)
                })
            }),
    ;

    /// Parses an integer literal into an `i64`: `parse_num` for an integer
    /// target, with the conversion of `str::parse::<i64>`.
    fn parse_int(&mut self) -> (r: Result<i64, ParseError>)
        requires
            cursor_ok(old(self)),
        ensures
            cursor_ok(final(self)),
            keeps_position_on_error(old(self), final(self), r),
            labelled(r, "could not parse num"@),
            old(self).lookahead() != 0 ==> fails_with(r, ErrorKind::Generic) && same_cursor(
                old(self),
                final(self),
            ),
            old(self).lookahead() == 0 ==> ({
                let s = old(self).text();
                let w = ws_end(s, old(self).committed() as int);
                let d = after_sign(s, w);
                let e = num_span_end(s, d, false);
                &&& d == s.len() ==> fails_with(r, ErrorKind::Empty) && same_cursor(
                    old(self),
                    final(self),
                )
                &&& d < s.len() && int_value(s.subrange(w, e)) is None ==> fails_with(
                    r,
                    ErrorKind::Generic,
                ) && same_cursor(old(self), final(self))
                &&& d < s.len() && int_value(s.subrange(w, e)) is Some ==> r == Ok::<
                    i64,
                    ParseError,
                >(int_value(s.subrange(w, e))->Some_0 as i64) && committed_to(
                    old(self),
                    final(self),
                    e,
                )
            }),
    ;

    /// Reads a symbol, a character that is neither whitespace nor
    /// alphanumeric, after the whitespace ahead, leaving the lookahead past it,
    /// uncommitted. On failure the lookahead is rolled back.
    fn read_symbol(&mut self) -> (r: Result<char, ParseError>)
        requires
            cursor_ok(old(self)),
        ensures
            cursor_ok(final(self)),
            keeps_position_on_error(old(self), final(self), r),
            labelled(r, "could not read symbol"@),
            ({
                let s = old(self).text();
                let w = ws_end(s, at(old(self)));
                &&& w == s.len() ==> fails_with(r, ErrorKind::Empty) && rolled_back(
                    old(self),
                    final(self),
                ) && carries(r, seq!["could not read symbol"@])
                &&& w < s.len() && alnum(s[w]) ==> fails_with(r, ErrorKind::Generic)
                    && rolled_back(old(self), final(self)) && carries(
                    r,
                    seq!["could not read symbol"@],
                )
                &&& w < s.len() && !alnum(s[w]) ==> r == Ok::<char, ParseError>(s[w])
                    && final(self).text() == s && final(self).committed() == old(self).committed()
                    && at(final(self)) == w + 1
            }),
    ;

    /// Parses a symbol, as `read_symbol`, and commits it.
    fn parse_symbol(&mut self) -> (r: Result<char, ParseError>)
        requires
            cursor_ok(old(self)),
        ensures
            cursor_ok(final(self)),
            keeps_position_on_error(old(self), final(self), r),
            labelled(r, "could not parse symbol"@),
            old(self).lookahead() != 0 ==> fails_with(r, ErrorKind::Generic) && same_cursor(
                old(self),
                final(self),
            ) && carries(r, seq!["could not parse symbol"@]),
            old(self).lookahead() == 0 ==> ({
                let s = old(self).text();
                let w = ws_end(s, old(self).committed() as int);
                &&& w == s.len() ==> fails_with(r, ErrorKind::Empty) && same_cursor(
                    old(self),
                    final(self),
                ) && carries(r, seq!["could not read symbol"@, "could not parse symbol"@])
                &&& w < s.len() && alnum(s[w]) ==> fails_with(r, ErrorKind::Generic)
                    && same_cursor(old(self), final(self)) && carries(
                    r,
                    seq!["could not read symbol"@, "could not parse symbol"@],
                )
                &&& w < s.len() && !alnum(s[w]) ==> r == Ok::<char, ParseError>(s[w])
                    && committed_to(old(self), final(self), w + 1)
            }),
    ;

    /// Tells whether `val` comes next after the whitespace ahead, and commits it
    /// if so; a mismatch leaves the cursor as it was.
    fn match_char(&mut self, val: char) -> (r: Result<bool, ParseError>)
        requires
            cursor_ok(old(self)),
        ensures
            cursor_ok(final(self)),
            keeps_position_on_error(old(self), final(self), r),
            labelled(r, "could not match char"@),
            old(self).lookahead() != 0 ==> fails_with(r, ErrorKind::Generic) && same_cursor(
                old(self),
                final(self),
            ),
            old(self).lookahead() == 0 ==> ({
                let s = old(self).text();
                let w = ws_end(s, old(self).committed() as int);
                &&& w == s.len() ==> fails_with(r, ErrorKind::Empty) && same_cursor(
                    old(self),
                    final(self),
                )
                &&& w < s.len() && s[w] == val ==> r == Ok::<bool, ParseError>(true)
                    && committed_to(old(self), final(self), w + 1)
                &&& w < s.len() && s[w] != val ==> r == Ok::<bool, ParseError>(false)
                    && same_cursor(old(self), final(self))
            }),
    ;

    /// Tells whether the characters of `val` come next after the whitespace
    /// ahead, and commits them if so. A mismatch gives `false` and leaves the
    /// cursor as it was; running out of input first, or an empty `val`, fails
    /// with `Empty`.
    fn match_str(&mut self, val: &str) -> (r: Result<bool, ParseError>)
        requires
            cursor_ok(old(self)),
        ensures
            cursor_ok(final(self)),
            keeps_position_on_error(old(self), final(self), r),
            labelled(r, "could not match str"@),
            literal_match(old(self), final(self), val@, r),
    ;

    /// `match_str` on the decimal form of `val`.
    fn match_num(&mut self, val: i128) -> (r: Result<bool, ParseError>)
        requires
            cursor_ok(old(self)),
        ensures
            cursor_ok(final(self)),
            keeps_position_on_error(old(self), final(self), r),
            labelled(r, "could not match num"@),
            literal_match(old(self), final(self), decimal(val as int), r),
    ;
}

fn misuse() -> (e: ParseError)
    ensures
        e.kind == ErrorKind::Generic,
        e.breadcrumbs() == Seq::<Seq<char>>::empty(),
{
    ParseError::new(
        ErrorKind::Generic,
        "the cursor has uncommitted lookahead where a fresh cursor is needed",
    )
}


/// Moves the lookahead past the alphanumeric run ahead.
fn skip_alnum<C: Cursor>(c: &mut C)
    requires
        cursor_ok(old(c)),
    ensures
        cursor_ok(final(c)),
        final(c).text() == old(c).text(),
        final(c).committed() == old(c).committed(),
        at(final(c)) == word_end(old(c).text(), at(old(c))),
{
    let ghost s = c.text();
    let ghost start = at(c);
    loop
        invariant
            cursor_ok(c),
            s == old(c).text(),
            start == at(old(c)),
            c.text() == s,
            c.committed() == old(c).committed(),
            start <= at(c) <= s.len(),
            word_end(s, at(c)) == word_end(s, start),
        decreases s.len() - at(c),
    {
        match c.peek() {
            None => {
                return ;
            },
            Some((_, ch)) => {
                if is_alnum(ch) {
                    c.next();
                } else {
                    return ;
                }
            },
        }
    }
}

/// Moves the lookahead past the ASCII digits ahead.
fn skip_digits<C: Cursor>(c: &mut C)
    requires
        cursor_ok(old(c)),
    ensures
        cursor_ok(final(c)),
        final(c).text() == old(c).text(),
        final(c).committed() == old(c).committed(),
        at(final(c)) == digits_end(old(c).text(), at(old(c))),
{
    let ghost s = c.text();
    let ghost start = at(c);
    loop
        invariant
            cursor_ok(c),
            s == old(c).text(),
            start == at(old(c)),
            c.text() == s,
            c.committed() == old(c).committed(),
            start <= at(c) <= s.len(),
            digits_end(s, at(c)) == digits_end(s, start),
        decreases s.len() - at(c),
    {
        match c.peek() {
            None => {
                return ;
            },
            Some((_, ch)) => {
                if digit(ch) {
                    c.next();
                } else {
                    return ;
                }
            },
        }
    }
}

/// Moves the lookahead past the next character when it is `a` or `b`; says whether it did.
fn skip_if<C: Cursor>(c: &mut C, a: char, b: char) -> (r: bool)
    requires
        cursor_ok(old(c)),
    ensures
        cursor_ok(final(c)),
        final(c).text() == old(c).text(),
        final(c).committed() == old(c).committed(),
        r == (at(old(c)) < old(c).text().len() && (old(c).text()[at(old(c))] == a
            || old(c).text()[at(old(c))] == b)),
        at(final(c)) == at(old(c)) + if r { 1int } else { 0int },
{
    match c.peek() {
        None => false,
        Some((_, ch)) => {
            if ch == a || ch == b {
                c.next();
                true
            } else {
                false
            }
        },
    }
}

/// Moves the lookahead onto the next occurrence of `q`, or to the end of the text.
fn skip_to<C: Cursor>(c: &mut C, q: char)
    requires
        cursor_ok(old(c)),
    ensures
        cursor_ok(final(c)),
        final(c).text() == old(c).text(),
        final(c).committed() == old(c).committed(),
        at(final(c)) == find(old(c).text(), at(old(c)), q),
{
    let ghost s = c.text();
    let ghost start = at(c);
    loop
        invariant
            cursor_ok(c),
            s == old(c).text(),
            start == at(old(c)),
            c.text() == s,
            c.committed() == old(c).committed(),
            start <= at(c) <= s.len(),
            find(s, at(c), q) == find(s, start, q),
        decreases s.len() - at(c),
    {
        match c.peek() {
            None => {
                return ;
            },
            Some((_, ch)) => {
                if ch != q {
                    c.next();
                } else {
                    return ;
                }
            },
        }
    }
}

/// Moves the lookahead past the word ahead and tells whether it is a special float literal.
fn skip_special_word<C: Cursor>(c: &mut C) -> (r: bool)
    requires
        cursor_ok(old(c)),
    ensures
        cursor_ok(final(c)),
        final(c).text() == old(c).text(),
        final(c).committed() == old(c).committed(),
        at(final(c)) == word_end(old(c).text(), at(old(c))),
        at(old(c)) <= at(final(c)),
        r == special_float_word(old(c).text().subrange(at(old(c)), at(final(c)))),
{
    proof {
        lemma_word_end(c.text(), at(c));
    }
    let from = c.get_pointer_loc();
    skip_alnum(c);
    match c.read_substr(from, c.get_pointer_loc() - from) {
        Ok(word) => is_special_word(&word),
        Err(_) => false,
    }
}

/// Moves the lookahead past the digits of a plain numeric literal, with the
/// fraction and exponent of a float.
fn skip_number<C: Cursor>(c: &mut C, is_float: bool)
    requires
        cursor_ok(old(c)),
    ensures
        cursor_ok(final(c)),
        final(c).text() == old(c).text(),
        final(c).committed() == old(c).committed(),
        at(final(c)) == number_end(old(c).text(), at(old(c)), is_float),
        at(old(c)) <= at(final(c)),
{
    let ghost s = c.text();
    proof {
        lemma_digits_end(s, at(c));
    }
    skip_digits(c);
    if is_float {
        if skip_if(c, '.', '.') {
            proof {
                lemma_digits_end(s, at(c));
            }
            skip_digits(c);
        }
        if skip_if(c, 'e', 'E') {
            skip_if(c, '+', '-');
            proof {
                lemma_digits_end(s, at(c));
            }
            skip_digits(c);
        }
    }
}

/// Tells whether `w` spells one of the special float literals.
fn is_special_word(w: &String) -> (r: bool)
    ensures
        r == special_float_word(w@),
{
    let t = w.as_str();
    let n = t.unicode_len();
    if n == 3 {
        (letter(t.get_char(0), 'I') && letter(t.get_char(1), 'N') && letter(t.get_char(2), 'F'))
            || (letter(t.get_char(0), 'N') && letter(t.get_char(1), 'A') && letter(
            t.get_char(2),
            'N',
        ))
    } else if n == 8 {
        letter(t.get_char(0), 'I') && letter(t.get_char(1), 'N') && letter(t.get_char(2), 'F')
            && letter(t.get_char(3), 'I') && letter(t.get_char(4), 'N') && letter(
            t.get_char(5),
            'I',
        ) && letter(t.get_char(6), 'T') && letter(t.get_char(7), 'Y')
    } else {
        false
    }
}

impl<T: Cursor> CommonParserFunctions for T {
    fn skip_whitespace(&mut self) -> (r: Result<(), ParseError>) {
        let ghost s = self.text();
        let ghost start = at(self);
        loop
            invariant
                cursor_ok(self),
                s == old(self).text(),
                start == at(old(self)),
                self.text() == s,
                self.committed() == old(self).committed(),
                start <= at(self) <= s.len(),
                ws_end(s, at(self)) == ws_end(s, start),
            decreases s.len() - at(self),
        {
            match self.peek() {
                None => {
                    return Ok(());
                },
                Some((_, c)) => {
                    if is_ws(c) {
                        self.next();
                    } else {
                        return Ok(());
                    }
                },
            }
        }
    }

    fn consume_whitespace(&mut self) -> (r: Result<(), ParseError>) {
        if self.get_pointer_loc() != 0 {
            return Err(misuse().attach_context("could not consume whitespace"));
        }
        let _ = self.skip_whitespace();
        let n = self.get_pointer_loc();
        self.consume(n);
        Ok(())
    }

    fn read_word(&mut self) -> (r: Result<String, ParseError>) {
        let ghost s = self.text();
        let _ = self.skip_whitespace();
        let ghost w = at(self);
        proof {
            lemma_ws_end(s, at(old(self)));
        }
        let start = self.get_pointer_loc();
        loop
            invariant
                cursor_ok(self),
                s == old(self).text(),
                w == ws_end(s, at(old(self))),
                self.text() == s,
                self.committed() == old(self).committed(),
                self.lookahead() >= start,
                start as int + self.committed() == w,
                w <= at(self) <= s.len(),
                word_end(s, at(self)) == word_end(s, w),
            decreases s.len() - at(self),
        {
            match self.peek() {
                None => {
                    let here = self.get_pointer_loc();
                    if here == start {
                        self.reset_pointer_loc();
                        return Err(
                            ParseError::new(ErrorKind::Empty, "no word is left in the source")
                                .attach_context("could not read word"),
                        );
                    }
                    return self.read_substr(start, here - start);
                },
                Some((i, c)) => {
                    if !is_alnum(c) {
                        return self.read_substr(start, i - start);
                    }
                    self.next();
                },
            }
        }
    }

    fn parse_word(&mut self) -> (r: Result<String, ParseError>) {
        if self.get_pointer_loc() != 0 {
            return Err(misuse().attach_context("could not parse word"));
        }
        match self.read_word() {
            Err(e) => {
                assert(seq!["could not read word"@].push("could not parse word"@) =~= seq!["could not read word"@, "could not parse word"@]);
                Err(e.attach_context("could not parse word"))
            },
            Ok(word) => {
                let n = self.get_pointer_loc();
                self.consume(n);
                Ok(word)
            },
        }
    }
    fn parse_string(&mut self) -> (r: Result<String, ParseError>) {
        if self.get_pointer_loc() != 0 {
            return Err(misuse().attach_context("could not parse string"));
        }
        let ghost s = self.text();
        let _ = self.skip_whitespace();
        proof {
            lemma_ws_end(s, old(self).committed() as int);
        }
        let start = self.get_pointer_loc();
        let q = match self.next() {
            None => {
                self.reset_pointer_loc();
                return Err(
                    ParseError::new(ErrorKind::Empty, "no string is left in the source")
                        .attach_context("could not parse string"),
                );
            },
            Some((_, c)) => c,
        };
        if q != '\'' && q != '"' {
            self.reset_pointer_loc();
            return match self.parse_word() {
                Ok(t) => Ok(t),
                Err(e) => Err(e.attach_context("could not parse string")),
            };
        }
        proof {
            lemma_find(s, at(self), q);
        }
        skip_to(self, q);
        match self.peek() {
            None => {
                self.reset_pointer_loc();
                Err(
                    ParseError::new(ErrorKind::Empty, "the string is not closed")
                        .attach_context("could not parse string"),
                )
            },
            Some((i, _)) => {
                let content = self.read_substr(start + 1, i - start - 1);
                self.next();
                self.consume(i + 1);
                content
            },
        }
    }

    fn parse_brackets(&mut self) -> (r: Result<String, ParseError>) {
        if self.get_pointer_loc() != 0 {
            return Err(misuse().attach_context("could not parse brackets"));
        }
        let ghost s = self.text();
        let _ = self.skip_whitespace();
        proof {
            lemma_ws_end(s, old(self).committed() as int);
        }
        let ghost w = at(self);
        let start = self.get_pointer_loc();
        let o = match self.next() {
            None => {
                self.reset_pointer_loc();
                return Err(
                    ParseError::new(ErrorKind::Empty, "no brackets are left in the source")
                        .attach_context("could not parse brackets"),
                );
            },
            Some((_, c)) => c,
        };
        let close = if o == '(' {
            ')'
        } else if o == '[' {
            ']'
        } else if o == '{' {
            '}'
        } else if o == '<' {
            '>'
        } else {
            self.reset_pointer_loc();
            return Err(
                ParseError::new(ErrorKind::Unexpected, "an opening bracket was expected")
                    .attach_context("could not parse brackets"),
            );
        };
        let mut level: usize = 1;
        loop
            invariant
                cursor_ok(self),
                s == old(self).text(),
                old(self).lookahead() == 0,
                w == ws_end(s, old(self).committed() as int),
                w < s.len(),
                o == s[w],
                closing(o) == Some(close),
                self.text() == s,
                self.committed() == old(self).committed(),
                start as int + self.committed() == w,
                w + 1 <= at(self) <= s.len(),
                1 <= level <= at(self) - w,
                close_at(s, at(self), o, close, level as nat) == close_at(s, w + 1, o, close, 1),
            decreases s.len() - at(self),
        {
            match self.next() {
                None => {
                    self.reset_pointer_loc();
                    return Err(
                        ParseError::new(ErrorKind::Empty, "the brackets are not closed")
                            .attach_context("could not parse brackets"),
                    );
                },
                Some((i, c)) => {
                    if c == close {
                        if level == 1 {
                            let content = self.read_substr(start + 1, i - start - 1);
                            self.consume(i + 1);
                            return content;
                        }
                        level = level - 1;
                    } else if c == o {
                        level = level + 1;
                    }
                },
            }
        }
    }

    fn parse_num<N, F: Fn(String) -> Option<N>>(&mut self, is_float: bool, convert: F) -> (r:
        Result<N, ParseError>) {
        if self.get_pointer_loc() != 0 {
            return Err(misuse().attach_context("could not parse num"));
        }
        let ghost s = self.text();
        let _ = self.skip_whitespace();
        proof {
            lemma_ws_end(s, old(self).committed() as int);
        }
        let start = self.get_pointer_loc();
        skip_if(self, '+', '-');
        let special = match self.peek() {
            None => {
                self.reset_pointer_loc();
                return Err(
                    ParseError::new(ErrorKind::Empty, "no number is left in the source")
                        .attach_context("could not parse num"),
                );
            },
            Some((_, c)) => is_float && (c == 'i' || c == 'I' || c == 'n' || c == 'N'),
        };
        if special {
            if !skip_special_word(self) {
                self.reset_pointer_loc();
                return Err(
                    ParseError::new(ErrorKind::Generic, "not a valid float").attach_context(
                        "could not parse num",
                    ),
                );
            }
        } else {
            skip_number(self, is_float);
        }
        let end = self.get_pointer_loc();
        let span = match self.read_substr(start, end - start) {
            Ok(t) => t,
            Err(e) => {
                self.reset_pointer_loc();
                return Err(e.attach_context("could not parse num"));
            },
        };
        match convert(span) {
            None => {
                self.reset_pointer_loc();
                Err(
                    ParseError::new(ErrorKind::Generic, "not a valid number").attach_context(
                        "could not parse num",
                    ),
                )
            },
            Some(v) => {
                self.consume(end);
                Ok(v)
            },
        }
    }

    fn parse_int(&mut self) -> (r: Result<i64, ParseError>) {
        self.parse_num(false, int_of)
    }

    fn read_symbol(&mut self) -> (r: Result<char, ParseError>) {
        let _ = self.skip_whitespace();
        match self.peek() {
            None => {
                self.reset_pointer_loc();
                Err(
                    ParseError::new(ErrorKind::Empty, "no symbol is left in the source")
                        .attach_context("could not read symbol"),
                )
            },
            Some((_, c)) => {
                if !is_alnum(c) {
                    self.next();
                    Ok(c)
                } else {
                    self.reset_pointer_loc();
                    Err(
                        ParseError::new(ErrorKind::Generic, "not classified as a symbol")
                            .attach_context("could not read symbol"),
                    )
                }
            },
        }
    }

    fn parse_symbol(&mut self) -> (r: Result<char, ParseError>) {
        if self.get_pointer_loc() != 0 {
            return Err(misuse().attach_context("could not parse symbol"));
        }
        match self.read_symbol() {
            Err(e) => {
                assert(seq!["could not read symbol"@].push("could not parse symbol"@) =~= seq!["could not read symbol"@, "could not parse symbol"@]);
                Err(e.attach_context("could not parse symbol"))
            },
            Ok(c) => {
                let n = self.get_pointer_loc();
                self.consume(n);
                Ok(c)
            },
        }
    }

    fn match_char(&mut self, val: char) -> (r: Result<bool, ParseError>) {
        if self.get_pointer_loc() != 0 {
            return Err(misuse().attach_context("could not match char"));
        }
        let _ = self.skip_whitespace();
        match self.peek() {
            None => {
                self.reset_pointer_loc();
                Err(
                    ParseError::new(ErrorKind::Empty, "no char is left in the source")
                        .attach_context("could not match char"),
                )
            },
            Some((i, c)) => {
                if c == val {
                    self.next();
                    self.consume(i + 1);
                    Ok(true)
                } else {
                    self.reset_pointer_loc();
                    Ok(false)
                }
            },
        }
    }

    fn match_str(&mut self, val: &str) -> (r: Result<bool, ParseError>) {
        if self.get_pointer_loc() != 0 {
            return Err(misuse().attach_context("could not match str"));
        }
        let v = chars_of(val);
        if v.len() == 0 {
            return Err(
                ParseError::new(ErrorKind::Empty, "there is nothing to match").attach_context(
                    "could not match str",
                ),
            );
        }
        let ghost s = self.text();
        let _ = self.skip_whitespace();
        proof {
            lemma_ws_end(s, old(self).committed() as int);
        }
        let ghost w = at(self);
        let mut k: usize = 0;
        loop
            invariant
                cursor_ok(self),
                s == old(self).text(),
                old(self).lookahead() == 0,
                w == ws_end(s, old(self).committed() as int),
                0 <= w <= s.len(),
                v@ == val@,
                0 < v.len(),
                self.text() == s,
                self.committed() == old(self).committed(),
                k < v.len(),
                at(self) == w + k,
                forall|j: int| 0 <= j < k ==> s[w + j] == v@[j],
            decreases v.len() - k,
        {
            match self.next() {
                None => {
                    self.reset_pointer_loc();
                    assert(s.subrange(w, w + k) =~= v@.subrange(0, k as int));
                    return Err(
                        ParseError::new(ErrorKind::Empty, "the source ran out before the match")
                            .attach_context("could not match str"),
                    );
                },
                Some((i, c)) => {
                    assert(c == s[w + k]);
                    if c != v[k] {
                        self.reset_pointer_loc();
                        proof {
                            let m = if v@.len() <= s.len() - w {
                                v@.len() as int
                            } else {
                                s.len() - w
                            };
                            assert(s.subrange(w, w + m)[k as int] != v@.subrange(0, m)[k as int]);
                        }
                        return Ok(false);
                    }
                    if k + 1 == v.len() {
                        assert(s.subrange(w, w + k + 1) =~= v@.subrange(0, k + 1));
                        self.consume(i + 1);
                        return Ok(true);
                    }
                    k = k + 1;
                },
            }
        }
    }

    fn match_num(&mut self, val: i128) -> (r: Result<bool, ParseError>) {
        let text = decimal_string(val);
        match self.match_str(text.as_str()) {
            Ok(b) => Ok(b),
            Err(e) => Err(e.attach_context("could not match num")),
        }
    }
}

} // verus!
