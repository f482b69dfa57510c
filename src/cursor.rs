use vstd::prelude::*;
use crate::chars::{chars_of, string_of};
use crate::error::{ErrorKind, ParseError};

verus! {

/// A positioned read head over a character sequence: a committed position, and
/// a lookahead offset past it that is either committed or rolled back. The
/// whole sequence is held in memory, so reading from it cannot fail.
pub trait Cursor: Sized {
    /// The whole character sequence.
    spec fn text(&self) -> Seq<char>;

    /// The committed position, as an index into `text`.
    spec fn committed(&self) -> nat;

    /// The lookahead offset, relative to the committed position.
    spec fn lookahead(&self) -> nat;

    /// The next character and its lookahead offset, without moving; `None` at the end.
    fn peek(&self) -> (r: Option<(usize, char)>)
        requires
            self.committed() + self.lookahead() <= self.text().len() <= usize::MAX,
        ensures
            self.committed() + self.lookahead() < self.text().len() ==> r == Some(
                (self.lookahead() as usize, self.text()[self.committed() + self.lookahead() as int]),
            ),
            self.committed() + self.lookahead() >= self.text().len() ==> r is None,
    ;

    /// As `peek`, and moves the lookahead past the character returned.
    fn next(&mut self) -> (r: Option<(usize, char)>)
        requires
            old(self).committed() + old(self).lookahead() <= old(self).text().len() <= usize::MAX,
        ensures
            old(self).committed() + old(self).lookahead() < old(self).text().len() ==> r == Some(
                (old(self).lookahead() as usize, old(self).text()[old(self).committed() + old(self).lookahead() as int]),
            ),
            old(self).committed() + old(self).lookahead() >= old(self).text().len() ==> r is None,
            final(self).committed() + final(self).lookahead() <= final(self).text().len() <= usize::MAX,
            final(self).text() == old(self).text(),
            final(self).committed() == old(self).committed(),
            final(self).lookahead() == old(self).lookahead() + if r is Some { 1nat } else { 0nat },
    ;

    /// The `len` characters from lookahead offset `start`, which must lie within the lookahead.
    fn read_substr(&self, start: usize, len: usize) -> (r: Result<String, ParseError>)
        requires
            self.committed() + self.lookahead() <= self.text().len() <= usize::MAX,
        ensures
            start + len <= self.lookahead() <==> r is Ok,
            r matches Ok(t) ==> t@ == self.text().subrange(
                self.committed() + start,
                self.committed() + start + len,
            ),
            r matches Err(e) ==> e.kind == ErrorKind::Generic,
    ;

    /// The lookahead offset.
    fn get_pointer_loc(&self) -> (r: usize)
        requires
            self.committed() + self.lookahead() <= self.text().len() <= usize::MAX,
        ensures
            r == self.lookahead(),
    ;

    /// Commits the first `n` characters of the lookahead and drops the rest of it.
    fn consume(&mut self, n: usize)
        requires
            old(self).committed() + old(self).lookahead() <= old(self).text().len() <= usize::MAX,
            n <= old(self).lookahead(),
        ensures
            final(self).committed() + final(self).lookahead() <= final(self).text().len() <= usize::MAX,
            final(self).text() == old(self).text(),
            final(self).committed() == old(self).committed() + n,
            final(self).lookahead() == 0,
    ;

    /// Rolls the lookahead back to the committed position.
    fn reset_pointer_loc(&mut self)
        requires
            old(self).committed() + old(self).lookahead() <= old(self).text().len() <= usize::MAX,
        ensures
            final(self).committed() + final(self).lookahead() <= final(self).text().len() <= usize::MAX,
            final(self).text() == old(self).text(),
            final(self).committed() == old(self).committed(),
            final(self).lookahead() == 0,
    ;
}

/// The lookahead position as an index into the text.
pub open spec fn at<C: Cursor>(c: &C) -> int {
    (c.committed() + c.lookahead()) as int
}

pub open spec fn cursor_ok<C: Cursor>(c: &C) -> bool {
    at(c) <= c.text().len() <= usize::MAX
}

/// A cursor over a string held in memory.
pub struct StrParser {
    chars: Vec<char>,
    committed: usize,
    pointer: usize,
}

impl StrParser {
    pub fn new(s: &str) -> (r: StrParser)
        ensures
            r.text() == s@,
            r.committed() == 0,
            r.lookahead() == 0,
            cursor_ok(&r),
    {
        let chars = chars_of(s);
        let _ = chars.len();
        StrParser { chars, committed: 0, pointer: 0 }
    }

    /// The committed position, as an index into the text.
    pub fn position(&self) -> (r: usize)
        ensures
            r == self.committed(),
    {
        self.committed
    }
}

impl Cursor for StrParser {
    closed spec fn text(&self) -> Seq<char> {
        self.chars@
    }

    closed spec fn committed(&self) -> nat {
        self.committed as nat
    }

    closed spec fn lookahead(&self) -> nat {
        self.pointer as nat
    }

    fn peek(&self) -> (r: Option<(usize, char)>) {
        let i = self.committed + self.pointer;
        if i < self.chars.len() {
            Some((self.pointer, self.chars[i]))
        } else {
            None
        }
    }

    fn next(&mut self) -> (r: Option<(usize, char)>) {
        let r = self.peek();
        if r.is_some() {
            self.pointer = self.pointer + 1;
        }
        r
    }

    fn read_substr(&self, start: usize, len: usize) -> (r: Result<String, ParseError>) {
        if start > self.pointer || len > self.pointer - start {
            return Err(ParseError::new(ErrorKind::Generic, "range lies outside the lookahead"));
        }
        let from = self.committed + start;
        Ok(string_of(vstd::slice::slice_subrange(self.chars.as_slice(), from, from + len)))
    }

    fn get_pointer_loc(&self) -> (r: usize) {
        self.pointer
    }

    fn consume(&mut self, n: usize) {
        self.committed = self.committed + n;
        self.pointer = 0;
    }

    fn reset_pointer_loc(&mut self) {
        self.pointer = 0;
    }
}

} // verus!
