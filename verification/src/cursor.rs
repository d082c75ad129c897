//! The cursor: a lookahead-capable view over the input text that hands out
//! one character at a time and tracks the current line number.

use vstd::prelude::*;

verus! {

/// A position in the input text together with the current line number. The
/// line counter starts at 1 and advances whenever a newline character is
/// consumed, so it never exceeds the position by more than one; the input
/// length stays below `usize::MAX` so that the counter cannot overflow.
pub struct Cursor {
    pub chars: Vec<char>,
    pub pos: usize,
    pub line: usize,
}

impl Cursor {
    /// The input text under the cursor.
    pub open spec fn text(&self) -> Seq<char> {
        self.chars@
    }

    /// Well-formedness: the position is within the text, and the line
    /// counter is at least 1 and at most one more than the number of
    /// consumed characters.
    pub open spec fn wf(&self) -> bool {
        &&& self.pos <= self.chars.len()
        &&& 1 <= self.line
        &&& self.line - 1 <= self.pos
        &&& self.chars.len() < usize::MAX
    }

    /// A cursor at the start of the text, on line 1.
    pub fn new(chars: Vec<char>) -> (c: Cursor)
        requires
            chars@.len() < usize::MAX,
        ensures
            c.wf(),
            c.text() == chars@,
            c.pos == 0,
            c.line == 1,
    {
        Cursor { chars, pos: 0, line: 1 }
    }

    /// The character under the cursor, without consuming it; `None` once
    /// the input is exhausted.
    pub fn peek(&self) -> (r: Option<char>)
        requires
            self.wf(),
        ensures
            r == (if self.pos < self.chars.len() {
                Some(self.text()[self.pos as int])
            } else {
                None::<char>
            }),
    {
        if self.pos < self.chars.len() {
            Some(self.chars[self.pos])
        } else {
            None
        }
    }

    /// Consume and return one character, advancing the line counter when the
    /// consumed character is a newline; `None` once the input is exhausted.
    pub fn advance(&mut self) -> (r: Option<char>)
        requires
            old(self).wf(),
        ensures
            final(self).wf(),
            final(self).text() == old(self).text(),
            old(self).pos < old(self).chars.len() ==> {
                let c = old(self).text()[old(self).pos as int];
                &&& r == Some(c)
                &&& final(self).pos == old(self).pos + 1
                &&& final(self).line == old(self).line + (if c == '\n' {
                    1int
                } else {
                    0int
                })
            },
            old(self).pos >= old(self).chars.len() ==> r == None::<char> && *final(self) == *old(
                self,
            ),
    {
        if self.pos < self.chars.len() {
            let c = self.chars[self.pos];
            self.pos = self.pos + 1;
            if c == '\n' {
                self.line = self.line + 1;
            }
            Some(c)
        } else {
            None
        }
    }
}

} // verus!
