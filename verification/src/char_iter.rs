//! Position-tracking character source: wraps a text buffer and yields one
//! character at a time while maintaining the current line and column.

use vstd::prelude::*;

verus! {

/// The position of one character in the text: advancing past a line break
/// increments the line and resets the column to 1.
#[derive(Debug, Copy, Clone, PartialEq, Eq, Structural)]
pub struct Position {
    pub line: usize,
    pub column: usize,
}

/// Line reached after reading `consumed`: one more than the number of line
/// breaks read so far.
pub open spec fn line_after(consumed: Seq<char>) -> nat
    decreases consumed.len(),
{
    if consumed.len() == 0 {
        1
    } else {
        line_after(consumed.drop_last()) + (if consumed.last() == '\n' {
            1nat
        } else {
            0nat
        })
    }
}

/// Column reached after reading `consumed`: one more than the number of
/// characters read since the last line break.
pub open spec fn column_after(consumed: Seq<char>) -> nat
    decreases consumed.len(),
{
    if consumed.len() == 0 {
        1
    } else if consumed.last() == '\n' {
        1
    } else {
        column_after(consumed.drop_last()) + 1
    }
}

pub proof fn lemma_position_after_bounds(consumed: Seq<char>)
    ensures
        1 <= line_after(consumed) <= consumed.len() + 1,
        1 <= column_after(consumed) <= consumed.len() + 1,
    decreases consumed.len(),
{
    if consumed.len() > 0 {
        lemma_position_after_bounds(consumed.drop_last());
    }
}

/// Forward-only character source over a text buffer, tracking the position of
/// the next character to read.
pub struct CharItem<'a> {
    text: &'a str,
    len: usize,
    index: usize,
    line: usize,
    column: usize,
}

impl<'a> CharItem<'a> {
    /// The characters read so far.
    pub closed spec fn consumed(self) -> Seq<char> {
        self.text@.take(self.index as int)
    }

    /// The characters not yet read.
    pub closed spec fn remaining(self) -> Seq<char> {
        self.text@.skip(self.index as int)
    }

    /// The whole wrapped text.
    pub closed spec fn source(self) -> Seq<char> {
        self.text@
    }

    pub closed spec fn wf(self) -> bool {
        &&& self.index <= self.len
        &&& self.len == self.text@.len()
        &&& self.text@.len() < usize::MAX
        &&& self.line == line_after(self.consumed())
        &&& self.column == column_after(self.consumed())
    }

    /// The position of the next character to read.
    pub open spec fn spec_position(self) -> Position {
        Position {
            line: line_after(self.consumed()) as usize,
            column: column_after(self.consumed()) as usize,
        }
    }

    /// How the three views of a well-formed source relate: the consumed part
    /// is a prefix of the text, the remaining part the matching suffix.
    pub proof fn lemma_parts(self)
        requires
            self.wf(),
        ensures
            self.consumed().len() <= self.source().len() < usize::MAX,
            self.consumed() == self.source().take(self.consumed().len() as int),
            self.remaining() == self.source().skip(self.consumed().len() as int),
            self.consumed() + self.remaining() == self.source(),
    {
        assert(self.consumed() =~= self.source().take(self.consumed().len() as int));
        assert(self.remaining() =~= self.source().skip(self.consumed().len() as int));
        assert(self.consumed() + self.remaining() =~= self.source());
    }

    pub fn new(text: &'a str) -> (r: CharItem<'a>)
        requires
            text@.len() < usize::MAX,
        ensures
            r.wf(),
            r.source() == text@,
            r.consumed() == Seq::<char>::empty(),
            r.remaining() == text@,
    {
        let len: usize = text.unicode_len();
        proof {
            assert(text@.take(0) =~= Seq::<char>::empty());
            assert(text@.skip(0) =~= text@);
        }
        CharItem { text, len, index: 0, line: 1, column: 1 }
    }

    /// The position of the next character to read (the position one past the
    /// last character when the text is exhausted).
    pub fn position(&self) -> (r: Position)
        requires
            self.wf(),
        ensures
            r == self.spec_position(),
    {
        proof {
            lemma_position_after_bounds(self.consumed());
        }
        Position { line: self.line, column: self.column }
    }

    /// Read one character, advancing the tracked position.
    pub fn next(&mut self) -> (r: Option<char>)
        requires
            old(self).wf(),
        ensures
            final(self).wf(),
            final(self).source() == old(self).source(),
            match r {
                Some(c) => {
                    &&& old(self).remaining().len() > 0
                    &&& c == old(self).remaining()[0]
                    &&& final(self).consumed() == old(self).consumed().push(c)
                    &&& final(self).remaining() == old(self).remaining().drop_first()
                },
                None => {
                    &&& old(self).remaining().len() == 0
                    &&& *final(self) == *old(self)
                },
            },
    {
        if self.index < self.len {
            let c = self.text.get_char(self.index);
            proof {
                lemma_position_after_bounds(self.consumed());
                assert(self.text@.take(self.index + 1).drop_last() =~= self.consumed());
                assert(self.text@.take(self.index + 1) =~= self.consumed().push(
                    self.text@[self.index as int],
                ));
                assert(self.text@.skip(self.index as int).drop_first() =~= self.text@.skip(
                    self.index + 1,
                ));
            }
            self.index = self.index + 1;
            if c == '\n' {
                self.line = self.line + 1;
                self.column = 1;
            } else {
                self.column = self.column + 1;
            }
            Some(c)
        } else {
            proof {
                assert(self.remaining().len() == 0);
            }
            None
        }
    }
}

} // verus!
