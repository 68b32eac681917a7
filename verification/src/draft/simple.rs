//! Simple lexer of the early grammar revision: words, quoted strings with
//! escape pairs kept raw, comments and empty lines.

use crate::char_iter::CharItem;
use crate::char_iter::Position;
use crate::text::chars_to_string;
use vstd::prelude::*;

verus! {

/// The kind of token the simple lexer returns.
#[derive(Debug, PartialEq, Copy, Clone)]
pub enum SimpleWordType {
    Word,
    String,
    Comment,
    EmptyLine,
    ErrorUncloseString,
}

/// The state of the simple lexer.
#[derive(Copy, Clone, Debug, PartialEq, Eq, Structural)]
enum SimpleLexerState {
    /// Initial state.
    Initial,
    /// Into a comment.
    Comment,
    /// Into a word.
    Word,
    /// Into a literal string.
    String,
    /// After a backslash, into a string.
    StringEscape,
}

/// Ghost kind of the simple lexer outcome.
pub ghost enum SimpleStep {
    End,
    Out(SimpleWordType, Seq<char>, Seq<char>, int),
}

/// Ghost number of a lexer state, so that the step function can stand in a
/// public contract while the state enum stays private.
pub open spec fn state_initial() -> int {
    0
}

spec fn state_code(st: SimpleLexerState) -> int {
    match st {
        SimpleLexerState::Initial => 0,
        SimpleLexerState::Comment => 1,
        SimpleLexerState::Word => 2,
        SimpleLexerState::String => 3,
        SimpleLexerState::StringEscape => 4,
    }
}

/// One step of the simple lexer from the state numbered `st` with the
/// buffer `buff`: the kind found, the buffer it leaves, the unread rest and
/// the next state.
pub open spec fn simple_lex(s: Seq<char>, st: int, buff: Seq<char>) -> SimpleStep
    decreases s.len(),
{
    if s.len() == 0 {
        if st == 0 {
            SimpleStep::End
        } else if st == 1 {
            SimpleStep::Out(SimpleWordType::Comment, buff, s, 0)
        } else if st == 2 {
            SimpleStep::Out(SimpleWordType::Word, buff, s, 0)
        } else {
            SimpleStep::Out(SimpleWordType::ErrorUncloseString, buff, s, 0)
        }
    } else {
        let c = s[0];
        let r = s.drop_first();
        if st == 0 {
            if c == '\n' {
                SimpleStep::Out(SimpleWordType::EmptyLine, buff, r, 0)
            } else if c == '\t' || c == ' ' || c == '\r' {
                simple_lex(r, 0, buff)
            } else if c == '#' {
                simple_lex(r, 1, buff)
            } else if c == '"' {
                simple_lex(r, 3, buff)
            } else {
                simple_lex(r, 2, buff.push(c))
            }
        } else if st == 1 {
            if c == '\n' {
                SimpleStep::Out(SimpleWordType::Comment, buff, r, 0)
            } else {
                simple_lex(r, 1, buff.push(c))
            }
        } else if st == 2 {
            if c == '#' {
                SimpleStep::Out(SimpleWordType::Word, buff, r, 1)
            } else if c == '\n' || c == '\t' || c == ' ' || c == '\r' {
                SimpleStep::Out(SimpleWordType::Word, buff, r, 0)
            } else if c == '"' {
                SimpleStep::Out(SimpleWordType::Word, buff, r, 3)
            } else {
                simple_lex(r, 2, buff.push(c))
            }
        } else if st == 3 {
            if c == '\\' {
                simple_lex(r, 4, buff)
            } else if c == '"' {
                SimpleStep::Out(SimpleWordType::String, buff, r, 0)
            } else {
                simple_lex(r, 3, buff.push(c))
            }
        } else {
            simple_lex(r, 3, buff.push('\\').push(c))
        }
    }
}

/// Simple lexer, returning one token kind and its text at a time.
pub struct SimpleLexer<'a> {
    chars: CharItem<'a>,
    state: SimpleLexerState,
    buff: Vec<char>,
}

impl<'a> SimpleLexer<'a> {
    /// The input not yet read.
    pub closed spec fn remaining(self) -> Seq<char> {
        self.chars.remaining()
    }

    /// The number of the current state.
    pub closed spec fn state_of(self) -> int {
        state_code(self.state)
    }

    pub closed spec fn wf(self) -> bool {
        self.chars.wf()
    }

    pub fn new(config: &'a str) -> (r: SimpleLexer<'a>)
        requires
            config@.len() < usize::MAX,
        ensures
            r.wf(),
            r.remaining() == config@,
            r.state_of() == state_initial(),
    {
        SimpleLexer { chars: CharItem::new(config), state: SimpleLexerState::Initial, buff: Vec::new() }
    }

    /// The position of the next character the lexer will read.
    pub fn position(&self) -> (r: Position)
        requires
            self.wf(),
        ensures
            r == self.spec_position(),
    {
        self.chars.position()
    }

    /// The position of the next character the lexer will read.
    pub closed spec fn spec_position(self) -> Position {
        self.chars.spec_position()
    }

    fn word_lexer(&mut self) -> (r: Option<SimpleWordType>)
        requires
            old(self).wf(),
        ensures
            final(self).wf(),
            match simple_lex(old(self).remaining(), old(self).state_of(), old(self).buff@) {
                SimpleStep::End => r is None && final(self).state_of() == 0
                    && final(self).remaining() == Seq::<char>::empty(),
                SimpleStep::Out(t, b, rest, st) => {
                    &&& r == Some(t)
                    &&& final(self).buff@ == b
                    &&& final(self).remaining() == rest
                    &&& final(self).state_of() == st
                },
            },
        decreases old(self).remaining().len(),
    {
        let ghost s0 = self.remaining();
        let next = self.chars.next();
        match next {
            None => {
                proof {
                    assert(self.remaining() =~= Seq::<char>::empty());
                }
                match self.state {
                    SimpleLexerState::Initial => None,
                    SimpleLexerState::Comment => {
                        self.state = SimpleLexerState::Initial;
                        Some(SimpleWordType::Comment)
                    },
                    SimpleLexerState::Word => {
                        self.state = SimpleLexerState::Initial;
                        Some(SimpleWordType::Word)
                    },
                    _ => {
                        self.state = SimpleLexerState::Initial;
                        Some(SimpleWordType::ErrorUncloseString)
                    },
                }
            },
            Some(c) => {
                proof {
                    assert(s0[0] == c);
                    assert(self.remaining() =~= s0.drop_first());
                }
                match self.state {
                    SimpleLexerState::Initial => {
                        if c == '\n' {
                            Some(SimpleWordType::EmptyLine)
                        } else if c == '\t' || c == ' ' || c == '\r' {
                            self.word_lexer()
                        } else if c == '#' {
                            self.state = SimpleLexerState::Comment;
                            self.word_lexer()
                        } else if c == '"' {
                            self.state = SimpleLexerState::String;
                            self.word_lexer()
                        } else {
                            self.state = SimpleLexerState::Word;
                            self.buff.push(c);
                            self.word_lexer()
                        }
                    },
                    SimpleLexerState::Comment => {
                        if c == '\n' {
                            self.state = SimpleLexerState::Initial;
                            Some(SimpleWordType::Comment)
                        } else {
                            self.buff.push(c);
                            self.word_lexer()
                        }
                    },
                    SimpleLexerState::Word => {
                        if c == '#' {
                            self.state = SimpleLexerState::Comment;
                            Some(SimpleWordType::Word)
                        } else if c == '\n' || c == '\t' || c == ' ' || c == '\r' {
                            self.state = SimpleLexerState::Initial;
                            Some(SimpleWordType::Word)
                        } else if c == '"' {
                            self.state = SimpleLexerState::String;
                            Some(SimpleWordType::Word)
                        } else {
                            self.buff.push(c);
                            self.word_lexer()
                        }
                    },
                    SimpleLexerState::String => {
                        if c == '\\' {
                            self.state = SimpleLexerState::StringEscape;
                            self.word_lexer()
                        } else if c == '"' {
                            self.state = SimpleLexerState::Initial;
                            Some(SimpleWordType::String)
                        } else {
                            self.buff.push(c);
                            self.word_lexer()
                        }
                    },
                    SimpleLexerState::StringEscape => {
                        self.state = SimpleLexerState::String;
                        self.buff.push('\\');
                        self.buff.push(c);
                        proof {
                            assert(old(self).buff@.push('\\').push(c) =~= self.buff@);
                        }
                        self.word_lexer()
                    },
                }
            },
        }
    }

    /// Scan the next token: its kind and its text.  `None` at the end of the
    /// input.
    pub fn next(&mut self) -> (r: Option<(SimpleWordType, String)>)
        requires
            old(self).wf(),
        ensures
            final(self).wf(),
            match simple_lex(old(self).remaining(), old(self).state_of(), Seq::empty()) {
                SimpleStep::End => r is None,
                SimpleStep::Out(t, b, rest, st) => {
                    &&& r matches Some((t2, text)) && t2 == t && text@ == b
                    &&& final(self).remaining() == rest
                    &&& final(self).state_of() == st
                },
            },
    {
        self.buff.clear();
        proof {
            assert(self.buff@ =~= Seq::<char>::empty());
        }
        match self.word_lexer() {
            Some(t) => Some((t, chars_to_string(&self.buff))),
            None => None,
        }
    }
}

} // verus!
