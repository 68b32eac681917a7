//! First sketch of the lexer: a word scanner that only tells words,
//! comments and empty lines apart.

use vstd::prelude::*;

verus! {

/// A token of the first grammar sketch.
#[derive(Debug, PartialEq)]
pub enum Word {
    Token(String),
    Url(String),
    Colon,
    DefinitionSign,
    Coma,
    DirectoryCompositionBegin,
    DirectoryCompositionEnd,
    DirectoryConcatenateBegin,
    DirectoryConcatenateEnd,
    PipeDirectory2Directory,
    PipeDirectory2File,
    PipeFile2Directory,
    PipeFile2File,
    /// Kept for formatting.
    WhiteSpace(String),
}

/// The kind of text the word scanner found.
#[derive(Debug, PartialEq, Copy, Clone)]
pub enum GeneralWordType {
    String,
    Comment,
    Word,
    EmptyLine,
}

/// The state of the word scanner.
#[derive(Copy, Clone, Debug, PartialEq, Eq, Structural)]
pub enum State {
    Begin,
    Comment,
    Word,
}

/// Ghost kind of the scanner outcome.
pub ghost enum GeneralStep {
    End,
    Out(GeneralWordType, Seq<char>, Seq<char>, State),
}

/// One step of the word scanner: from the state `st` with the buffer `buff`,
/// the next unit of `s`, the buffer it leaves, the unread rest and the next
/// state; `End` at the end of the input in the begin state.
pub open spec fn general_lex(s: Seq<char>, st: State, buff: Seq<char>) -> GeneralStep
    decreases s.len(),
{
    if s.len() == 0 {
        match st {
            State::Begin => GeneralStep::End,
            State::Comment => GeneralStep::Out(GeneralWordType::Comment, buff, s, State::Begin),
            State::Word => GeneralStep::Out(GeneralWordType::Word, buff, s, State::Begin),
        }
    } else {
        let c = s[0];
        let r = s.drop_first();
        match st {
            State::Begin => {
                if c == '\n' {
                    GeneralStep::Out(GeneralWordType::EmptyLine, buff, r, State::Begin)
                } else if c == '\t' || c == ' ' || c == '\r' {
                    general_lex(r, State::Begin, buff)
                } else if c == '#' {
                    general_lex(r, State::Comment, Seq::empty())
                } else {
                    general_lex(r, State::Word, seq![c])
                }
            },
            State::Comment => {
                if c == '\n' {
                    GeneralStep::Out(GeneralWordType::Comment, buff, r, State::Begin)
                } else {
                    general_lex(r, State::Comment, buff.push(c))
                }
            },
            State::Word => {
                if c == '#' {
                    GeneralStep::Out(GeneralWordType::Word, buff, r, State::Comment)
                } else if c == '\n' || c == '\t' || c == ' ' || c == '\r' {
                    GeneralStep::Out(GeneralWordType::Word, buff, r, State::Begin)
                } else {
                    general_lex(r, State::Word, buff.push(c))
                }
            },
        }
    }
}

/// Scan the next word, comment or empty line of `chars` from the index
/// `at`, growing `buff` with its text.
pub fn word_lexer(chars: &Vec<char>, at: &mut usize, buff: &mut Vec<char>, state: &mut State) -> (r:
    Option<GeneralWordType>)
    requires
        *old(at) <= chars@.len(),
    ensures
        *final(at) <= chars@.len(),
        match general_lex(chars@.skip(*old(at) as int), *old(state), old(buff)@) {
            GeneralStep::End => r is None && *final(state) == State::Begin && *final(at)
                == chars@.len(),
            GeneralStep::Out(t, b, rest, st) => {
                &&& r == Some(t)
                &&& final(buff)@ == b
                &&& chars@.skip(*final(at) as int) == rest
                &&& *final(state) == st
            },
        },
    decreases chars@.len() - *old(at),
{
    let ghost s0 = chars@.skip(*at as int);
    if *at >= chars.len() {
        proof {
            assert(s0 =~= Seq::<char>::empty());
        }
        return match *state {
            State::Begin => None,
            State::Comment => {
                *state = State::Begin;
                Some(GeneralWordType::Comment)
            },
            State::Word => {
                *state = State::Begin;
                Some(GeneralWordType::Word)
            },
        };
    }
    let c = chars[*at];
    *at = *at + 1;
    proof {
        assert(s0[0] == c);
        assert(chars@.skip(*at as int) =~= s0.drop_first());
    }
    match *state {
        State::Begin => {
            if c == '\n' {
                Some(GeneralWordType::EmptyLine)
            } else if c == '\t' || c == ' ' || c == '\r' {
                word_lexer(chars, at, buff, state)
            } else if c == '#' {
                *state = State::Comment;
                buff.clear();
                proof {
                    assert(buff@ =~= Seq::<char>::empty());
                }
                word_lexer(chars, at, buff, state)
            } else {
                *state = State::Word;
                buff.clear();
                buff.push(c);
                proof {
                    assert(buff@ =~= seq![c]);
                }
                word_lexer(chars, at, buff, state)
            }
        },
        State::Comment => {
            if c == '\n' {
                *state = State::Begin;
                Some(GeneralWordType::Comment)
            } else {
                buff.push(c);
                word_lexer(chars, at, buff, state)
            }
        },
        State::Word => {
            if c == '#' {
                *state = State::Comment;
                Some(GeneralWordType::Word)
            } else if c == '\n' || c == '\t' || c == ' ' || c == '\r' {
                *state = State::Begin;
                Some(GeneralWordType::Word)
            } else {
                buff.push(c);
                word_lexer(chars, at, buff, state)
            }
        },
    }
}

/// First sketch of the lexer entry point: a placeholder that yields a single
/// opening composition token.
pub fn lexer(_src: &str) -> (r: Vec<Word>)
    ensures
        r@.len() == 1,
        r@[0] is DirectoryCompositionBegin,
{
    let mut v: Vec<Word> = Vec::new();
    v.push(Word::DirectoryCompositionBegin);
    v
}

} // verus!
