//! Full lexer of the early grammar revision: an explicit state machine with
//! a one-token pushback slot for the symbol that ends a word.

use crate::char_iter::CharItem;
use crate::char_iter::Position;
use crate::configuration::lexer::pos_at;
use crate::configuration::lexer::WordV;
use crate::configuration::LexerError;
use crate::configuration::error::LexerErrorV;
use crate::text::char_is_alphanumeric;
use crate::text::chars_eq_str;
use crate::text::chars_to_string;
use crate::text::spec_alphanumeric;
use vstd::prelude::*;

verus! {

/// One lexer token of the early revision.
#[derive(Debug, PartialEq)]
pub enum Word {
    /// The `tag` keyword.
    KeywordTag,
    /// The `file` keyword.
    KeywordFile,
    /// The `dir` keyword.
    KeywordDir,
    /// The system variable for the package, `$pkg`.
    SystemPackage,
    /// The system variable for the executable binary, `$run`.
    SystemRun,
    /// The system variable for the executable test, `$test`.
    SystemTest,
    /// A simple unquoted string, used for variables and generator arguments.
    SimpleString(String),
    /// A file path, not yet unescaped, without the limit quotes.
    QuotedString(String),
    /// A literal string, not yet unescaped, without the limit quotes.
    DollardString(String),
    /// Colon, separates a key and a value.
    Colon,
    /// Comma, separates elements.
    Comma,
    /// The default generator operator, `??`.
    DefaultGenerator,
    /// The pipe whose input is a file, `|`.
    PipeFile,
    /// The pipe whose input is a directory, `>`.
    PipeDirectory,
    /// Opening symbol of a directory composition, `{`.
    DirectoryComposeOpen,
    /// Closing symbol of a directory composition, `}`.
    DirectoryComposeClose,
    /// Opening symbol of a directory concatenation, `[`.
    DirectoryConcatOpen,
    /// Closing symbol of a directory concatenation, `]`.
    DirectoryConcatClose,
    /// A comment, without the hash and the line break.
    Comment(String),
    /// A line break.
    NewLine,
}

impl View for Word {
    type V = WordV;

    open spec fn view(&self) -> WordV {
        match self {
            Word::KeywordTag => WordV::KeywordTag,
            Word::KeywordFile => WordV::KeywordFile,
            Word::KeywordDir => WordV::KeywordDir,
            Word::SystemPackage => WordV::SystemPackage,
            Word::SystemRun => WordV::SystemRun,
            Word::SystemTest => WordV::SystemTest,
            Word::SimpleString(s) => WordV::SimpleString(s@),
            Word::QuotedString(s) => WordV::QuotedString(s@),
            Word::DollardString(s) => WordV::DollardString(s@),
            Word::Colon => WordV::Colon,
            Word::Comma => WordV::Comma,
            Word::DefaultGenerator => WordV::DefaultGenerator,
            Word::PipeFile => WordV::PipeFile,
            Word::PipeDirectory => WordV::PipeDirectory,
            Word::DirectoryComposeOpen => WordV::DirectoryComposeOpen,
            Word::DirectoryComposeClose => WordV::DirectoryComposeClose,
            Word::DirectoryConcatOpen => WordV::DirectoryConcatOpen,
            Word::DirectoryConcatClose => WordV::DirectoryConcatClose,
            Word::Comment(s) => WordV::Comment(s@),
            Word::NewLine => WordV::NewLine,
        }
    }
}

/// The state of the lexer.
#[derive(Debug, Copy, Clone, PartialEq, Eq, Structural)]
pub enum State {
    /// Before a token.
    Initial,
    /// Inside a variable or a keyword.
    Word,
    /// Inside a comment.
    Comment,
    /// Inside a file path.
    File,
    /// Inside a file path, after a backslash.
    FileEscape,
    /// After the first question mark.
    QuestionMark,
    /// Just after a dollar.
    Dollar,
    /// Inside a system variable.
    System,
    /// Inside a literal string.
    String,
    /// Inside a literal string, after the backslash.
    StringEscape,
}

/// Classification of a finished bare word.
pub open spec fn old_word(w: Seq<char>) -> WordV {
    if w == "dir"@ {
        WordV::KeywordDir
    } else if w == "file"@ {
        WordV::KeywordFile
    } else if w == "tag"@ {
        WordV::KeywordTag
    } else {
        WordV::SimpleString(w)
    }
}

/// Classification of a finished system word.
pub open spec fn old_system(w: Seq<char>) -> Result<WordV, LexerErrorV> {
    if w == "pkg"@ {
        Ok(WordV::SystemPackage)
    } else if w == "run"@ {
        Ok(WordV::SystemRun)
    } else if w == "test"@ {
        Ok(WordV::SystemTest)
    } else {
        Err(LexerErrorV::UnknowSystem(w))
    }
}

/// Ghost kind of one lexer outcome: end of input, a token (with perhaps a
/// second, replayed token), or a fatal error.
pub ghost enum OldStep {
    End,
    Out(WordV, Option<WordV>, Seq<char>, State),
    Fail(LexerErrorV),
}

/// The single-symbol token for `c`, if any.
pub open spec fn symbol_word(c: char) -> Option<WordV> {
    if c == '[' {
        Some(WordV::DirectoryConcatOpen)
    } else if c == ']' {
        Some(WordV::DirectoryConcatClose)
    } else if c == '{' {
        Some(WordV::DirectoryComposeOpen)
    } else if c == '}' {
        Some(WordV::DirectoryComposeClose)
    } else if c == ':' {
        Some(WordV::Colon)
    } else if c == ',' {
        Some(WordV::Comma)
    } else if c == '|' {
        Some(WordV::PipeFile)
    } else if c == '>' {
        Some(WordV::PipeDirectory)
    } else {
        None
    }
}

/// Turn the classification of a finished word into an outcome, remembering
/// the replayed token `com` and the next state `st`.
pub open spec fn word_out(w: Seq<char>, com: Option<WordV>, rest: Seq<char>, st: State) -> OldStep {
    OldStep::Out(old_word(w), com, rest, st)
}

/// The same for a system word, whose classification can fail.
pub open spec fn system_out(w: Seq<char>, com: Option<WordV>, rest: Seq<char>, st: State) -> OldStep {
    match old_system(w) {
        Ok(t) => OldStep::Out(t, com, rest, st),
        Err(e) => OldStep::Fail(e),
    }
}

/// One run of the lexer state machine from the state `st` with the buffer
/// `buff`: what it emits and where it leaves the input.
pub open spec fn old_lex(s: Seq<char>, st: State, buff: Seq<char>) -> OldStep
    decreases s.len(),
{
    if s.len() == 0 {
        match st {
            State::Initial => OldStep::End,
            State::Word => word_out(buff, None, s, State::Initial),
            State::System => system_out(buff, None, s, State::Initial),
            State::Comment => OldStep::Out(WordV::Comment(buff), None, s, State::Initial),
            State::File => OldStep::Fail(LexerErrorV::StringWithoutEnd),
            State::FileEscape => OldStep::Fail(LexerErrorV::StringWithoutEnd),
            State::String => OldStep::Fail(LexerErrorV::StringWithoutEnd),
            State::StringEscape => OldStep::Fail(LexerErrorV::StringWithoutEnd),
            State::QuestionMark => OldStep::Fail(LexerErrorV::HalfDefaultGenerator),
            State::Dollar => OldStep::Fail(LexerErrorV::DollardAtEOF),
        }
    } else {
        let c = s[0];
        let r = s.drop_first();
        match st {
            State::Initial => {
                if c == ' ' || c == '\t' {
                    old_lex(r, State::Initial, buff)
                } else if c == '\n' {
                    OldStep::Out(WordV::NewLine, None, r, State::Initial)
                } else if symbol_word(c) is Some {
                    OldStep::Out(symbol_word(c)->Some_0, None, r, State::Initial)
                } else if c == '#' {
                    old_lex(r, State::Comment, buff)
                } else if c == '"' {
                    old_lex(r, State::File, buff)
                } else if c == '?' {
                    old_lex(r, State::QuestionMark, buff)
                } else if c == '$' {
                    old_lex(r, State::Dollar, buff)
                } else if spec_alphanumeric(c) {
                    old_lex(r, State::Word, buff.push(c))
                } else {
                    OldStep::Fail(LexerErrorV::UnknowChar(c))
                }
            },
            State::QuestionMark => {
                if c == '?' {
                    OldStep::Out(WordV::DefaultGenerator, None, r, State::Initial)
                } else {
                    OldStep::Fail(LexerErrorV::HalfDefaultGenerator)
                }
            },
            State::Comment => {
                if c == '\n' {
                    OldStep::Out(WordV::Comment(buff), None, r, State::Initial)
                } else {
                    old_lex(r, State::Comment, buff.push(c))
                }
            },
            State::File => {
                if c == '"' {
                    OldStep::Out(WordV::QuotedString(buff), None, r, State::Initial)
                } else if c == '\\' {
                    old_lex(r, State::FileEscape, buff)
                } else {
                    old_lex(r, State::File, buff.push(c))
                }
            },
            State::FileEscape => old_lex(r, State::File, buff.push('\\').push(c)),
            State::Word => {
                if c == '#' {
                    word_out(buff, None, r, State::Comment)
                } else if c == '"' {
                    word_out(buff, None, r, State::File)
                } else if symbol_word(c) is Some {
                    word_out(buff, symbol_word(c), r, State::Initial)
                } else if c == '?' {
                    word_out(buff, None, r, State::QuestionMark)
                } else if c == ' ' || c == '\t' {
                    word_out(buff, None, r, State::Initial)
                } else if c == '\n' {
                    word_out(buff, Some(WordV::NewLine), r, State::Initial)
                } else if c == '$' {
                    word_out(buff, None, r, State::Dollar)
                } else if spec_alphanumeric(c) {
                    old_lex(r, State::Word, buff.push(c))
                } else {
                    OldStep::Fail(LexerErrorV::UnknowChar(c))
                }
            },
            State::System => {
                if c == '#' {
                    system_out(buff, None, r, State::Comment)
                } else if c == '"' {
                    system_out(buff, None, r, State::File)
                } else if symbol_word(c) is Some {
                    system_out(buff, symbol_word(c), r, State::Initial)
                } else if c == '?' {
                    system_out(buff, None, r, State::QuestionMark)
                } else if c == ' ' || c == '\t' {
                    system_out(buff, None, r, State::Initial)
                } else if c == '\n' {
                    system_out(buff, Some(WordV::NewLine), r, State::Initial)
                } else if c == '$' {
                    system_out(buff, None, r, State::Dollar)
                } else if spec_alphanumeric(c) {
                    old_lex(r, State::System, buff.push(c))
                } else {
                    OldStep::Fail(LexerErrorV::UnknowChar(c))
                }
            },
            State::Dollar => {
                if c == '$' {
                    OldStep::Fail(LexerErrorV::DoubleDollard)
                } else if c == '"' {
                    old_lex(r, State::String, buff)
                } else if spec_alphanumeric(c) {
                    old_lex(r, State::System, buff.push(c))
                } else {
                    OldStep::Fail(LexerErrorV::UnknowChar(c))
                }
            },
            State::String => {
                if c == '"' {
                    OldStep::Out(WordV::DollardString(buff), None, r, State::Initial)
                } else if c == '\\' {
                    old_lex(r, State::StringEscape, buff)
                } else {
                    old_lex(r, State::String, buff.push(c))
                }
            },
            State::StringEscape => old_lex(r, State::String, buff.push('\\').push(c)),
        }
    }
}

/// An emitted token always makes progress: what it leaves behind (unread
/// input, replayed token, machine not back in its initial state) is smaller
/// than what the run started from.
pub open spec fn lex_weight(s: Seq<char>, com: bool, st: State) -> int {
    s.len() + (if com {
        1int
    } else {
        0int
    }) + (if st is Initial {
        0int
    } else {
        1int
    })
}

pub proof fn lemma_old_lex_progress(s: Seq<char>, st: State, buff: Seq<char>)
    ensures
        old_lex(s, st, buff) matches OldStep::Out(w, com, rest, stn) ==> lex_weight(
            rest,
            com is Some,
            stn,
        ) < lex_weight(s, false, st),
    decreases s.len(),
{
    if s.len() > 0 {
        let c = s[0];
        let r = s.drop_first();
        match st {
            State::Initial => {
                if c == ' ' || c == '\t' {
                    lemma_old_lex_progress(r, State::Initial, buff);
                } else if c == '#' {
                    lemma_old_lex_progress(r, State::Comment, buff);
                } else if c == '"' {
                    lemma_old_lex_progress(r, State::File, buff);
                } else if c == '?' {
                    lemma_old_lex_progress(r, State::QuestionMark, buff);
                } else if c == '$' {
                    lemma_old_lex_progress(r, State::Dollar, buff);
                } else if spec_alphanumeric(c) {
                    lemma_old_lex_progress(r, State::Word, buff.push(c));
                }
            },
            State::Comment => {
                if c != '\n' {
                    lemma_old_lex_progress(r, State::Comment, buff.push(c));
                }
            },
            State::File => {
                if c == '\\' {
                    lemma_old_lex_progress(r, State::FileEscape, buff);
                } else if c != '"' {
                    lemma_old_lex_progress(r, State::File, buff.push(c));
                }
            },
            State::FileEscape => {
                lemma_old_lex_progress(r, State::File, buff.push('\\').push(c));
            },
            State::Word => {
                if spec_alphanumeric(c) && c != '#' && c != '"' && symbol_word(c) is None && c
                    != '?' && c != ' ' && c != '\t' && c != '\n' && c != '$' {
                    lemma_old_lex_progress(r, State::Word, buff.push(c));
                }
            },
            State::System => {
                if spec_alphanumeric(c) && c != '#' && c != '"' && symbol_word(c) is None && c
                    != '?' && c != ' ' && c != '\t' && c != '\n' && c != '$' {
                    lemma_old_lex_progress(r, State::System, buff.push(c));
                }
            },
            State::Dollar => {
                if c == '"' {
                    lemma_old_lex_progress(r, State::String, buff);
                } else if c != '$' && spec_alphanumeric(c) {
                    lemma_old_lex_progress(r, State::System, buff.push(c));
                }
            },
            State::String => {
                if c == '\\' {
                    lemma_old_lex_progress(r, State::StringEscape, buff);
                } else if c != '"' {
                    lemma_old_lex_progress(r, State::String, buff.push(c));
                }
            },
            State::StringEscape => {
                lemma_old_lex_progress(r, State::String, buff.push('\\').push(c));
            },
            State::QuestionMark => {},
        }
    }
}

/// The token stream the lexer yields from `src` once `consumed` characters
/// are read, in the state `st` with the replayed token `comming` waiting:
/// each token with the position where its read began.  A lexical error ends
/// the stream silently; the iteration stops and the error is read with
/// [`Lexer::err`].
pub open spec fn sp_dlex(
    src: Seq<char>,
    consumed: int,
    st: State,
    comming: Option<WordV>,
) -> Seq<(Position, WordV)>
    decreases src.len() - consumed, (if st is Initial {
        0int
    } else {
        2int
    }) + (if comming is Some {
        1int
    } else {
        0int
    }) when 0 <= consumed <= src.len()
{
    match comming {
        Some(w) => seq![(pos_at(src, consumed), w)] + sp_dlex(src, consumed, st, None),
        None => match old_lex(src.skip(consumed), st, Seq::empty()) {
            OldStep::End => Seq::empty(),
            OldStep::Fail(e) => Seq::empty(),
            OldStep::Out(w, com, rest, st2) => {
                let c2 = src.len() - rest.len();
                if c2 > consumed {
                    let c3 = if c2 > src.len() {
                        src.len() as int
                    } else {
                        c2
                    };
                    seq![(pos_at(src, consumed), w)] + sp_dlex(src, c3, st2, com)
                } else if !(st is Initial) {
                    // A token emitted at the end of the input consumes
                    // nothing and leaves the machine in its initial state.
                    seq![(pos_at(src, consumed), w)] + sp_dlex(src, consumed, State::Initial, com)
                } else {
                    // Guard only: from the initial state every token
                    // consumes input.
                    Seq::empty()
                }
            },
        },
    }
}

/// The lexer of the early revision: splits the input into [`Word`] tokens.
/// Once an error is recorded nothing more is yielded; the error is read with
/// [`Lexer::err`].
pub struct Lexer<'a> {
    chars: CharItem<'a>,
    state: State,
    /// The text of the current comment, variable name, string body.
    buff: Vec<char>,
    /// A token found while ending the previous one, sent at the coming call.
    comming: Option<Word>,
    /// The recorded error.
    error: Option<LexerError>,
}

impl<'a> Lexer<'a> {
    /// The input not yet read.
    pub closed spec fn remaining(self) -> Seq<char> {
        self.chars.remaining()
    }

    /// The current state of the machine.
    pub closed spec fn state_of(self) -> State {
        self.state
    }

    /// The recorded error, if any.
    pub closed spec fn error_of(self) -> Option<LexerError> {
        self.error
    }

    /// The replayed token waiting to be sent, if any.
    pub closed spec fn comming_of(self) -> Option<WordV> {
        match self.comming {
            Some(w) => Some(w@),
            None => None,
        }
    }

    /// The position of the next character the lexer will read.
    pub closed spec fn spec_position(self) -> Position {
        self.chars.spec_position()
    }

    /// The whole input text.
    pub closed spec fn source(self) -> Seq<char> {
        self.chars.source()
    }

    pub closed spec fn wf(self) -> bool {
        self.chars.wf()
    }

    /// How the views of a well-formed lexer relate: what is not yet read is
    /// the matching suffix of the source, and the current position is the
    /// position of the first unread character.
    pub proof fn lemma_state(self)
        requires
            self.wf(),
        ensures
            0 <= self.source().len() - self.remaining().len() <= self.source().len(),
            self.remaining() == self.source().skip(
                self.source().len() - self.remaining().len(),
            ),
            self.spec_position() == pos_at(
                self.source(),
                self.source().len() - self.remaining().len(),
            ),
    {
        self.chars.lemma_parts();
    }

    /// Create a new lexer for the configuration text.
    pub fn new(config: &'a str) -> (r: Lexer<'a>)
        requires
            config@.len() < usize::MAX,
        ensures
            r.wf(),
            r.source() == config@,
            r.remaining() == config@,
            r.state_of() == State::Initial,
            r.error_of() is None,
            r.comming_of() is None,
    {
        Lexer {
            chars: CharItem::new(config),
            state: State::Initial,
            buff: Vec::new(),
            comming: None,
            error: None,
        }
    }

    /// Classify the buffered word: a keyword or a variable.  Always `Some`.
    fn type_word(&self) -> (r: Option<Word>)
        ensures
            r matches Some(w) && w@ == old_word(self.buff@),
    {
        Some(
            if chars_eq_str(&self.buff, "dir") {
                Word::KeywordDir
            } else if chars_eq_str(&self.buff, "file") {
                Word::KeywordFile
            } else if chars_eq_str(&self.buff, "tag") {
                Word::KeywordTag
            } else {
                Word::SimpleString(chars_to_string(&self.buff))
            },
        )
    }

    /// Classify the buffered system word; records the error of an unknown
    /// one and yields `None`.
    fn type_system(&mut self) -> (r: Option<Word>)
        ensures
            final(self).chars == old(self).chars,
            final(self).comming == old(self).comming,
            final(self).buff == old(self).buff,
            match old_system(old(self).buff@) {
                Ok(t) => r matches Some(w) && w@ == t && final(self).error == old(self).error
                    && final(self).state == old(self).state,
                Err(e) => r is None && (final(self).error matches Some(err) && err@ == e)
                    && final(self).state == State::Initial,
            },
    {
        if chars_eq_str(&self.buff, "pkg") {
            Some(Word::SystemPackage)
        } else if chars_eq_str(&self.buff, "run") {
            Some(Word::SystemRun)
        } else if chars_eq_str(&self.buff, "test") {
            Some(Word::SystemTest)
        } else {
            self.set_err(LexerError::UnknowSystem(chars_to_string(&self.buff)));
            None
        }
    }

    /// Record the error and fall back to the initial state.
    fn set_err(&mut self, e: LexerError)
        ensures
            final(self).error == Some(e),
            final(self).state == State::Initial,
            final(self).chars == old(self).chars,
            final(self).comming == old(self).comming,
            final(self).buff == old(self).buff,
    {
        self.error = Some(e);
        self.state = State::Initial;
    }

    /// Take the error and the position where the lexing stopped.  To call at
    /// the end.
    pub fn err(self) -> (r: Result<(), (Position, LexerError)>)
        requires
            self.wf(),
        ensures
            match self.error_of() {
                None => r is Ok,
                Some(e) => r matches Err((p, e2)) && e2 == e && p == self.spec_position(),
            },
    {
        let p = self.chars.position();
        match self.error {
            Some(e) => Err((p, e)),
            None => Ok(()),
        }
    }

    /// Read the next token and the position reached when it was emitted.
    /// After the first recorded error nothing more is yielded.
    pub fn next(&mut self) -> (r: Option<(Position, Word)>)
        requires
            old(self).wf(),
        ensures
            final(self).wf(),
            final(self).source() == old(self).source(),
            old(self).error_of() is Some ==> r is None && *final(self) == *old(self),
            old(self).error_of() is None && old(self).comming_of() is Some ==> ({
                &&& r matches Some((p, word))
                &&& Some(word@) == old(self).comming_of()
                &&& p == old(self).spec_position()
                &&& final(self).comming_of() is None
                &&& final(self).remaining() == old(self).remaining()
                &&& final(self).error_of() is None
                &&& final(self).state_of() == old(self).state_of()
            }),
            old(self).error_of() is None && old(self).comming_of() is None ==> match old_lex(
                old(self).remaining(),
                old(self).state_of(),
                Seq::empty(),
            ) {
                OldStep::End => r is None && final(self).error_of() is None
                    && final(self).remaining() == Seq::<char>::empty()
                    && final(self).comming_of() is None
                    && final(self).state_of() == State::Initial,
                OldStep::Out(w, com, rest, st) => {
                    &&& r matches Some((p, word))
                    &&& word@ == w
                    &&& p == old(self).spec_position()
                    &&& final(self).comming_of() == com
                    &&& final(self).remaining() == rest
                    &&& final(self).state_of() == st
                    &&& final(self).error_of() is None
                },
                OldStep::Fail(e) => r is None && (final(self).error_of() matches Some(err) && err@
                    == e),
            },
    {
        if self.error.is_some() {
            return None;
        }
        let taken = self.comming.take();
        match taken {
            Some(w) => {
                let p = self.chars.position();
                Some((p, w))
            },
            None => {
                self.buff.clear();
                proof {
                    assert(self.buff@ =~= Seq::<char>::empty());
                }
                let p = self.chars.position();
                match self.word_lexer() {
                    Some(w) => Some((p, w)),
                    None => None,
                }
            },
        }
    }

    /// Run the state machine until it emits a token, fails, or exhausts the
    /// input.
    fn word_lexer(&mut self) -> (r: Option<Word>)
        requires
            old(self).wf(),
            old(self).error_of() is None,
            old(self).comming_of() is None,
        ensures
            final(self).wf(),
            final(self).source() == old(self).source(),
            match old_lex(old(self).remaining(), old(self).state_of(), old(self).buff@) {
                OldStep::End => r is None && final(self).error_of() is None
                    && final(self).remaining() == Seq::<char>::empty() && final(self).comming_of()
                    is None && final(self).state_of() == State::Initial,
                OldStep::Out(w, com, rest, st) => {
                    &&& r matches Some(word) && word@ == w
                    &&& final(self).comming_of() == com
                    &&& final(self).remaining() == rest
                    &&& final(self).state_of() == st
                    &&& final(self).error_of() is None
                },
                OldStep::Fail(e) => r is None && (final(self).error_of() matches Some(err)
                    && err@ == e),
            },
        decreases old(self).remaining().len(),
    {
        let ghost s0 = self.remaining();
        let next = self.chars.next();
        match next {
            None => {
                proof {
                    assert(self.remaining() =~= Seq::<char>::empty());
                }
                match self.state {
                    State::Initial => None,
                    State::Word => {
                        self.state = State::Initial;
                        self.type_word()
                    },
                    State::System => {
                        self.state = State::Initial;
                        self.type_system()
                    },
                    State::Comment => {
                        self.state = State::Initial;
                        Some(Word::Comment(chars_to_string(&self.buff)))
                    },
                    State::QuestionMark => {
                        self.set_err(LexerError::HalfDefaultGenerator);
                        None
                    },
                    State::Dollar => {
                        self.set_err(LexerError::DollardAtEOF);
                        None
                    },
                    _ => {
                        self.set_err(LexerError::StringWithoutEnd);
                        None
                    },
                }
            },
            Some(c) => {
                proof {
                    assert(s0[0] == c);
                    assert(self.remaining() =~= s0.drop_first());
                }
                match self.state {
                    State::Initial => {
                        if c == ' ' || c == '\t' {
                            self.word_lexer()
                        } else if c == '\n' {
                            Some(Word::NewLine)
                        } else if c == '[' {
                            Some(Word::DirectoryConcatOpen)
                        } else if c == ']' {
                            Some(Word::DirectoryConcatClose)
                        } else if c == '{' {
                            Some(Word::DirectoryComposeOpen)
                        } else if c == '}' {
                            Some(Word::DirectoryComposeClose)
                        } else if c == ':' {
                            Some(Word::Colon)
                        } else if c == ',' {
                            Some(Word::Comma)
                        } else if c == '|' {
                            Some(Word::PipeFile)
                        } else if c == '>' {
                            Some(Word::PipeDirectory)
                        } else if c == '#' {
                            self.state = State::Comment;
                            self.word_lexer()
                        } else if c == '"' {
                            self.state = State::File;
                            self.word_lexer()
                        } else if c == '?' {
                            self.state = State::QuestionMark;
                            self.word_lexer()
                        } else if c == '$' {
                            self.state = State::Dollar;
                            self.word_lexer()
                        } else if char_is_alphanumeric(c) {
                            self.state = State::Word;
                            self.buff.push(c);
                            self.word_lexer()
                        } else {
                            self.set_err(LexerError::UnknowChar(c));
                            None
                        }
                    },
                    State::QuestionMark => {
                        if c == '?' {
                            self.state = State::Initial;
                            Some(Word::DefaultGenerator)
                        } else {
                            self.set_err(LexerError::HalfDefaultGenerator);
                            None
                        }
                    },
                    State::Comment => {
                        if c == '\n' {
                            self.state = State::Initial;
                            Some(Word::Comment(chars_to_string(&self.buff)))
                        } else {
                            self.buff.push(c);
                            self.word_lexer()
                        }
                    },
                    State::File => {
                        if c == '"' {
                            self.state = State::Initial;
                            Some(Word::QuotedString(chars_to_string(&self.buff)))
                        } else if c == '\\' {
                            self.state = State::FileEscape;
                            self.word_lexer()
                        } else {
                            self.buff.push(c);
                            self.word_lexer()
                        }
                    },
                    State::FileEscape => {
                        self.state = State::File;
                        self.buff.push('\\');
                        self.buff.push(c);
                        proof {
                            assert(old(self).buff@.push('\\').push(c) =~= self.buff@);
                        }
                        self.word_lexer()
                    },
                    State::Word => {
                        if c == '#' {
                            self.state = State::Comment;
                            self.type_word()
                        } else if c == '"' {
                            self.state = State::File;
                            self.type_word()
                        } else if c == '[' {
                            self.state = State::Initial;
                            self.comming = Some(Word::DirectoryConcatOpen);
                            self.type_word()
                        } else if c == ']' {
                            self.state = State::Initial;
                            self.comming = Some(Word::DirectoryConcatClose);
                            self.type_word()
                        } else if c == '{' {
                            self.state = State::Initial;
                            self.comming = Some(Word::DirectoryComposeOpen);
                            self.type_word()
                        } else if c == '}' {
                            self.state = State::Initial;
                            self.comming = Some(Word::DirectoryComposeClose);
                            self.type_word()
                        } else if c == ':' {
                            self.state = State::Initial;
                            self.comming = Some(Word::Colon);
                            self.type_word()
                        } else if c == ',' {
                            self.state = State::Initial;
                            self.comming = Some(Word::Comma);
                            self.type_word()
                        } else if c == '|' {
                            self.state = State::Initial;
                            self.comming = Some(Word::PipeFile);
                            self.type_word()
                        } else if c == '>' {
                            self.state = State::Initial;
                            self.comming = Some(Word::PipeDirectory);
                            self.type_word()
                        } else if c == '?' {
                            self.state = State::QuestionMark;
                            self.type_word()
                        } else if c == ' ' || c == '\t' {
                            self.state = State::Initial;
                            self.type_word()
                        } else if c == '\n' {
                            self.state = State::Initial;
                            self.comming = Some(Word::NewLine);
                            self.type_word()
                        } else if c == '$' {
                            self.state = State::Dollar;
                            self.type_word()
                        } else if char_is_alphanumeric(c) {
                            self.buff.push(c);
                            self.word_lexer()
                        } else {
                            self.set_err(LexerError::UnknowChar(c));
                            None
                        }
                    },
                    State::System => {
                        if c == '#' {
                            self.state = State::Comment;
                            self.type_system()
                        } else if c == '"' {
                            self.state = State::File;
                            self.type_system()
                        } else if c == '[' {
                            self.state = State::Initial;
                            self.comming = Some(Word::DirectoryConcatOpen);
                            self.type_system()
                        } else if c == ']' {
                            self.state = State::Initial;
                            self.comming = Some(Word::DirectoryConcatClose);
                            self.type_system()
                        } else if c == '{' {
                            self.state = State::Initial;
                            self.comming = Some(Word::DirectoryComposeOpen);
                            self.type_system()
                        } else if c == '}' {
                            self.state = State::Initial;
                            self.comming = Some(Word::DirectoryComposeClose);
                            self.type_system()
                        } else if c == ':' {
                            self.state = State::Initial;
                            self.comming = Some(Word::Colon);
                            self.type_system()
                        } else if c == ',' {
                            self.state = State::Initial;
                            self.comming = Some(Word::Comma);
                            self.type_system()
                        } else if c == '|' {
                            self.state = State::Initial;
                            self.comming = Some(Word::PipeFile);
                            self.type_system()
                        } else if c == '>' {
                            self.state = State::Initial;
                            self.comming = Some(Word::PipeDirectory);
                            self.type_system()
                        } else if c == '?' {
                            self.state = State::QuestionMark;
                            self.type_system()
                        } else if c == ' ' || c == '\t' {
                            self.state = State::Initial;
                            self.type_system()
                        } else if c == '\n' {
                            self.state = State::Initial;
                            self.comming = Some(Word::NewLine);
                            self.type_system()
                        } else if c == '$' {
                            self.state = State::Dollar;
                            self.type_system()
                        } else if char_is_alphanumeric(c) {
                            self.buff.push(c);
                            self.word_lexer()
                        } else {
                            self.set_err(LexerError::UnknowChar(c));
                            None
                        }
                    },
                    State::Dollar => {
                        if c == '$' {
                            self.set_err(LexerError::DoubleDollard);
                            None
                        } else if c == '"' {
                            self.state = State::String;
                            self.word_lexer()
                        } else if char_is_alphanumeric(c) {
                            self.state = State::System;
                            self.buff.push(c);
                            self.word_lexer()
                        } else {
                            self.set_err(LexerError::UnknowChar(c));
                            None
                        }
                    },
                    State::String => {
                        if c == '"' {
                            self.state = State::Initial;
                            Some(Word::DollardString(chars_to_string(&self.buff)))
                        } else if c == '\\' {
                            self.state = State::StringEscape;
                            self.word_lexer()
                        } else {
                            self.buff.push(c);
                            self.word_lexer()
                        }
                    },
                    State::StringEscape => {
                        self.state = State::String;
                        self.buff.push('\\');
                        self.buff.push(c);
                        proof {
                            assert(old(self).buff@.push('\\').push(c) =~= self.buff@);
                        }
                        self.word_lexer()
                    },
                }
            },
        }
    }
}

} // verus!
