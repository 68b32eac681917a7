//! Lexer of the configuration grammar: a stateful character-to-token scanner
//! with string and escape handling and precise line/column tracking.

use super::error::LexerError;
use super::error::LexerErrorV;
use super::Position;
use crate::char_iter::column_after;
use crate::char_iter::line_after;
use crate::char_iter::CharItem;
use crate::text::char_is_alphanumeric;
use crate::text::chars_to_string;
use crate::text::spec_alphanumeric;
use vstd::prelude::*;

verus! {

/// One lexer token.
#[derive(Debug, PartialEq)]
pub enum Word {
    /// The `tag` keyword.
    KeywordTag,
    /// The `file` keyword.
    KeywordFile,
    /// The `dir` keyword.
    KeywordDir,
    /// The `gen` keyword.
    KeywordGenerator,
    /// The system variable for the package, `$pkg`.
    SystemPackage,
    /// The system variable for the executable binary, `$run`.
    SystemRun,
    /// The system variable for the executable test, `$test`.
    SystemTest,
    /// A simple unquoted string, used for variables and generator arguments.
    SimpleString(String),
    /// A file path.  It does not contain the limit quotes and it is not yet
    /// unescaped.
    QuotedString(String),
    /// A literal string, can be an URL or a value used as a file content.  It
    /// does not contain the limit quotes and it is not yet unescaped.
    DollardString(String),
    /// Colon, separates a key and a value in a directory composition.
    Colon,
    /// Comma, separates elements of a composition or a concatenation.
    Comma,
    /// The default generator operator, `??`.
    DefaultGenerator,
    /// The pipe whose input is a file, `|`.
    PipeFile,
    /// The pipe whose input is a directory, `>`.
    PipeDirectory,
    /// Opening symbol of a directory composition, `{`.
    DirectoryComposeOpen,
    /// Closing symbol of a directory composition, `}`.
    DirectoryComposeClose,
    /// Opening symbol of a directory concatenation, `[`.
    DirectoryConcatOpen,
    /// Closing symbol of a directory concatenation, `]`.
    DirectoryConcatClose,
    /// Opening parenthesis, groups a blob inside a generator chain.
    ParenthesisOpen,
    /// Closing parenthesis.
    ParenthesisClose,
    /// A comment, without the leading hash and the ending line break.
    Comment(String),
    /// A line break, significant to the statement grammar.
    NewLine,
}

/// Ghost shape of a [`Word`], with string payloads as character sequences.
pub ghost enum WordV {
    KeywordTag,
    KeywordFile,
    KeywordDir,
    KeywordGenerator,
    SystemPackage,
    SystemRun,
    SystemTest,
    SimpleString(Seq<char>),
    QuotedString(Seq<char>),
    DollardString(Seq<char>),
    Colon,
    Comma,
    DefaultGenerator,
    PipeFile,
    PipeDirectory,
    DirectoryComposeOpen,
    DirectoryComposeClose,
    DirectoryConcatOpen,
    DirectoryConcatClose,
    ParenthesisOpen,
    ParenthesisClose,
    Comment(Seq<char>),
    NewLine,
}

impl View for Word {
    type V = WordV;

    open spec fn view(&self) -> WordV {
        match self {
            Word::KeywordTag => WordV::KeywordTag,
            Word::KeywordFile => WordV::KeywordFile,
            Word::KeywordDir => WordV::KeywordDir,
            Word::KeywordGenerator => WordV::KeywordGenerator,
            Word::SystemPackage => WordV::SystemPackage,
            Word::SystemRun => WordV::SystemRun,
            Word::SystemTest => WordV::SystemTest,
            Word::SimpleString(s) => WordV::SimpleString(s@),
            Word::QuotedString(s) => WordV::QuotedString(s@),
            Word::DollardString(s) => WordV::DollardString(s@),
            Word::Colon => WordV::Colon,
            Word::Comma => WordV::Comma,
            Word::DefaultGenerator => WordV::DefaultGenerator,
            Word::PipeFile => WordV::PipeFile,
            Word::PipeDirectory => WordV::PipeDirectory,
            Word::DirectoryComposeOpen => WordV::DirectoryComposeOpen,
            Word::DirectoryComposeClose => WordV::DirectoryComposeClose,
            Word::DirectoryConcatOpen => WordV::DirectoryConcatOpen,
            Word::DirectoryConcatClose => WordV::DirectoryConcatClose,
            Word::ParenthesisOpen => WordV::ParenthesisOpen,
            Word::ParenthesisClose => WordV::ParenthesisClose,
            Word::Comment(s) => WordV::Comment(s@),
            Word::NewLine => WordV::NewLine,
        }
    }
}

/// The characters that end a bare word: they can not stand in a variable.
pub open spec fn is_special_spec(c: char) -> bool {
    ||| c == '$'
    ||| c == ' '
    ||| c == '?'
    ||| c == '\t'
    ||| c == '\n'
    ||| c == '['
    ||| c == ']'
    ||| c == '('
    ||| c == ')'
    ||| c == '{'
    ||| c == '}'
    ||| c == ':'
    ||| c == ','
    ||| c == '|'
    ||| c == '>'
    ||| c == '#'
}

/// Number of blank characters (space, tab) at the head of `s`.
pub open spec fn ws_len(s: Seq<char>) -> nat
    decreases s.len(),
{
    if s.len() == 0 {
        0
    } else if s[0] == ' ' || s[0] == '\t' {
        1 + ws_len(s.drop_first())
    } else {
        0
    }
}

/// Length of the bare word at the head of `s`: the run of characters before
/// the first special character.
pub open spec fn word_len(s: Seq<char>) -> nat
    decreases s.len(),
{
    if s.len() == 0 {
        0
    } else if is_special_spec(s[0]) {
        0
    } else {
        1 + word_len(s.drop_first())
    }
}

pub proof fn lemma_word_len_bound(s: Seq<char>)
    ensures
        word_len(s) <= s.len(),
        word_len(s) < s.len() ==> is_special_spec(s[word_len(s) as int]),
        forall|k: int| 0 <= k < word_len(s) ==> !is_special_spec(s[k]),
    decreases s.len(),
{
    if s.len() > 0 && !is_special_spec(s[0]) {
        lemma_word_len_bound(s.drop_first());
        assert forall|k: int| 0 <= k < word_len(s) implies !is_special_spec(s[k]) by {
            if k > 0 {
                assert(s[k] == s.drop_first()[k - 1]);
            }
        }
    }
}

/// Length of the comment or line at the head of `s`: the run of characters
/// before the first line break.
pub open spec fn line_len(s: Seq<char>) -> nat
    decreases s.len(),
{
    if s.len() == 0 {
        0
    } else if s[0] == '\n' {
        0
    } else {
        1 + line_len(s.drop_first())
    }
}

pub proof fn lemma_line_len_bound(s: Seq<char>)
    ensures
        line_len(s) <= s.len(),
        line_len(s) < s.len() ==> s[line_len(s) as int] == '\n',
        forall|k: int| 0 <= k < line_len(s) ==> s[k] != '\n',
    decreases s.len(),
{
    if s.len() > 0 && s[0] != '\n' {
        lemma_line_len_bound(s.drop_first());
        assert forall|k: int| 0 <= k < line_len(s) implies s[k] != '\n' by {
            if k > 0 {
                assert(s[k] == s.drop_first()[k - 1]);
            }
        }
    }
}

/// The text of the comment at the head of `s` (the leading hash is already
/// consumed): everything before the line break or the end of input.
pub open spec fn line_text(s: Seq<char>) -> Seq<char> {
    s.take(line_len(s) as int)
}

/// What follows the comment at the head of `s`: the line break that ends it
/// is consumed and not forwarded as a token.
pub open spec fn line_rest(s: Seq<char>) -> Seq<char> {
    if line_len(s) < s.len() {
        s.skip(line_len(s) as int + 1)
    } else {
        s.skip(line_len(s) as int)
    }
}

/// Scan of a quoted string body: `s` starts right after the opening quote.
/// Yields the raw payload (escape pairs kept verbatim) and the rest of the
/// input after the closing quote, or `None` when the quote is never closed.
pub open spec fn scan_string(s: Seq<char>) -> Option<(Seq<char>, Seq<char>)>
    decreases s.len(),
{
    if s.len() == 0 {
        None
    } else if s[0] == '"' {
        Some((Seq::empty(), s.drop_first()))
    } else if s[0] == '\\' {
        if s.len() == 1 {
            None
        } else {
            match scan_string(s.skip(2)) {
                Some((p, rest)) => Some((seq![s[0], s[1]] + p, rest)),
                None => None,
            }
        }
    } else {
        match scan_string(s.drop_first()) {
            Some((p, rest)) => Some((seq![s[0]] + p, rest)),
            None => None,
        }
    }
}

/// Round trip of the string scanner: the raw payload of a quoted or dollar
/// string, followed by the closing quote and the unread rest, is exactly the
/// input — the payload reproduces the substring between the matching quotes,
/// embedded escaped quotes included.
pub proof fn lemma_scan_string_round_trip(s: Seq<char>)
    requires
        scan_string(s) is Some,
    ensures
        s == scan_string(s)->Some_0.0 + seq!['"'] + scan_string(s)->Some_0.1,
    decreases s.len(),
{
    let (p, rest) = scan_string(s)->Some_0;
    if s[0] == '"' {
        assert(s =~= Seq::empty() + seq!['"'] + s.drop_first());
    } else if s[0] == '\\' {
        lemma_scan_string_round_trip(s.skip(2));
        let (p2, rest2) = scan_string(s.skip(2))->Some_0;
        assert(s =~= seq![s[0], s[1]] + s.skip(2));
        assert((seq![s[0], s[1]] + p2) + seq!['"'] + rest2 =~= seq![s[0], s[1]] + (p2 + seq!['"']
            + rest2));
    } else {
        lemma_scan_string_round_trip(s.drop_first());
        let (p2, rest2) = scan_string(s.drop_first())->Some_0;
        assert(s =~= seq![s[0]] + s.drop_first());
        assert((seq![s[0]] + p2) + seq!['"'] + rest2 =~= seq![s[0]] + (p2 + seq!['"'] + rest2));
    }
}

/// Classification of a bare word: keyword or simple string.
pub open spec fn classify_word(w: Seq<char>) -> WordV {
    if w == "dir"@ {
        WordV::KeywordDir
    } else if w == "file"@ {
        WordV::KeywordFile
    } else if w == "tag"@ {
        WordV::KeywordTag
    } else if w == "gen"@ {
        WordV::KeywordGenerator
    } else {
        WordV::SimpleString(w)
    }
}

/// Classification of a word read after a dollar: one of the three system
/// variables, or an unknown-system error.
pub open spec fn classify_system(w: Seq<char>) -> Result<WordV, LexerErrorV> {
    if w == "pkg"@ {
        Ok(WordV::SystemPackage)
    } else if w == "run"@ {
        Ok(WordV::SystemRun)
    } else if w == "test"@ {
        Ok(WordV::SystemTest)
    } else {
        Err(LexerErrorV::UnknowSystem(w))
    }
}

/// Outcome of reading one token: end of input, a token together with the
/// unread rest of the input, or a fatal lexical error.
pub ghost enum LexStep {
    End,
    Tok(WordV, Seq<char>),
    Fail(LexerErrorV),
}

/// One step of the lexer after a dollar sign: `s` is what follows the `$`.
pub open spec fn lex_dollar(s: Seq<char>) -> LexStep {
    if s.len() == 0 {
        LexStep::Fail(LexerErrorV::DollardAtEOF)
    } else if s[0] == '$' {
        LexStep::Fail(LexerErrorV::DoubleDollard)
    } else if s[0] == '"' {
        match scan_string(s.drop_first()) {
            Some((p, rest)) => LexStep::Tok(WordV::DollardString(p), rest),
            None => LexStep::Fail(LexerErrorV::StringWithoutEnd),
        }
    } else if spec_alphanumeric(s[0]) {
        let wl = word_len(s) as int;
        match classify_system(s.take(wl)) {
            Ok(w) => LexStep::Tok(w, s.skip(wl)),
            Err(e) => LexStep::Fail(e),
        }
    } else {
        LexStep::Fail(LexerErrorV::UnknowChar(s[0]))
    }
}

/// One step of the lexer: the next token of `s`, after skipping blanks.
pub open spec fn lex_next(s: Seq<char>) -> LexStep
    decreases s.len(),
{
    if s.len() == 0 {
        LexStep::End
    } else {
        let c = s[0];
        let r = s.drop_first();
        if c == ' ' || c == '\t' {
            lex_next(r)
        } else if c == '\n' {
            LexStep::Tok(WordV::NewLine, r)
        } else if c == '[' {
            LexStep::Tok(WordV::DirectoryConcatOpen, r)
        } else if c == ']' {
            LexStep::Tok(WordV::DirectoryConcatClose, r)
        } else if c == '(' {
            LexStep::Tok(WordV::ParenthesisOpen, r)
        } else if c == ')' {
            LexStep::Tok(WordV::ParenthesisClose, r)
        } else if c == '{' {
            LexStep::Tok(WordV::DirectoryComposeOpen, r)
        } else if c == '}' {
            LexStep::Tok(WordV::DirectoryComposeClose, r)
        } else if c == ':' {
            LexStep::Tok(WordV::Colon, r)
        } else if c == ',' {
            LexStep::Tok(WordV::Comma, r)
        } else if c == '|' {
            LexStep::Tok(WordV::PipeFile, r)
        } else if c == '>' {
            LexStep::Tok(WordV::PipeDirectory, r)
        } else if c == '?' {
            if r.len() > 0 && r[0] == '?' {
                LexStep::Tok(WordV::DefaultGenerator, r.drop_first())
            } else {
                LexStep::Fail(LexerErrorV::HalfDefaultGenerator)
            }
        } else if c == '$' {
            lex_dollar(r)
        } else if c == '"' {
            match scan_string(r) {
                Some((p, rest)) => LexStep::Tok(WordV::QuotedString(p), rest),
                None => LexStep::Fail(LexerErrorV::StringWithoutEnd),
            }
        } else if c == '#' {
            LexStep::Tok(WordV::Comment(line_text(r)), line_rest(r))
        } else {
            let wl = word_len(s) as int;
            LexStep::Tok(classify_word(s.take(wl)), s.skip(wl))
        }
    }
}

/// The position of the character at offset `idx` of `src`.
pub open spec fn pos_at(src: Seq<char>, idx: int) -> Position {
    Position {
        line: line_after(src.take(idx)) as usize,
        column: column_after(src.take(idx)) as usize,
    }
}

/// The lexer: splits the input into [`Word`] tokens.  Once it has reported an
/// error it is exhausted and yields nothing more.
pub struct Lexer<'a> {
    chars: CharItem<'a>,
    comming_char: Option<(Position, char)>,
    failed: bool,
}

impl<'a> Lexer<'a> {
    /// The whole input text.
    pub closed spec fn source(self) -> Seq<char> {
        self.chars.source()
    }

    /// The input not yet turned into tokens, the replayed character included.
    pub closed spec fn remaining(self) -> Seq<char> {
        match self.comming_char {
            Some((p, c)) => seq![c] + self.chars.remaining(),
            None => self.chars.remaining(),
        }
    }

    /// Number of input characters already turned into tokens.
    pub closed spec fn consumed_len(self) -> int {
        self.chars.consumed().len() - (if self.comming_char is Some {
            1int
        } else {
            0int
        })
    }

    /// Whether the lexer already reported an error.
    pub closed spec fn dead(self) -> bool {
        self.failed
    }

    pub closed spec fn wf(self) -> bool {
        &&& self.chars.wf()
        &&& match self.comming_char {
            Some((p, c)) => {
                &&& self.chars.consumed().len() >= 1
                &&& self.chars.consumed().last() == c
                &&& p == pos_at(self.chars.source(), self.chars.consumed().len() - 1)
            },
            None => true,
        }
    }

    /// How the views of a well-formed lexer relate: what is not yet consumed
    /// is the matching suffix of the source.
    pub proof fn lemma_state(self)
        requires
            self.wf(),
        ensures
            0 <= self.consumed_len() <= self.source().len() < usize::MAX,
            self.remaining() == self.source().skip(self.consumed_len()),
            self.remaining().len() == self.source().len() - self.consumed_len(),
    {
        self.chars.lemma_parts();
        match self.comming_char {
            Some((p, c)) => {
                assert(self.remaining() =~= self.source().skip(self.consumed_len()));
            },
            None => {},
        }
    }

    /// Create a new lexer for the configuration text.
    pub fn new(config: &'a str) -> (r: Lexer<'a>)
        requires
            config@.len() < usize::MAX,
        ensures
            r.wf(),
            r.source() == config@,
            r.remaining() == config@,
            r.consumed_len() == 0,
            !r.dead(),
    {
        let chars = CharItem::new(config);
        proof {
            assert(config@.skip(0) =~= config@);
        }
        Lexer { chars, comming_char: None, failed: false }
    }

    /// The position of the next character the lexer will read; after an
    /// error, where the lexing stopped.
    pub fn position(&self) -> (r: Position)
        requires
            self.wf(),
        ensures
            r == self.current_position(),
    {
        self.chars.position()
    }

    /// The position of the next character the lexer will read.
    pub closed spec fn current_position(self) -> Position {
        self.chars.spec_position()
    }

    /// This character can not stand in a variable.
    fn is_special(c: char) -> (r: bool)
        ensures
            r == is_special_spec(c),
    {
        c == '$' || c == ' ' || c == '?' || c == '\t' || c == '\n' || c == '[' || c == ']' || c
            == '(' || c == ')' || c == '{' || c == '}' || c == ':' || c == ',' || c == '|' || c
            == '>' || c == '#'
    }

    /// Read the next token and the position of its first character.  Blanks
    /// are skipped; a line break is a token of its own.  After the first
    /// error, or at the end of the input, `None` is returned forever.
    pub fn word_lexer(&mut self) -> (r: Option<Result<(Position, Word), LexerError>>)
        requires
            old(self).wf(),
        ensures
            final(self).wf(),
            final(self).source() == old(self).source(),
            old(self).dead() ==> r is None && *final(self) == *old(self),
            !old(self).dead() ==> match lex_next(old(self).remaining()) {
                LexStep::End => r is None && !final(self).dead() && final(self).remaining()
                    == Seq::<char>::empty(),
                LexStep::Tok(w, rest) => {
                    &&& r matches Some(Ok((pos, word)))
                    &&& word@ == w
                    &&& pos == pos_at(
                        old(self).source(),
                        old(self).consumed_len() + ws_len(old(self).remaining()),
                    )
                    &&& final(self).remaining() == rest
                    &&& !final(self).dead()
                },
                LexStep::Fail(e) => {
                    &&& r matches Some(Err(err))
                    &&& err@ == e
                    &&& final(self).dead()
                },
            },
        decreases old(self).remaining().len(),
    {
        if self.failed {
            return None;
        }
        let ghost rem0 = self.remaining();
        let ghost src = self.source();
        let ghost idx0 = self.consumed_len();
        let taken = self.comming_char;
        proof {
            self.chars.lemma_parts();
        }
        self.comming_char = None;
        let (pos, c) = match taken {
            Some(pc) => pc,
            None => {
                let p = self.chars.position();
                match self.chars.next() {
                    None => {
                        proof {
                            assert(self.remaining() =~= Seq::<char>::empty());
                        }
                        return None;
                    },
                    Some(c) => (p, c),
                }
            },
        };
        proof {
            assert(rem0.len() > 0);
            assert(rem0[0] == c);
            assert(self.chars.remaining() =~= rem0.drop_first());
            assert(self.remaining() == rem0.drop_first());
            if taken is Some {
                assert(src.take(idx0) =~= self.chars.consumed().drop_last());
                assert(pos == pos_at(src, idx0));
            } else {
                assert(pos == pos_at(src, idx0));
            }
        }
        let ghost rem1 = self.remaining();
        if c == ' ' || c == '\t' {
            let r = self.word_lexer();
            proof {
                assert(lex_next(rem0) == lex_next(rem1));
                assert(ws_len(rem0) == 1 + ws_len(rem1));
            }
            return r;
        }
        proof {
            assert(ws_len(rem0) == 0);
        }
        if c == '\n' {
            return Some(Ok((pos, Word::NewLine)));
        }
        if c == '[' {
            return Some(Ok((pos, Word::DirectoryConcatOpen)));
        }
        if c == ']' {
            return Some(Ok((pos, Word::DirectoryConcatClose)));
        }
        if c == '(' {
            return Some(Ok((pos, Word::ParenthesisOpen)));
        }
        if c == ')' {
            return Some(Ok((pos, Word::ParenthesisClose)));
        }
        if c == '{' {
            return Some(Ok((pos, Word::DirectoryComposeOpen)));
        }
        if c == '}' {
            return Some(Ok((pos, Word::DirectoryComposeClose)));
        }
        if c == ':' {
            return Some(Ok((pos, Word::Colon)));
        }
        if c == ',' {
            return Some(Ok((pos, Word::Comma)));
        }
        if c == '|' {
            return Some(Ok((pos, Word::PipeFile)));
        }
        if c == '>' {
            return Some(Ok((pos, Word::PipeDirectory)));
        }
        if c == '?' {
            match self.chars.next() {
                Some(c2) if c2 == '?' => {
                    proof {
                        assert(self.remaining() =~= rem1.drop_first());
                    }
                    return Some(Ok((pos, Word::DefaultGenerator)));
                },
                _ => {
                    self.failed = true;
                    return Some(Err(LexerError::HalfDefaultGenerator));
                },
            }
        }
        if c == '$' {
            return match self.read_dollar_next() {
                Ok(w) => Some(Ok((pos, w))),
                Err(e) => {
                    self.failed = true;
                    Some(Err(e))
                },
            };
        }
        if c == '"' {
            return match self.read_string(false) {
                Ok(w) => Some(Ok((pos, w))),
                Err(e) => {
                    self.failed = true;
                    Some(Err(e))
                },
            };
        }
        if c == '#' {
            let w = self.read_comment();
            return Some(Ok((pos, w)));
        }
        proof {
            assert(!is_special_spec(c));
            assert(word_len(rem0) == 1 + word_len(rem1));
            lemma_word_len_bound(rem1);
        }
        let buff = self.read_var(c);
        proof {
            assert(seq![c] + rem1.take(word_len(rem1) as int) =~= rem0.take(word_len(rem0) as int));
            assert(rem1.skip(word_len(rem1) as int) =~= rem0.skip(word_len(rem0) as int));
        }
        let w = if crate::text::chars_eq_str(&buff, "dir") {
            Word::KeywordDir
        } else if crate::text::chars_eq_str(&buff, "file") {
            Word::KeywordFile
        } else if crate::text::chars_eq_str(&buff, "tag") {
            Word::KeywordTag
        } else if crate::text::chars_eq_str(&buff, "gen") {
            Word::KeywordGenerator
        } else {
            Word::SimpleString(chars_to_string(&buff))
        };
        Some(Ok((pos, w)))
    }

    /// A dollar was read: read what it starts — a dollar string, or a system
    /// variable.
    fn read_dollar_next(&mut self) -> (r: Result<Word, LexerError>)
        requires
            old(self).wf(),
            old(self).comming_char is None,
            !old(self).dead(),
        ensures
            final(self).wf(),
            final(self).source() == old(self).source(),
            !final(self).dead(),
            match lex_dollar(old(self).remaining()) {
                LexStep::Tok(w, rest) => r matches Ok(word) && word@ == w
                    && final(self).remaining() == rest,
                LexStep::Fail(e) => r matches Err(err) && err@ == e,
                LexStep::End => false,
            },
    {
        let ghost rem0 = self.remaining();
        match self.chars.next() {
            None => Err(LexerError::DollardAtEOF),
            Some(c) => {
                proof {
                    assert(rem0[0] == c);
                    assert(self.chars.remaining() =~= rem0.drop_first());
                }
                if c == '$' {
                    Err(LexerError::DoubleDollard)
                } else if c == '"' {
                    self.read_string(true)
                } else if char_is_alphanumeric(c) {
                    proof {
                        assert(!is_special_spec(c));
                        assert(word_len(rem0) == 1 + word_len(rem0.drop_first()));
                        lemma_word_len_bound(rem0.drop_first());
                    }
                    let buff = self.read_var(c);
                    proof {
                        assert(seq![c] + rem0.drop_first().take(
                            word_len(rem0.drop_first()) as int,
                        ) =~= rem0.take(word_len(rem0) as int));
                        assert(rem0.drop_first().skip(word_len(rem0.drop_first()) as int)
                            =~= rem0.skip(word_len(rem0) as int));
                    }
                    if crate::text::chars_eq_str(&buff, "pkg") {
                        Ok(Word::SystemPackage)
                    } else if crate::text::chars_eq_str(&buff, "run") {
                        Ok(Word::SystemRun)
                    } else if crate::text::chars_eq_str(&buff, "test") {
                        Ok(Word::SystemTest)
                    } else {
                        Err(LexerError::UnknowSystem(chars_to_string(&buff)))
                    }
                } else {
                    Err(LexerError::UnknowChar(c))
                }
            },
        }
    }

    /// Read the rest of a variable or keyword whose first character is
    /// `first`: everything up to the next special character, which is
    /// remembered and replayed as the next token.
    fn read_var(&mut self, first: char) -> (buff: Vec<char>)
        requires
            old(self).wf(),
            old(self).comming_char is None,
            !old(self).dead(),
        ensures
            final(self).wf(),
            final(self).source() == old(self).source(),
            !final(self).dead(),
            buff@ == seq![first] + old(self).remaining().take(word_len(old(self).remaining()) as int),
            final(self).remaining() == old(self).remaining().skip(
                word_len(old(self).remaining()) as int,
            ),
    {
        let ghost rem0 = self.remaining();
        let ghost src = self.source();
        let mut buff: Vec<char> = Vec::new();
        buff.push(first);
        proof {
            assert(buff@.drop_first() =~= rem0.take(0));
            assert(self.chars.remaining() =~= rem0.skip(0));
        }
        loop
            invariant_except_break
                self.wf(),
                self.comming_char is None,
                !self.failed,
                self.source() == src,
                buff@.len() >= 1,
                buff@[0] == first,
                buff@.len() - 1 <= rem0.len(),
                buff@.drop_first() == rem0.take(buff@.len() as int - 1),
                self.chars.remaining() == rem0.skip(buff@.len() as int - 1),
                forall|k: int| 0 <= k < buff@.len() - 1 ==> !is_special_spec(rem0[k]),
            ensures
                self.wf(),
                !self.failed,
                self.source() == src,
                buff@ == seq![first] + rem0.take(word_len(rem0) as int),
                self.remaining() == rem0.skip(word_len(rem0) as int),
            decreases rem0.len() as int - (buff@.len() as int - 1),
        {
            let ghost k = buff@.len() as int - 1;
            proof {
                self.chars.lemma_parts();
            }
            let p = self.chars.position();
            match self.chars.next() {
                None => {
                    proof {
                        assert(k == rem0.len());
                        lemma_word_len_prefix(rem0, k);
                        assert(seq![first] + rem0.take(word_len(rem0) as int) =~= buff@);
                        assert(self.remaining() =~= rem0.skip(word_len(rem0) as int));
                    }
                    break;
                },
                Some(ch) => {
                    proof {
                        assert(rem0[k] == ch);
                    }
                    if Self::is_special(ch) {
                        proof {
                            lemma_word_len_prefix(rem0, k);
                            assert(seq![first] + rem0.take(word_len(rem0) as int) =~= buff@);
                            assert(seq![ch] + self.chars.remaining() =~= rem0.skip(
                                word_len(rem0) as int,
                            ));
                            assert(self.chars.consumed().drop_last() =~= src.take(
                                self.chars.consumed().len() as int - 1,
                            ));
                        }
                        self.comming_char = Some((p, ch));
                        break;
                    }
                    proof {
                        assert(buff@.push(ch).drop_first() =~= rem0.take(k + 1));
                        assert(self.chars.remaining() =~= rem0.skip(k + 1));
                    }
                    buff.push(ch);
                },
            }
        }
        buff
    }

    /// Read the whole body of a quoted or dollar string: the raw payload is
    /// kept verbatim, a backslash keeping both itself and the character that
    /// follows for the later unescape pass.
    #[verifier::loop_isolation(false)]
    fn read_string(&mut self, dollar_begin: bool) -> (r: Result<Word, LexerError>)
        requires
            old(self).wf(),
            old(self).comming_char is None,
            !old(self).dead(),
        ensures
            final(self).wf(),
            final(self).source() == old(self).source(),
            !final(self).dead(),
            match scan_string(old(self).remaining()) {
                Some((p, rest)) => {
                    &&& r matches Ok(word)
                    &&& word@ == (if dollar_begin {
                        WordV::DollardString(p)
                    } else {
                        WordV::QuotedString(p)
                    })
                    &&& final(self).remaining() == rest
                },
                None => r matches Err(err) && err is StringWithoutEnd,
            },
    {
        let ghost rem0 = old(self).remaining();
        let mut buff: Vec<char> = Vec::new();
        proof {
            assert(rem0 == self.remaining());
            if let Some((p, rest)) = scan_string(rem0) {
                assert(p =~= Seq::<char>::empty() + p);
            }
        }
        loop
            invariant
                self.wf(),
                self.comming_char is None,
                !self.failed,
                self.source() == old(self).source(),
                match scan_string(rem0) {
                    Some((p, rest)) => scan_string(self.chars.remaining()) matches Some(pr) && p
                        == buff@ + pr.0 && rest == pr.1,
                    None => scan_string(self.chars.remaining()) is None,
                },
            decreases self.chars.remaining().len(),
        {
            let ghost cur = self.chars.remaining();
            match self.chars.next() {
                None => {
                    proof {
                        assert(cur.len() == 0);
                        assert(scan_string(cur) is None);
                        assert(scan_string(rem0) is None);
                    }
                    return Err(LexerError::StringWithoutEnd);
                },
                Some(ch) => {
                    proof {
                        assert(cur[0] == ch);
                        assert(self.chars.remaining() =~= cur.drop_first());
                    }
                    if ch == '"' {
                        proof {
                            if let Some((p, rest)) = scan_string(rem0) {
                                assert(buff@ + Seq::<char>::empty() =~= buff@);
                            }
                        }
                        return Ok(
                            if dollar_begin {
                                Word::DollardString(chars_to_string(&buff))
                            } else {
                                Word::QuotedString(chars_to_string(&buff))
                            },
                        );
                    }
                    if ch == '\\' {
                        match self.chars.next() {
                            None => {
                                proof {
                                    assert(cur.len() == 1);
                                    assert(scan_string(cur) is None);
                                    assert(scan_string(rem0) is None);
                                }
                                return Err(LexerError::StringWithoutEnd);
                            },
                            Some(c2) => {
                                proof {
                                    assert(cur[1] == c2);
                                    assert(self.chars.remaining() =~= cur.skip(2));
                                    assert(buff@.push(ch).push(c2) =~= buff@ + seq![ch, c2]);
                                    if let Some((p2, rest2)) = scan_string(cur.skip(2)) {
                                        assert(buff@ + (seq![ch, c2] + p2) =~= (buff@ + seq![
                                            ch,
                                            c2,
                                        ]) + p2);
                                    }
                                }
                                buff.push(ch);
                                buff.push(c2);
                            },
                        }
                    } else {
                        proof {
                            assert(buff@.push(ch) =~= buff@ + seq![ch]);
                            if let Some((p2, rest2)) = scan_string(cur.drop_first()) {
                                assert(buff@ + (seq![ch] + p2) =~= (buff@ + seq![ch]) + p2);
                            }
                        }
                        buff.push(ch);
                    }
                },
            }
        }
    }

    /// Read the whole comment: everything up to the line break, which is
    /// consumed and not forwarded as a token.
    fn read_comment(&mut self) -> (r: Word)
        requires
            old(self).wf(),
            old(self).comming_char is None,
            !old(self).dead(),
        ensures
            final(self).wf(),
            final(self).source() == old(self).source(),
            !final(self).dead(),
            r@ == WordV::Comment(line_text(old(self).remaining())),
            final(self).remaining() == line_rest(old(self).remaining()),
    {
        let ghost rem0 = self.remaining();
        let mut buff: Vec<char> = Vec::new();
        proof {
            assert(buff@ =~= rem0.take(0));
            assert(self.chars.remaining() =~= rem0.skip(0));
        }
        loop
            invariant_except_break
                self.wf(),
                self.comming_char is None,
                !self.failed,
                self.source() == old(self).source(),
                buff@.len() <= rem0.len(),
                buff@ == rem0.take(buff@.len() as int),
                self.chars.remaining() == rem0.skip(buff@.len() as int),
                forall|k: int| 0 <= k < buff@.len() ==> rem0[k] != '\n',
            ensures
                self.wf(),
                self.comming_char is None,
                !self.failed,
                self.source() == old(self).source(),
                buff@ == line_text(rem0),
                self.chars.remaining() == line_rest(rem0),
            decreases rem0.len() - buff@.len(),
        {
            match self.chars.next() {
                None => {
                    proof {
                        lemma_line_len_prefix(rem0, buff@.len() as int);
                        assert(self.chars.remaining() =~= line_rest(rem0));
                    }
                    break;
                },
                Some(ch) => {
                    proof {
                        assert(rem0[buff@.len() as int] == ch);
                    }
                    if ch == '\n' {
                        proof {
                            lemma_line_len_prefix(rem0, buff@.len() as int);
                            assert(self.chars.remaining() =~= rem0.skip(buff@.len() as int + 1));
                        }
                        break;
                    }
                    proof {
                        assert(buff@.push(ch) =~= rem0.take(buff@.len() as int + 1));
                        assert(self.chars.remaining() =~= rem0.skip(buff@.len() as int + 1));
                    }
                    buff.push(ch);
                },
            }
        }
        Word::Comment(chars_to_string(&buff))
    }
}

/// A produced token consumed at least one character of the input.
pub proof fn lemma_lex_next_progress(s: Seq<char>)
    ensures
        lex_next(s) matches LexStep::Tok(w, rest) ==> rest.len() < s.len(),
    decreases s.len(),
{
    if s.len() > 0 {
        let c = s[0];
        let r = s.drop_first();
        if c == ' ' || c == '\t' {
            lemma_lex_next_progress(r);
        } else if c == '$' {
            if r.len() > 0 && r[0] == '"' {
                if scan_string(r.drop_first()) is Some {
                    lemma_scan_string_round_trip(r.drop_first());
                }
            } else if r.len() > 0 && spec_alphanumeric(r[0]) {
                lemma_word_len_bound(r);
            }
        } else if c == '"' {
            if scan_string(r) is Some {
                lemma_scan_string_round_trip(r);
            }
        } else if c == '#' {
            lemma_line_len_bound(r);
        } else if !is_special_spec(c) {
            lemma_word_len_bound(s);
        }
    }
}

/// When the first `k` characters of `s` are not special and the character at
/// `k` (if any) is, the bare word at the head of `s` has length `k`.
proof fn lemma_word_len_prefix(s: Seq<char>, k: int)
    requires
        0 <= k <= s.len(),
        forall|i: int| 0 <= i < k ==> !is_special_spec(s[i]),
        k < s.len() ==> is_special_spec(s[k]),
    ensures
        word_len(s) == k,
    decreases k,
{
    if k > 0 {
        assert(forall|i: int| 0 <= i < k - 1 ==> s.drop_first()[i] == s[i + 1]);
        lemma_word_len_prefix(s.drop_first(), k - 1);
    }
}

/// The same characterization for the comment scanner.
pub proof fn lemma_line_len_prefix(s: Seq<char>, k: int)
    requires
        0 <= k <= s.len(),
        forall|i: int| 0 <= i < k ==> s[i] != '\n',
        k < s.len() ==> s[k] == '\n',
    ensures
        line_len(s) == k,
    decreases k,
{
    if k > 0 {
        assert(forall|i: int| 0 <= i < k - 1 ==> s.drop_first()[i] == s[i + 1]);
        lemma_line_len_prefix(s.drop_first(), k - 1);
    }
}

} // verus!
