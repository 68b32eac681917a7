//! Token-stream side of the recursive-descent parser: the token cursor, the
//! skipping of line breaks and comments, and the statement dispatch.

use super::error::ConfigurationError;
use super::lexer::Word;
use super::lexer::WordV;
use super::grammar::err_view;
use super::grammar::identifier_view;
use super::grammar::opt_err_view;
use super::grammar::sp_id_content;
use super::grammar::sp_identifier;
use super::grammar::sp_name;
use super::grammar::sp_next_expected;
use super::grammar::sp_statement;
use super::grammar::statement_view;
use super::grammar::Cur;
use super::grammar::IdentifierV;
use super::grammar::Step;
use super::grammar::BlobV;
use super::grammar::SN;
use super::statement::Blob;
use super::statement::Identifier;
use super::statement::Statement;
use super::Position;
use vstd::prelude::*;

verus! {

impl Clone for Word {
    /// A copy of the token, equal to the original.
    fn clone(&self) -> (r: Word)
        ensures
            r == *self,
    {
        match self {
            Word::KeywordTag => Word::KeywordTag,
            Word::KeywordFile => Word::KeywordFile,
            Word::KeywordDir => Word::KeywordDir,
            Word::KeywordGenerator => Word::KeywordGenerator,
            Word::SystemPackage => Word::SystemPackage,
            Word::SystemRun => Word::SystemRun,
            Word::SystemTest => Word::SystemTest,
            Word::SimpleString(s) => Word::SimpleString(s.clone()),
            Word::QuotedString(s) => Word::QuotedString(s.clone()),
            Word::DollardString(s) => Word::DollardString(s.clone()),
            Word::Colon => Word::Colon,
            Word::Comma => Word::Comma,
            Word::DefaultGenerator => Word::DefaultGenerator,
            Word::PipeFile => Word::PipeFile,
            Word::PipeDirectory => Word::PipeDirectory,
            Word::DirectoryComposeOpen => Word::DirectoryComposeOpen,
            Word::DirectoryComposeClose => Word::DirectoryComposeClose,
            Word::DirectoryConcatOpen => Word::DirectoryConcatOpen,
            Word::DirectoryConcatClose => Word::DirectoryConcatClose,
            Word::ParenthesisOpen => Word::ParenthesisOpen,
            Word::ParenthesisClose => Word::ParenthesisClose,
            Word::Comment(s) => Word::Comment(s.clone()),
            Word::NewLine => Word::NewLine,
        }
    }
}

/// Whether this token is skipped between significant tokens.
pub open spec fn is_nc(w: WordV) -> bool {
    w is NewLine || w is Comment
}

/// Whether this token begins a statement, ending the current construct.
pub open spec fn is_stmt_keyword(w: WordV) -> bool {
    w is KeywordDir || w is KeywordFile || w is KeywordGenerator || w is KeywordTag
}

/// The index of the first significant token at or after `i`.
pub open spec fn skip_nc(toks: Seq<(Position, WordV)>, i: int) -> int
    decreases toks.len() - i when i <= toks.len()
{
    if 0 <= i < toks.len() && is_nc(toks[i].1) {
        skip_nc(toks, i + 1)
    } else {
        i
    }
}

pub proof fn lemma_skip_nc(toks: Seq<(Position, WordV)>, i: int)
    requires
        0 <= i <= toks.len(),
    ensures
        i <= skip_nc(toks, i) <= toks.len(),
        skip_nc(toks, i) < toks.len() ==> !is_nc(toks[skip_nc(toks, i)].1),
        forall|k: int| i <= k < skip_nc(toks, i) ==> is_nc(toks[k].1),
    decreases toks.len() - i,
{
    if i < toks.len() && is_nc(toks[i].1) {
        lemma_skip_nc(toks, i + 1);
    }
}

/// What the cursor finds when it looks for the next significant token:
/// a consumable token, a statement keyword that ends the construct, or the
/// end of the stream.
pub ghost enum Lookup {
    Found(Position, WordV, int),
    Stopped(int),
    EndErr(int),
}

/// The next significant token at or after `i`, with the cursor position that
/// consuming it leaves.
pub open spec fn lookup(toks: Seq<(Position, WordV)>, i: int) -> Lookup {
    let j = skip_nc(toks, i);
    if j < toks.len() {
        if is_stmt_keyword(toks[j].1) {
            Lookup::Stopped(j)
        } else {
            Lookup::Found(toks[j].0, toks[j].1, j + 1)
        }
    } else {
        Lookup::EndErr(j)
    }
}

/// Whether this token opens a blob on its own: a name, a path, a literal or
/// a system variable, with nothing more to read for the value.
pub open spec fn is_simple_primary(w: WordV) -> bool {
    ||| w is SimpleString
    ||| w is QuotedString
    ||| w is DollardString
    ||| w is SystemRun
    ||| w is SystemTest
    ||| w is SystemPackage
}

/// Whether the next significant token at or after `j` is a pipe operator.
pub open spec fn next_is_pipe(toks: Seq<(Position, WordV)>, j: int) -> bool {
    match lookup(toks, j) {
        Lookup::Found(p, w, j2) => w is PipeFile || w is PipeDirectory,
        _ => false,
    }
}

/// Whether the tokens at or after `j` form a self-contained generator core:
/// a simple token not followed by the default generator operator.
pub open spec fn simple_core_after(toks: Seq<(Position, WordV)>, j: int) -> bool {
    match lookup(toks, j) {
        Lookup::Found(p2, w2, j2) => (w2 is SimpleString || w2 is QuotedString
            || w2 is DollardString) && match lookup(toks, j2) {
            Lookup::Found(p3, w3, j3) => !(w3 is DefaultGenerator),
            _ => true,
        },
        _ => false,
    }
}

/// A short textual description of a token, used in diagnostics.
pub open spec fn word_descr(w: WordV) -> Seq<char> {
    match w {
        WordV::KeywordTag => "KeywordTag"@,
        WordV::KeywordFile => "KeywordFile"@,
        WordV::KeywordDir => "KeywordDir"@,
        WordV::KeywordGenerator => "KeywordGenerator"@,
        WordV::SystemPackage => "SystemPackage"@,
        WordV::SystemRun => "SystemRun"@,
        WordV::SystemTest => "SystemTest"@,
        WordV::SimpleString(_) => "SimpleString"@,
        WordV::QuotedString(_) => "QuotedString"@,
        WordV::DollardString(_) => "DollardString"@,
        WordV::Colon => "Colon"@,
        WordV::Comma => "Comma"@,
        WordV::DefaultGenerator => "DefaultGenerator"@,
        WordV::PipeFile => "PipeFile"@,
        WordV::PipeDirectory => "PipeDirectory"@,
        WordV::DirectoryComposeOpen => "DirectoryComposeOpen"@,
        WordV::DirectoryComposeClose => "DirectoryComposeClose"@,
        WordV::DirectoryConcatOpen => "DirectoryConcatOpen"@,
        WordV::DirectoryConcatClose => "DirectoryConcatClose"@,
        WordV::ParenthesisOpen => "ParenthesisOpen"@,
        WordV::ParenthesisClose => "ParenthesisClose"@,
        WordV::Comment(_) => "Comment"@,
        WordV::NewLine => "NewLine"@,
    }
}

/// A short textual description of a token, used in diagnostics.
pub fn word_description(w: &Word) -> (r: String)
    ensures
        r@ == word_descr(w@),
{
    match w {
        Word::KeywordTag => String::from_str("KeywordTag"),
        Word::KeywordFile => String::from_str("KeywordFile"),
        Word::KeywordDir => String::from_str("KeywordDir"),
        Word::KeywordGenerator => String::from_str("KeywordGenerator"),
        Word::SystemPackage => String::from_str("SystemPackage"),
        Word::SystemRun => String::from_str("SystemRun"),
        Word::SystemTest => String::from_str("SystemTest"),
        Word::SimpleString(_) => String::from_str("SimpleString"),
        Word::QuotedString(_) => String::from_str("QuotedString"),
        Word::DollardString(_) => String::from_str("DollardString"),
        Word::Colon => String::from_str("Colon"),
        Word::Comma => String::from_str("Comma"),
        Word::DefaultGenerator => String::from_str("DefaultGenerator"),
        Word::PipeFile => String::from_str("PipeFile"),
        Word::PipeDirectory => String::from_str("PipeDirectory"),
        Word::DirectoryComposeOpen => String::from_str("DirectoryComposeOpen"),
        Word::DirectoryComposeClose => String::from_str("DirectoryComposeClose"),
        Word::DirectoryConcatOpen => String::from_str("DirectoryConcatOpen"),
        Word::DirectoryConcatClose => String::from_str("DirectoryConcatClose"),
        Word::ParenthesisOpen => String::from_str("ParenthesisOpen"),
        Word::ParenthesisClose => String::from_str("ParenthesisClose"),
        Word::Comment(_) => String::from_str("Comment"),
        Word::NewLine => String::from_str("NewLine"),
    }
}

/// A [`ConfigurationError::UnexpectedToken`] for the token `w` met while
/// performing the grammar operation `op`.
pub fn unexpected_token(p: Position, w: &Word, op: &str) -> (r: ConfigurationError)
    ensures
        r matches ConfigurationError::UnexpectedToken(pp, d, o) && pp == p && d@ == word_descr(w@)
            && o@ == op@,
{
    ConfigurationError::UnexpectedToken(p, word_description(w), String::from_str(op))
}

/// An iterator-like parser of [`Statement`] values over a token stream: the
/// tokens, the terminal error that ended the lexing (if any), and a cursor.
pub struct Parser {
    pub(crate) tokens: Vec<(Position, Word)>,
    pub(crate) terminal: Option<ConfigurationError>,
    pub(crate) index: usize,
}

impl Parser {
    /// The stream, as position and token shape pairs.
    pub closed spec fn toks(self) -> Seq<(Position, WordV)> {
        self.tokens@.map_values(|t: (Position, Word)| (t.0, t.1@))
    }

    /// The cursor: how many tokens are consumed.
    pub closed spec fn at(self) -> int {
        self.index as int
    }

    /// The terminal error that ended the lexing, not yet reported.
    pub closed spec fn term(self) -> Option<ConfigurationError> {
        self.terminal
    }

    pub closed spec fn wf(self) -> bool {
        self.index <= self.tokens.len()
    }

    /// The ghost cursor of the parser: its position in the token stream and
    /// the terminal lexing error not yet reported.
    pub open spec fn cur(self) -> Cur {
        Cur { i: self.at(), term: opt_err_view(self.term()) }
    }

    /// A well-formed parser's cursor stands inside its token stream.
    pub proof fn lemma_wf_bounds(self)
        requires
            self.wf(),
        ensures
            0 <= self.at() <= self.toks().len(),
    {
    }

    /// Take the already escaped token stream, and the terminal error that
    /// ended it, if any.
    pub fn new(tokens: Vec<(Position, Word)>, terminal: Option<ConfigurationError>) -> (r: Parser)
        ensures
            r.wf(),
            r.toks() == tokens@.map_values(|t: (Position, Word)| (t.0, t.1@)),
            r.at() == 0,
            r.term() == terminal,
    {
        Parser { tokens, terminal, index: 0 }
    }

    /// Consume one raw token, line breaks and comments included.
    pub fn skip_token(&mut self)
        requires
            old(self).wf(),
        ensures
            final(self).wf(),
            final(self).toks() == old(self).toks(),
            final(self).term() == old(self).term(),
            final(self).at() == if old(self).at() < old(self).toks().len() {
                old(self).at() + 1
            } else {
                old(self).at()
            },
    {
        if self.index < self.tokens.len() {
            self.index = self.index + 1;
        }
    }

    /// Peek the next token other than a line break or a comment, consuming
    /// the skipped ones.  Returns `None` at the end of the stream, a terminal
    /// lexing error included.
    pub fn peek(&mut self) -> (r: Option<&Word>)
        requires
            old(self).wf(),
        ensures
            final(self).wf(),
            final(self).toks() == old(self).toks(),
            final(self).term() == old(self).term(),
            old(self).at() <= final(self).at() <= old(self).toks().len(),
            final(self).term() is Some ==> old(self).term() is Some,
            final(self).at() == skip_nc(old(self).toks(), old(self).at()),
            match r {
                Some(w) => final(self).at() < old(self).toks().len() && w@ == old(self).toks()[skip_nc(
                    old(self).toks(),
                    old(self).at(),
                )].1,
                None => final(self).at() == old(self).toks().len(),
            },
    {
        let ghost toks0 = self.toks();
        let ghost i0 = self.at();
        let ghost term0 = self.terminal;
        proof {
            lemma_skip_nc(toks0, i0);
        }
        loop
            invariant_except_break
                self.wf(),
                self.toks() == toks0,
                self.terminal == term0,
                i0 <= self.at() <= toks0.len(),
                skip_nc(toks0, i0) == skip_nc(toks0, self.at()),
            ensures
                self.wf(),
                self.toks() == toks0,
                self.terminal == term0,
                self.at() == skip_nc(toks0, i0),
            decreases self.tokens.len() - self.index,
        {
            if self.index >= self.tokens.len() {
                break;
            }
            let nc = match &self.tokens[self.index].1 {
                Word::NewLine => true,
                Word::Comment(_) => true,
                _ => false,
            };
            if !nc {
                proof {
                    assert(!is_nc(toks0[self.at()].1));
                }
                break;
            }
            proof {
                assert(is_nc(toks0[self.at()].1));
            }
            self.index = self.index + 1;
        }
        if self.index < self.tokens.len() {
            proof {
                lemma_skip_nc(toks0, i0);
            }
            Some(&self.tokens[self.index].1)
        } else {
            None
        }
    }

    /// Return the next significant token.  If it is a statement keyword the
    /// current construct is ended instead, with
    /// [`ConfigurationError::UnexpectedEnd`]; at the end of the stream the
    /// terminal lexing error is reported once, then the same error.
    pub fn next_expected(&mut self) -> (r: Result<(Position, Word), ConfigurationError>)
        requires
            old(self).wf(),
        ensures
            final(self).wf(),
            final(self).toks() == old(self).toks(),
            old(self).at() <= final(self).at() <= old(self).toks().len(),
            final(self).term() is Some ==> old(self).term() is Some,
            match lookup(old(self).toks(), old(self).at()) {
                Lookup::Found(p, w, j) => {
                    &&& r matches Ok((pos, word))
                    &&& pos == p
                    &&& word@ == w
                    &&& final(self).at() == j
                    &&& final(self).term() == old(self).term()
                },
                Lookup::Stopped(j) => {
                    &&& r matches Err(e)
                    &&& e is UnexpectedEnd
                    &&& final(self).at() == j
                    &&& final(self).term() == old(self).term()
                },
                Lookup::EndErr(j) => {
                    &&& final(self).at() == j
                    &&& final(self).term() is None
                    &&& match old(self).term() {
                        Some(e) => r == Err::<(Position, Word), ConfigurationError>(e),
                        None => r matches Err(e2) && e2 is UnexpectedEnd,
                    }
                },
            },
            ({
                let step = sp_next_expected(old(self).toks(), old(self).cur());
                match r {
                    Ok(t) => step == Step::<(Position, WordV)>::Parsed(
                        (t.0, t.1@),
                        final(self).cur(),
                    ),
                    Err(e) => step == Step::<(Position, WordV)>::Failed(
                        err_view(e),
                        final(self).cur(),
                    ),
                }
            }),
    {
        proof {
            old(self).lemma_wf_bounds();
            lemma_skip_nc(old(self).toks(), old(self).at());
        }
        let keyword_next = match self.peek() {
            Some(w) => match w {
                Word::KeywordDir => true,
                Word::KeywordFile => true,
                Word::KeywordGenerator => true,
                Word::KeywordTag => true,
                _ => false,
            },
            None => false,
        };
        if keyword_next {
            return Err(ConfigurationError::UnexpectedEnd);
        }
        if self.index < self.tokens.len() {
            let pos = self.tokens[self.index].0;
            let word = self.tokens[self.index].1.clone();
            self.index = self.index + 1;
            Ok((pos, word))
        } else {
            match self.terminal.take() {
                Some(e) => Err(e),
                None => Err(ConfigurationError::UnexpectedEnd),
            }
        }
    }

    /// Read the name that follows a `tag` or `gen` keyword: the next
    /// significant token, which must be a simple string.
    pub fn get_statment_name(&mut self) -> (r: Result<String, ConfigurationError>)
        requires
            old(self).wf(),
        ensures
            final(self).wf(),
            final(self).toks() == old(self).toks(),
            old(self).at() <= final(self).at() <= old(self).toks().len(),
            final(self).term() is Some ==> old(self).term() is Some,
            match lookup(old(self).toks(), old(self).at()) {
                Lookup::Found(p, w, j) => match w {
                    WordV::SimpleString(s) => r matches Ok(name) && name@ == s && final(self).at()
                        == j,
                    _ => r matches Err(e) && e matches
                        ConfigurationError::ParserExpectedStatementName(p2, d) && p2 == p && d@
                        == word_descr(w),
                },
                Lookup::Stopped(_) => r is Err,
                Lookup::EndErr(_) => r is Err,
            },
            ({
                let step = sp_name(old(self).toks(), old(self).cur());
                match r {
                    Ok(name) => step == Step::<Seq<char>>::Parsed(name@, final(self).cur()),
                    Err(e) => step == Step::<Seq<char>>::Failed(err_view(e), final(self).cur()),
                }
            }),
    {
        proof {
            lemma_skip_nc(old(self).toks(), old(self).at());
        }
        match self.next_expected() {
            Ok((_, Word::SimpleString(s))) => Ok(s),
            Ok((p, w)) => Err(
                ConfigurationError::ParserExpectedStatementName(p, word_description(&w)),
            ),
            Err(e) => Err(e),
        }
    }

    /// Read the identifier of a file or directory statement: a simple string
    /// or one of the three system variables.
    fn get_statement_identifier(&mut self) -> (r: Result<Identifier, ConfigurationError>)
        requires
            old(self).wf(),
        ensures
            final(self).wf(),
            final(self).toks() == old(self).toks(),
            old(self).at() <= final(self).at() <= old(self).toks().len(),
            final(self).term() is Some ==> old(self).term() is Some,
            match lookup(old(self).toks(), old(self).at()) {
                Lookup::Found(p, w, j) => match w {
                    WordV::SimpleString(s) => r matches Ok(id) && id matches Identifier::Variable(v)
                        && v@ == s && final(self).at() == j,
                    WordV::SystemRun => r matches Ok(id) && id is SystemRun && final(self).at()
                        == j,
                    WordV::SystemPackage => r matches Ok(id) && id is SystemPackage
                        && final(self).at() == j,
                    WordV::SystemTest => r matches Ok(id) && id is SystemTest && final(self).at()
                        == j,
                    _ => r matches Err(e) && e is UnexpectedToken,
                },
                Lookup::Stopped(_) => r is Err,
                Lookup::EndErr(_) => r is Err,
            },
            ({
                let step = sp_identifier(old(self).toks(), old(self).cur());
                match r {
                    Ok(id) => step == Step::<IdentifierV>::Parsed(
                        identifier_view(id),
                        final(self).cur(),
                    ),
                    Err(e) => step == Step::<IdentifierV>::Failed(err_view(e), final(self).cur()),
                }
            }),
    {
        proof {
            lemma_skip_nc(old(self).toks(), old(self).at());
        }
        match self.next_expected() {
            Ok((position, word)) => match word {
                Word::SimpleString(s) => Ok(Identifier::Variable(s)),
                Word::SystemRun => Ok(Identifier::SystemRun),
                Word::SystemPackage => Ok(Identifier::SystemPackage),
                Word::SystemTest => Ok(Identifier::SystemTest),
                w => Err(unexpected_token(position, &w, "statement identivfier")),
            },
            Err(e) => Err(e),
        }
    }

    /// Read the identifier and the blob of a file or directory statement.
    fn id_and_content(&mut self) -> (r: Result<(Identifier, Blob), ConfigurationError>)
        requires
            old(self).wf(),
        ensures
            final(self).wf(),
            final(self).toks() == old(self).toks(),
            old(self).at() <= final(self).at() <= old(self).toks().len(),
            final(self).term() is Some ==> old(self).term() is Some,
            ({
                let step = sp_id_content(old(self).toks(), old(self).cur());
                match r {
                    Ok(t) => step == Step::<(IdentifierV, BlobV)>::Parsed(
                        (identifier_view(t.0), super::grammar::blob_view(t.1)),
                        final(self).cur(),
                    ),
                    Err(e) => step == Step::<(IdentifierV, BlobV)>::Failed(
                        err_view(e),
                        final(self).cur(),
                    ),
                }
            }),
    {
        let ghost toks0 = old(self).toks();
        let ghost cur0 = old(self).cur();
        let ghost len = old(self).toks().len() as int;
        proof {
            old(self).lemma_wf_bounds();
        }
        let id = match self.get_statement_identifier() {
            Ok(id) => id,
            Err(e) => return Err(e),
        };
        proof {
            assert(super::grammar::ge(cur0.i, self.cur(), len) == self.cur());
        }
        match self.parse_blob() {
            Ok(blob) => Ok((id, blob)),
            Err(e) => Err(e),
        }
    }

    /// Build a tag statement; the `tag` keyword at `position` is already
    /// consumed.
    pub fn parse_tag_statement(&mut self, position: Position) -> (r: Result<
        Statement,
        ConfigurationError,
    >)
        requires
            old(self).wf(),
        ensures
            final(self).wf(),
            final(self).toks() == old(self).toks(),
            old(self).at() <= final(self).at() <= old(self).toks().len(),
            final(self).term() is Some ==> old(self).term() is Some,
            match lookup(old(self).toks(), old(self).at()) {
                Lookup::Found(p, w, j) => match w {
                    WordV::SimpleString(s) => r matches Ok(st) && st matches Statement::Tag(
                        pp,
                        name,
                    ) && pp == position && name@ == s && final(self).at() == j,
                    _ => r is Err,
                },
                Lookup::Stopped(_) => r is Err,
                Lookup::EndErr(_) => r is Err,
            },
            ({
                let step = sp_name(old(self).toks(), old(self).cur());
                match r {
                    Ok(st) => st matches Statement::Tag(pp, nm) && pp == position && step
                        == Step::<Seq<char>>::Parsed(nm@, final(self).cur()),
                    Err(e) => step == Step::<Seq<char>>::Failed(err_view(e), final(self).cur()),
                }
            }),
    {
        match self.get_statment_name() {
            Ok(name) => Ok(Statement::Tag(position, name)),
            Err(e) => Err(e),
        }
    }

    /// Read the next statement: `None` at the end of the stream, otherwise
    /// the statement that the next keyword begins, or the error that ended
    /// parsing.  Line breaks and comments between statements are skipped.
    pub fn next(&mut self) -> (r: Option<Result<Statement, ConfigurationError>>)
        requires
            old(self).wf(),
        ensures
            final(self).wf(),
            final(self).toks() == old(self).toks(),
            old(self).at() <= final(self).at() <= old(self).toks().len(),
            final(self).term() is Some ==> old(self).term() is Some,
            r is None ==> final(self).at() == old(self).toks().len() && final(self).term() is None,
            final(self).term() is Some ==> old(self).term() is Some,
            r is Some ==> final(self).at() > old(self).at() || (old(self).term() is Some
                && final(self).term() is None),
            r matches Some(Ok(st0)) ==> final(self).at() > old(self).at(),
            match r {
                Some(Ok(st)) => {
                    let j = skip_nc(old(self).toks(), old(self).at());
                    &&& j < old(self).toks().len()
                    &&& match old(self).toks()[j].1 {
                        WordV::KeywordTag => st is Tag,
                        WordV::KeywordGenerator => st is Generator,
                        WordV::KeywordDir => st is Directory,
                        WordV::KeywordFile => st is File,
                        _ => false,
                    }
                },
                _ => true,
            },
            ({
                let j = skip_nc(old(self).toks(), old(self).at());
                j < old(self).toks().len() && old(self).toks()[j].1 is KeywordTag ==> match lookup(
                    old(self).toks(),
                    j + 1,
                ) {
                    Lookup::Found(p2, w2, j2) => match w2 {
                        WordV::SimpleString(s) => (r matches Some(Ok(st)) && st matches
                            Statement::Tag(pp, nm) && pp == old(self).toks()[j].0 && nm@ == s)
                            && final(self).at() == j2,
                        _ => r matches Some(Err(e)),
                    },
                    _ => r matches Some(Err(e2)),
                }
            }),
            ({
                let sn = sp_statement(old(self).toks(), old(self).cur());
                match r {
                    None => sn matches SN::End(c2) && final(self).cur() == c2,
                    Some(Ok(st)) => sn matches SN::Stmt(sv, c2) && sv == statement_view(st)
                        && final(self).cur() == c2,
                    Some(Err(e)) => sn matches SN::Fail(ev, c2) && ev == err_view(e)
                        && final(self).cur() == c2,
                }
            }),
    {
        let ghost toks0 = self.toks();
        let ghost i0 = self.at();
        proof {
            lemma_skip_nc(toks0, i0);
        }
        loop
            invariant_except_break
                self.wf(),
                self.toks() == toks0,
                self.terminal == old(self).terminal,
                i0 <= self.at() <= toks0.len(),
                skip_nc(toks0, i0) == skip_nc(toks0, self.at()),
                sp_statement(toks0, old(self).cur()) == sp_statement(toks0, self.cur()),
            ensures
                self.wf(),
                self.toks() == toks0,
                self.terminal == old(self).terminal,
                i0 <= self.at() <= toks0.len(),
                skip_nc(toks0, i0) == skip_nc(toks0, self.at()),
                sp_statement(toks0, old(self).cur()) == sp_statement(toks0, self.cur()),
                self.at() < toks0.len() ==> self.at() == skip_nc(toks0, i0),
                self.at() >= toks0.len() ==> skip_nc(toks0, i0) == toks0.len(),
            decreases self.tokens.len() - self.index,
        {
            if self.index >= self.tokens.len() {
                proof {
                    lemma_skip_nc(toks0, self.at());
                }
                break;
            }
            let nc = match &self.tokens[self.index].1 {
                Word::NewLine => true,
                Word::Comment(_) => true,
                _ => false,
            };
            if !nc {
                proof {
                    assert(!is_nc(toks0[self.at()].1));
                }
                break;
            }
            proof {
                assert(is_nc(toks0[self.at()].1));
            }
            self.index = self.index + 1;
        }
        if self.index >= self.tokens.len() {
            return match self.terminal.take() {
                Some(e) => Some(Err(e)),
                None => None,
            };
        }
        let position = self.tokens[self.index].0;
        let word = self.tokens[self.index].1.clone();
        self.index = self.index + 1;
        proof {
            lemma_skip_nc(toks0, self.at());
        }
        let ghost cur_k = self.cur();
        let ghost len = toks0.len() as int;
        match word {
            Word::KeywordGenerator => {
                let out = self.parse_generator_statement(position);
                proof {
                    if let super::grammar::Step::Parsed(nv, c2) = super::grammar::sp_name(
                        toks0,
                        cur_k,
                    ) {
                        assert(super::grammar::ge(cur_k.i - 1, c2, len) == c2);
                    }
                }
                Some(out)
            },
            Word::KeywordTag => Some(self.parse_tag_statement(position)),
            Word::KeywordDir => match self.id_and_content() {
                Ok((id, blob)) => Some(Ok(Statement::Directory(position, id, blob))),
                Err(e) => Some(Err(e)),
            },
            Word::KeywordFile => match self.id_and_content() {
                Ok((id, blob)) => Some(Ok(Statement::File(position, id, blob))),
                Err(e) => Some(Err(e)),
            },
            w => Some(Err(unexpected_token(position, &w, "statement begin"))),
        }
    }
}

} // verus!
