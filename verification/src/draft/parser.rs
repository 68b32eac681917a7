//! Statement parser of the early grammar revision: a small state machine
//! over the token stream.

use super::error::ConfigurationError;
use super::lexer::Word;
use super::statement::Generator;
use super::statement::GeneratorValue;
use super::statement::Statement;
use crate::char_iter::Position;
use crate::configuration::parser::word_descr;
use vstd::prelude::*;

verus! {

/// One element of the parser's source: a token, or the error that ended the
/// lexing.
pub type TokenRes = Result<(Position, Word), ConfigurationError>;

/// The state of the parser.
#[derive(Debug, Copy, Clone, PartialEq, Eq, Structural)]
enum State {
    /// Initial state.
    Initial,
    /// As initial, but an empty line is reported if a line break comes next.
    WaitNewLine,
    /// Waiting for the tag name.
    WaitTag,
}

/// Ghost number of a parser state, so that the step function can stand in a
/// public contract while the state enum stays private.
pub open spec fn dstate_initial() -> int {
    0
}

spec fn dstate_code(st: State) -> int {
    match st {
        State::Initial => 0,
        State::WaitNewLine => 1,
        State::WaitTag => 2,
    }
}

/// A short textual description of an early-revision token.
pub fn describe(w: &Word) -> (r: String)
    ensures
        r@ == word_descr(w@),
{
    crate::configuration::parser::word_description(
        &match w {
            Word::KeywordTag => crate::configuration::lexer::Word::KeywordTag,
            Word::KeywordFile => crate::configuration::lexer::Word::KeywordFile,
            Word::KeywordDir => crate::configuration::lexer::Word::KeywordDir,
            Word::SystemPackage => crate::configuration::lexer::Word::SystemPackage,
            Word::SystemRun => crate::configuration::lexer::Word::SystemRun,
            Word::SystemTest => crate::configuration::lexer::Word::SystemTest,
            Word::SimpleString(_) => crate::configuration::lexer::Word::SimpleString(
                String::new(),
            ),
            Word::QuotedString(_) => crate::configuration::lexer::Word::QuotedString(String::new()),
            Word::DollardString(_) => crate::configuration::lexer::Word::DollardString(
                String::new(),
            ),
            Word::Colon => crate::configuration::lexer::Word::Colon,
            Word::Comma => crate::configuration::lexer::Word::Comma,
            Word::DefaultGenerator => crate::configuration::lexer::Word::DefaultGenerator,
            Word::PipeFile => crate::configuration::lexer::Word::PipeFile,
            Word::PipeDirectory => crate::configuration::lexer::Word::PipeDirectory,
            Word::DirectoryComposeOpen => crate::configuration::lexer::Word::DirectoryComposeOpen,
            Word::DirectoryComposeClose =>
                crate::configuration::lexer::Word::DirectoryComposeClose,
            Word::DirectoryConcatOpen => crate::configuration::lexer::Word::DirectoryConcatOpen,
            Word::DirectoryConcatClose => crate::configuration::lexer::Word::DirectoryConcatClose,
            Word::Comment(_) => crate::configuration::lexer::Word::Comment(String::new()),
            Word::NewLine => crate::configuration::lexer::Word::NewLine,
        },
    )
}

/// An iterator-like parser of early-revision [`Statement`] values.
pub struct Parser {
    pub(crate) source: Vec<TokenRes>,
    pub(crate) index: usize,
    state: State,
}

/// Whether this token is skipped when looking for an expected token.
pub open spec fn is_nc_tok(t: TokenRes) -> bool {
    t matches Ok((p, w)) && (w is NewLine || w is Comment)
}

/// The index of the first significant element at or after `i`: the first
/// one that is an error or not a line break or comment.
pub open spec fn dskip(toks: Seq<TokenRes>, i: int) -> int
    decreases toks.len() - i when i <= toks.len()
{
    if 0 <= i < toks.len() && is_nc_tok(toks[i]) {
        dskip(toks, i + 1)
    } else {
        i
    }
}

pub proof fn lemma_dskip(toks: Seq<TokenRes>, i: int)
    requires
        0 <= i <= toks.len(),
    ensures
        i <= dskip(toks, i) <= toks.len(),
        dskip(toks, i) < toks.len() ==> !is_nc_tok(toks[dskip(toks, i)]),
    decreases toks.len() - i,
{
    if i < toks.len() && is_nc_tok(toks[i]) {
        lemma_dskip(toks, i + 1);
    }
}

/// The next significant element: a token, an error element, or the end of
/// the source.
pub ghost enum DN {
    Tok(Position, Word, int),
    Fail(ConfigurationError, int),
    End(int),
}

/// The next significant element at or after `i`, with the cursor that
/// consuming it leaves.
pub open spec fn sp_dnext(toks: Seq<TokenRes>, i: int) -> DN {
    let j = dskip(toks, i);
    if j < toks.len() {
        match toks[j] {
            Ok(t) => DN::Tok(t.0, t.1, j + 1),
            Err(e) => DN::Fail(e, j + 1),
        }
    } else {
        DN::End(j)
    }
}

/// Ghost shape of a [`GeneratorValue`].
pub ghost enum DGenValV {
    Variable(Seq<char>),
    File(Seq<char>),
    Url(Seq<char>),
}

pub open spec fn dgenval_view(v: GeneratorValue) -> DGenValV {
    match v {
        GeneratorValue::Variable(s) => DGenValV::Variable(s@),
        GeneratorValue::File(s) => DGenValV::File(s@),
        GeneratorValue::Url(s) => DGenValV::Url(s@),
    }
}

/// Outcome of reading one generator: the stage's pieces and the cursor it
/// leaves, the error element met, or the token that fits neither the alias
/// nor the kind grammar.
pub ghost enum DVal {
    Made(Position, Option<Seq<char>>, DGenValV, int),
    Fail(ConfigurationError, int),
    FailName(Position, Word, int),
    FailKind(Position, Word, int),
}

/// The kind of generator a token denotes, or the token that fits none.
pub open spec fn sp_dkind(p: Position, w: Word, name: Option<Seq<char>>, at: int, start: Position) -> DVal {
    match w {
        Word::SimpleString(s) => DVal::Made(start, name, DGenValV::Variable(s@), at),
        Word::QuotedString(s) => DVal::Made(start, name, DGenValV::File(s@), at),
        Word::DollardString(s) => DVal::Made(start, name, DGenValV::Url(s@), at),
        _ => DVal::FailKind(p, w, at),
    }
}

/// One generator read from the stream at `i`: the first significant token,
/// the optional `"alias" ??` form, and the kind of the core token.
pub open spec fn sp_dvalue(toks: Seq<TokenRes>, i: int) -> DVal {
    match sp_dnext(toks, i) {
        DN::End(j) => DVal::Fail(ConfigurationError::UnexpectedEnd, j),
        DN::Fail(e, j) => DVal::Fail(e, j),
        DN::Tok(p, w, j) => {
            let jc = dskip(toks, j);
            let jc2 = if jc < i {
                i
            } else if jc > toks.len() {
                toks.len() as int
            } else {
                jc
            };
            let hd = jc2 < toks.len() && (toks[jc2] matches Ok(t2) && t2.1 is DefaultGenerator);
            if hd {
                match w {
                    Word::QuotedString(s) => sp_dvalue_core(toks, p, Some(s@), jc2 + 1),
                    Word::DollardString(s) => sp_dvalue_core(toks, p, Some(s@), jc2 + 1),
                    _ => DVal::FailName(p, w, jc2),
                }
            } else {
                sp_dkind(p, w, None, jc2, p)
            }
        },
    }
}

/// The core token of an aliased generator, read after the consumed `??`.
pub open spec fn sp_dvalue_core(
    toks: Seq<TokenRes>,
    start: Position,
    name: Option<Seq<char>>,
    i: int,
) -> DVal {
    match sp_dnext(toks, i) {
        DN::End(j) => DVal::Fail(ConfigurationError::UnexpectedEnd, j),
        DN::Fail(e, j) => DVal::Fail(e, j),
        DN::Tok(p, w, j) => sp_dkind(p, w, name, j, start),
    }
}

/// One step of the statement state machine at `i`: the end of the source,
/// a statement, the error element met, or the unexpected word.
pub ghost enum DOut {
    End(int, int),
    Stmt(Statement, int, int),
    Fail(ConfigurationError, int, int),
    FailTok(Position, Word, int, int),
}

pub open spec fn sp_draft_next(toks: Seq<TokenRes>, st: int, i: int) -> DOut
    decreases toks.len() - i when 0 <= i <= toks.len()
{
    if i >= toks.len() {
        DOut::End(i, st)
    } else {
        match toks[i] {
            Err(e) => DOut::Fail(e, i + 1, st),
            Ok(t) => {
                let p = t.0;
                let w = t.1;
                let i2 = i + 1;
                if st == 1 {
                    match w {
                        Word::NewLine => DOut::Stmt(Statement::EmptyLine, i2, 0),
                        Word::Comment(c) => DOut::Stmt(Statement::Comment(c), i2, 0),
                        Word::KeywordTag => sp_draft_next(toks, 2, i2),
                        _ => DOut::FailTok(p, w, i2, st),
                    }
                } else if st == 2 {
                    match w {
                        Word::SimpleString(v) => DOut::Stmt(Statement::Tag(p, v), i2, 0),
                        Word::NewLine => sp_draft_next(toks, 2, i2),
                        Word::Comment(c) => DOut::Stmt(Statement::Comment(c), i2, 2),
                        _ => DOut::Fail(ConfigurationError::ParserExpectedTagName(p), i2, 2),
                    }
                } else {
                    match w {
                        Word::Comment(c) => DOut::Stmt(Statement::Comment(c), i2, st),
                        Word::NewLine => sp_draft_next(toks, 1, i2),
                        Word::KeywordTag => sp_draft_next(toks, 2, i2),
                        _ => DOut::FailTok(p, w, i2, st),
                    }
                }
            },
        }
    }
}

/// The view of a token list whose elements are all tokens.
pub open spec fn dtoks_view(s: Seq<TokenRes>) -> Seq<(Position, crate::configuration::lexer::WordV)> {
    s.map_values(
        |t: TokenRes|
            match t {
                Ok(pw) => (pw.0, pw.1@),
                Err(e) => (Position { line: 0, column: 0 }, crate::configuration::lexer::WordV::NewLine),
            },
    )
}

/// One ghost result item of the early statement parser.  The unexpected
/// word is kept as the token itself, since its report holds a built
/// description text.
pub ghost enum DItem {
    Good(Statement),
    Bad(ConfigurationError),
    BadTok(Position, Word),
}

/// Whether the result list matches the ghost item list, element by element.
pub open spec fn ditems_match(
    rs: Seq<Result<Statement, ConfigurationError>>,
    its: Seq<DItem>,
) -> bool {
    &&& rs.len() == its.len()
    &&& forall|k: int|
        0 <= k < rs.len() ==> match (#[trigger] rs[k], #[trigger] its[k]) {
            (Ok(st), DItem::Good(sv)) => st == sv,
            (Err(e), DItem::Bad(e2)) => e == e2,
            (Err(e), DItem::BadTok(p, w)) => e matches ConfigurationError::UnexpectedToken(
                pp,
                d,
                op,
            ) && pp == p && d@ == word_descr(w@) && op@ == "statement begin"@,
            _ => false,
        }
}

/// Every statement the early parser reads from the stream, in order; an
/// error element or an unexpected word is reported in its turn and reading
/// goes on.
pub open spec fn sp_draft_all(toks: Seq<TokenRes>, st: int, i: int) -> Seq<DItem>
    decreases toks.len() - i, 1int when 0 <= i <= toks.len()
{
    let len = toks.len() as int;
    match sp_draft_next(toks, st, i) {
        DOut::End(i2, st2) => Seq::empty(),
        DOut::Stmt(sv, i2, st2) => {
            let i3 = if i2 < i + 1 {
                i + 1
            } else if i2 > len {
                len
            } else {
                i2
            };
            seq![DItem::Good(sv)] + sp_draft_all(toks, st2, i3)
        },
        DOut::Fail(e, i2, st2) => {
            let i3 = if i2 < i + 1 {
                i + 1
            } else if i2 > len {
                len
            } else {
                i2
            };
            seq![DItem::Bad(e)] + sp_draft_all(toks, st2, i3)
        },
        DOut::FailTok(p, w, i2, st2) => {
            let i3 = if i2 < i + 1 {
                i + 1
            } else if i2 > len {
                len
            } else {
                i2
            };
            seq![DItem::BadTok(p, w)] + sp_draft_all(toks, st2, i3)
        },
    }
}

impl Parser {
    /// The token stream.
    pub closed spec fn toks(self) -> Seq<TokenRes> {
        self.source@
    }

    /// The cursor: how many elements are consumed.
    pub closed spec fn at(self) -> int {
        self.index as int
    }

    /// The number of the current state.
    pub closed spec fn state_of(self) -> int {
        dstate_code(self.state)
    }

    pub closed spec fn wf(self) -> bool {
        self.index <= self.source.len()
    }

    /// Take the token stream to parse.
    pub fn new(source: Vec<TokenRes>) -> (r: Parser)
        ensures
            r.wf(),
            r.toks() == source@,
            r.at() == 0,
            r.state_of() == dstate_initial(),
    {
        Parser { source, index: 0, state: State::Initial }
    }

    /// Reset to the initial state.
    fn initial_state(&mut self)
        ensures
            final(self).toks() == old(self).toks(),
            final(self).at() == old(self).at(),
            final(self).state_of() == dstate_initial(),
            final(self).wf() == old(self).wf(),
    {
        self.state = State::Initial;
    }

    /// Consume one raw element of the source.
    pub fn skip_token(&mut self)
        requires
            old(self).wf(),
        ensures
            final(self).wf(),
            final(self).toks() == old(self).toks(),
            final(self).state_of() == old(self).state_of(),
            old(self).at() <= final(self).at() <= old(self).toks().len(),
            final(self).at() == if old(self).at() < old(self).toks().len() {
                old(self).at() + 1
            } else {
                old(self).at()
            },
    {
        if self.index < self.source.len() {
            self.index = self.index + 1;
        }
    }

    /// Return the next token other than a line break or a comment; an error
    /// element of the source is reported in its turn, and the end of the
    /// source is [`ConfigurationError::UnexpectedEnd`].
    fn next_expected(&mut self) -> (r: Result<(Position, Word), ConfigurationError>)
        requires
            old(self).wf(),
        ensures
            final(self).wf(),
            final(self).toks() == old(self).toks(),
            final(self).state_of() == old(self).state_of(),
            old(self).at() <= final(self).at() <= old(self).toks().len(),
            ({
                let j = dskip(old(self).toks(), old(self).at());
                if j < old(self).toks().len() {
                    match old(self).toks()[j] {
                        Ok(t) => r == Ok::<(Position, Word), ConfigurationError>(t)
                            && final(self).at() == j + 1,
                        Err(e) => r == Err::<(Position, Word), ConfigurationError>(e)
                            && final(self).at() == j + 1,
                    }
                } else {
                    (r matches Err(e2) && e2 is UnexpectedEnd) && final(self).at() == j
                }
            }),
    {
        proof {
            lemma_dskip(old(self).toks(), old(self).at());
        }
        let ghost toks0 = self.toks();
        let ghost i0 = self.at();
        loop
            invariant_except_break
                self.wf(),
                self.toks() == toks0,
                self.state == old(self).state,
                0 <= i0 == old(self).at(),
                i0 <= self.at() <= toks0.len(),
                dskip(toks0, i0) == dskip(toks0, self.at()),
            ensures
                self.wf(),
                self.toks() == toks0,
                self.state == old(self).state,
                self.at() == dskip(toks0, i0),
            decreases toks0.len() - self.at(),
        {
            if self.index >= self.source.len() {
                break;
            }
            let nc = match &self.source[self.index] {
                Ok((_, Word::NewLine)) => true,
                Ok((_, Word::Comment(_))) => true,
                _ => false,
            };
            if !nc {
                proof {
                    assert(!is_nc_tok(toks0[self.at()]));
                }
                break;
            }
            proof {
                assert(is_nc_tok(toks0[self.at()]));
            }
            self.index = self.index + 1;
        }
        if self.index >= self.source.len() {
            return Err(ConfigurationError::UnexpectedEnd);
        }
        let item = self.dup_at(self.index);
        self.index = self.index + 1;
        item
    }

    /// Peek the next token other than a line break or a comment, consuming
    /// the skipped ones.  `None` at the end of the source or before an error
    /// element.
    fn peek(&mut self) -> (r: Option<&Word>)
        requires
            old(self).wf(),
        ensures
            final(self).wf(),
            final(self).toks() == old(self).toks(),
            final(self).state_of() == old(self).state_of(),
            old(self).at() <= final(self).at() <= old(self).toks().len(),
            final(self).at() == dskip(old(self).toks(), old(self).at()),
            ({
                let j = dskip(old(self).toks(), old(self).at());
                match r {
                    Some(w) => j < old(self).toks().len() && (old(self).toks()[j] matches Ok(t)
                        && t.1 == *w),
                    None => j == old(self).toks().len() || old(self).toks()[j] is Err,
                }
            }),
    {
        proof {
            lemma_dskip(old(self).toks(), old(self).at());
        }
        let ghost toks0 = self.toks();
        let ghost i0 = self.at();
        loop
            invariant_except_break
                self.wf(),
                self.toks() == toks0,
                self.state == old(self).state,
                0 <= i0 == old(self).at(),
                i0 <= self.at() <= toks0.len(),
                dskip(toks0, i0) == dskip(toks0, self.at()),
            ensures
                self.wf(),
                self.toks() == toks0,
                self.state == old(self).state,
                self.at() == dskip(toks0, i0),
            decreases toks0.len() - self.at(),
        {
            if self.index >= self.source.len() {
                break;
            }
            let nc = match &self.source[self.index] {
                Ok((_, Word::NewLine)) => true,
                Ok((_, Word::Comment(_))) => true,
                _ => false,
            };
            if !nc {
                proof {
                    assert(!is_nc_tok(toks0[self.at()]));
                }
                break;
            }
            proof {
                assert(is_nc_tok(toks0[self.at()]));
            }
            self.index = self.index + 1;
        }
        if self.index >= self.source.len() {
            return None;
        }
        match &self.source[self.index] {
            Ok((_, w)) => Some(w),
            Err(_) => None,
        }
    }

    /// A copy of the source element at `i`.
    fn dup_at(&self, i: usize) -> (r: TokenRes)
        requires
            i < self.toks().len(),
        ensures
            r == self.toks()[i as int],
    {
        match &self.source[i] {
            Ok((p, w)) => Ok((*p, w.clone_word())),
            Err(e) => Err(e.dup()),
        }
    }

    /// Consume tokens to parse one generator; what follows it, like a comma
    /// or a declaration keyword, is only peeked at, not consumed.
    pub fn parse_generator_value(&mut self) -> (r: Result<Generator, ConfigurationError>)
        requires
            old(self).wf(),
        ensures
            final(self).wf(),
            final(self).toks() == old(self).toks(),
            final(self).state_of() == old(self).state_of(),
            old(self).at() <= final(self).at() <= old(self).toks().len(),
            ({
                let o = sp_dvalue(old(self).toks(), old(self).at());
                match r {
                    Ok(g) => o matches DVal::Made(p2, nm, gv, i2) && g.position == p2 && (match g
                        .name {
                        Some(sn) => nm == Some(sn@),
                        None => nm is None,
                    }) && dgenval_view(g.generator) == gv && g.args@.len() == 0 && final(self).at()
                        == i2,
                    Err(e) => match o {
                        DVal::Fail(e2, i2) => e == e2 && final(self).at() == i2,
                        DVal::FailName(p2, w2, i2) => (e matches
                            ConfigurationError::ParserGeneratorNameToken(pp, d) && pp == p2 && d@
                            == word_descr(w2@)) && final(self).at() == i2,
                        DVal::FailKind(p2, w2, i2) => (e matches
                            ConfigurationError::ParserWrongGeneratorToken(pp, d) && pp == p2 && d@
                            == word_descr(w2@)) && final(self).at() == i2,
                        DVal::Made(p2, nm, gv, i2) => false,
                    },
                }
            }),
    {
        let ghost toks0 = old(self).toks();
        let ghost i0 = old(self).at();
        proof {
            lemma_dskip(toks0, i0);
        }
        let first = match self.next_expected() {
            Ok(t) => t,
            Err(e) => return Err(e),
        };
        let ghost j1 = self.at();
        proof {
            lemma_dskip(toks0, j1);
        }
        let has_default = match self.peek() {
            Some(Word::DefaultGenerator) => true,
            _ => false,
        };
        if has_default {
            let name = match first.1 {
                Word::QuotedString(s) => s,
                Word::DollardString(s) => s,
                w => {
                    return Err(
                        ConfigurationError::ParserGeneratorNameToken(first.0, describe(&w)),
                    );
                },
            };
            self.skip_token();
            let ghost j2 = self.at();
            proof {
                lemma_dskip(toks0, j2);
            }
            let core = match self.next_expected() {
                Ok(t) => t,
                Err(e) => return Err(e),
            };
            let generator = match Self::word2_generator_kind(core) {
                Ok(v) => v,
                Err(e) => return Err(e),
            };
            Ok(
                Generator {
                    position: first.0,
                    name: Some(name),
                    generator,
                    args: Vec::new(),
                },
            )
        } else {
            let position = first.0;
            let generator = match Self::word2_generator_kind(first) {
                Ok(v) => v,
                Err(e) => return Err(e),
            };
            Ok(Generator { position, name: None, generator, args: Vec::new() })
        }
    }

    /// Turn a token into the kind of generator it denotes.
    fn word2_generator_kind(t: (Position, Word)) -> (r: Result<
        GeneratorValue,
        ConfigurationError,
    >)
        ensures
            match t.1 {
                Word::SimpleString(s) => r == Ok::<GeneratorValue, ConfigurationError>(
                    GeneratorValue::Variable(s),
                ),
                Word::QuotedString(s) => r == Ok::<GeneratorValue, ConfigurationError>(
                    GeneratorValue::File(s),
                ),
                Word::DollardString(s) => r == Ok::<GeneratorValue, ConfigurationError>(
                    GeneratorValue::Url(s),
                ),
                _ => r matches Err(e) && e matches ConfigurationError::ParserWrongGeneratorToken(
                    p,
                    d,
                ) && p == t.0 && d@ == word_descr(t.1@),
            },
    {
        let (p, w) = t;
        match w {
            Word::SimpleString(v) => Ok(GeneratorValue::Variable(v)),
            Word::QuotedString(f) => Ok(GeneratorValue::File(f)),
            Word::DollardString(u) => Ok(GeneratorValue::Url(u)),
            w => Err(ConfigurationError::ParserWrongGeneratorToken(p, describe(&w))),
        }
    }

    /// Read the next statement: `None` at the end of the source; an error
    /// element of the source is reported in its turn and parsing goes on.
    pub fn next(&mut self) -> (r: Option<Result<Statement, ConfigurationError>>)
        requires
            old(self).wf(),
        ensures
            final(self).wf(),
            final(self).toks() == old(self).toks(),
            old(self).at() <= final(self).at() <= old(self).toks().len(),
            r is Some ==> final(self).at() > old(self).at(),
            r is None ==> final(self).at() == old(self).toks().len(),
            ({
                let o = sp_draft_next(old(self).toks(), old(self).state_of(), old(self).at());
                match r {
                    None => o matches DOut::End(i2, st2) && final(self).at() == i2
                        && final(self).state_of() == st2,
                    Some(Ok(st)) => o matches DOut::Stmt(sv, i2, st2) && sv == st
                        && final(self).at() == i2 && final(self).state_of() == st2,
                    Some(Err(e)) => match o {
                        DOut::Fail(e2, i2, st2) => e == e2 && final(self).at() == i2
                            && final(self).state_of() == st2,
                        DOut::FailTok(p2, w2, i2, st2) => (e matches
                            ConfigurationError::UnexpectedToken(pp, d, op) && pp == p2 && d@
                            == word_descr(w2@) && op@ == "statement begin"@) && final(self).at()
                            == i2 && final(self).state_of() == st2,
                        _ => false,
                    },
                }
            }),
    {
        let ghost toks0 = old(self).toks();
        let ghost st0 = old(self).state_of();
        let ghost i0 = old(self).at();
        loop
            invariant_except_break
                self.wf(),
                self.toks() == toks0,
                toks0 == old(self).toks(),
                st0 == old(self).state_of(),
                0 <= i0 == old(self).at(),
                i0 <= self.at() <= toks0.len(),
                sp_draft_next(toks0, st0, i0) == sp_draft_next(
                    toks0,
                    self.state_of(),
                    self.at(),
                ),
            ensures
                self.wf(),
                self.toks() == toks0,
                i0 <= self.at() <= toks0.len(),
                sp_draft_next(toks0, st0, i0) == sp_draft_next(
                    toks0,
                    self.state_of(),
                    self.at(),
                ),
            decreases self.source.len() - self.index,
        {
            if self.index >= self.source.len() {
                return None;
            }
            let item = self.dup_at(self.index);
            self.index = self.index + 1;
            let (position, word) = match item {
                Ok(t) => t,
                Err(e) => {
                    return Some(Err(e));
                },
            };
            match self.state {
                State::WaitNewLine => match word {
                    Word::NewLine => {
                        self.initial_state();
                        return Some(Ok(Statement::EmptyLine));
                    },
                    Word::Comment(c) => {
                        self.initial_state();
                        return Some(Ok(Statement::Comment(c)));
                    },
                    Word::KeywordTag => {
                        self.state = State::WaitTag;
                    },
                    w => {
                        return Some(
                            Err(unexpected_word(position, &w)),
                        );
                    },
                },
                State::Initial => match word {
                    Word::Comment(c) => {
                        return Some(Ok(Statement::Comment(c)));
                    },
                    Word::NewLine => {
                        self.state = State::WaitNewLine;
                    },
                    Word::KeywordTag => {
                        self.state = State::WaitTag;
                    },
                    w => {
                        return Some(
                            Err(unexpected_word(position, &w)),
                        );
                    },
                },
                State::WaitTag => match word {
                    Word::SimpleString(v) => {
                        self.state = State::Initial;
                        return Some(Ok(Statement::Tag(position, v)));
                    },
                    Word::NewLine => {},
                    Word::Comment(c) => {
                        return Some(Ok(Statement::Comment(c)));
                    },
                    _ => {
                        return Some(
                            Err(ConfigurationError::ParserExpectedTagName(position)),
                        );
                    },
                },
            }
        }
    }
}

/// An unexpected word at the head of a statement is reported as an error.
fn unexpected_word(p: Position, w: &Word) -> (r: ConfigurationError)
    ensures
        r matches ConfigurationError::UnexpectedToken(pp, d, o) && pp == p && d@ == word_descr(w@)
            && o@ == "statement begin"@,
{
    ConfigurationError::UnexpectedToken(p, describe(w), String::from_str("statement begin"))
}

impl Word {
    /// A copy of the token, equal to the original.
    fn clone_word(&self) -> (r: Word)
        ensures
            r == *self,
    {
        match self {
            Word::KeywordTag => Word::KeywordTag,
            Word::KeywordFile => Word::KeywordFile,
            Word::KeywordDir => Word::KeywordDir,
            Word::SystemPackage => Word::SystemPackage,
            Word::SystemRun => Word::SystemRun,
            Word::SystemTest => Word::SystemTest,
            Word::SimpleString(s) => Word::SimpleString(s.clone()),
            Word::QuotedString(s) => Word::QuotedString(s.clone()),
            Word::DollardString(s) => Word::DollardString(s.clone()),
            Word::Colon => Word::Colon,
            Word::Comma => Word::Comma,
            Word::DefaultGenerator => Word::DefaultGenerator,
            Word::PipeFile => Word::PipeFile,
            Word::PipeDirectory => Word::PipeDirectory,
            Word::DirectoryComposeOpen => Word::DirectoryComposeOpen,
            Word::DirectoryComposeClose => Word::DirectoryComposeClose,
            Word::DirectoryConcatOpen => Word::DirectoryConcatOpen,
            Word::DirectoryConcatClose => Word::DirectoryConcatClose,
            Word::Comment(s) => Word::Comment(s.clone()),
            Word::NewLine => Word::NewLine,
        }
    }
}

impl ConfigurationError {
    /// A copy of the error, equal to the original.
    fn dup(&self) -> (r: ConfigurationError)
        ensures
            r == *self,
    {
        match self {
            ConfigurationError::VersionNotFound => ConfigurationError::VersionNotFound,
            ConfigurationError::VersionUnknown(s) => ConfigurationError::VersionUnknown(s.clone()),
            ConfigurationError::Lexer(p, e) => ConfigurationError::Lexer(*p, e.dup_lexer()),
            ConfigurationError::ParserExpectedTagName(p) =>
                ConfigurationError::ParserExpectedTagName(*p),
            ConfigurationError::ParserWrongGeneratorToken(p, s) =>
                ConfigurationError::ParserWrongGeneratorToken(*p, s.clone()),
            ConfigurationError::ParserGeneratorNameToken(p, s) =>
                ConfigurationError::ParserGeneratorNameToken(*p, s.clone()),
            ConfigurationError::UnexpectedStatementEnd(p) =>
                ConfigurationError::UnexpectedStatementEnd(*p),
            ConfigurationError::UnexpectedToken(p, a, b) => ConfigurationError::UnexpectedToken(
                *p,
                a.clone(),
                b.clone(),
            ),
            ConfigurationError::UnexpectedEnd => ConfigurationError::UnexpectedEnd,
        }
    }
}

impl crate::configuration::LexerError {
    /// A copy of the error, equal to the original.
    fn dup_lexer(&self) -> (r: crate::configuration::LexerError)
        ensures
            r == *self,
    {
        match self {
            crate::configuration::LexerError::UnknowChar(c) =>
                crate::configuration::LexerError::UnknowChar(*c),
            crate::configuration::LexerError::StringWithoutEnd =>
                crate::configuration::LexerError::StringWithoutEnd,
            crate::configuration::LexerError::HalfDefaultGenerator =>
                crate::configuration::LexerError::HalfDefaultGenerator,
            crate::configuration::LexerError::UnknowSystem(s) =>
                crate::configuration::LexerError::UnknowSystem(s.clone()),
            crate::configuration::LexerError::DoubleDollard =>
                crate::configuration::LexerError::DoubleDollard,
            crate::configuration::LexerError::DollardAtEOF =>
                crate::configuration::LexerError::DollardAtEOF,
        }
    }
}

} // verus!
