//! Ghost model of the statement grammar: mirror shapes for the parsed
//! values and errors, and a specification-level recursive-descent parser
//! over the escaped token stream.  The executable parser is proved to
//! return exactly what these functions say, the way the executable lexer
//! follows its ghost scanner.

use super::error::ConfigurationError;
use super::error::LexerErrorV;
use super::escape::unescape;
use super::lexer::lex_next;
use super::lexer::pos_at;
use super::lexer::ws_len;
use super::lexer::LexStep;
use super::lexer::Word;
use super::lexer::WordV;
use super::parser::lookup;
use super::parser::skip_nc;
use super::parser::word_descr;
use super::parser::Lookup;
use super::statement::Blob;
use super::statement::BlobValue;
use super::statement::Generator;
use super::statement::Identifier;
use super::statement::Name;
use super::statement::Statement;
use super::Position;
use vstd::prelude::*;

verus! {

broadcast use vstd::std_specs::vec::group_vec_axioms;

/// Ghost shape of a [`Name`].
pub ghost enum NameV {
    Variable(Seq<char>),
    Source(Seq<char>),
    Url(Seq<char>),
    SystemPackage,
    SystemRun,
    SystemTest,
}

/// Ghost shape of a [`BlobValue`].
pub ghost enum BlobValueV {
    Name(NameV),
    Literal(Seq<char>),
    Concatenation(Seq<BlobV>),
    Composition(Seq<(Position, Seq<char>, BlobV)>),
}

/// Ghost shape of a [`Blob`].
pub ghost struct BlobV {
    pub position: Position,
    pub value: BlobValueV,
    pub pipes: Seq<GeneratorV>,
}

/// Ghost shape of a [`Generator`].
pub ghost struct GeneratorV {
    pub position: Position,
    pub input_is_dir: bool,
    pub name: Option<Seq<char>>,
    pub generator: BlobValueV,
    pub args: Seq<(Position, Seq<char>)>,
}

/// Ghost shape of an [`Identifier`].
pub ghost enum IdentifierV {
    Variable(Seq<char>),
    SystemPackage,
    SystemRun,
    SystemTest,
}

/// Ghost shape of a [`Statement`].
pub ghost enum StatementV {
    Directory(Position, IdentifierV, BlobV),
    File(Position, IdentifierV, BlobV),
    Tag(Position, Seq<char>),
    Generator(Position, Seq<char>, Seq<GeneratorV>),
}

/// Ghost shape of a [`ConfigurationError`].  The lexer error does not carry
/// the position where the scan stopped: that position reflects how far the
/// failed scan read, which the token-level model does not describe.
pub ghost enum CfgErrV {
    VersionNotFound,
    VersionUnknown(Seq<char>),
    Lexer(LexerErrorV),
    ParserExpectedStatementName(Position, Seq<char>),
    ParserWrongGeneratorToken(Position, Seq<char>),
    ParserGeneratorNameToken(Position, Seq<char>),
    UnexpectedStatementEnd(Position),
    UnexpectedToken(Position, Seq<char>, Seq<char>),
    UnexpectedEnd,
    UnescapeFail(Position, char, Seq<char>),
}

pub open spec fn name_view(n: Name) -> NameV {
    match n {
        Name::Variable(s) => NameV::Variable(s@),
        Name::Source(s) => NameV::Source(s@),
        Name::Url(s) => NameV::Url(s@),
        Name::SystemPackage => NameV::SystemPackage,
        Name::SystemRun => NameV::SystemRun,
        Name::SystemTest => NameV::SystemTest,
    }
}

pub open spec fn identifier_view(id: Identifier) -> IdentifierV {
    match id {
        Identifier::Variable(s) => IdentifierV::Variable(s@),
        Identifier::SystemPackage => IdentifierV::SystemPackage,
        Identifier::SystemRun => IdentifierV::SystemRun,
        Identifier::SystemTest => IdentifierV::SystemTest,
    }
}

pub open spec fn args_view(s: Seq<(Position, String)>) -> Seq<(Position, Seq<char>)> {
    s.map_values(|t: (Position, String)| (t.0, t.1@))
}

pub open spec fn blob_view(b: Blob) -> BlobV
    decreases b,
{
    BlobV { position: b.position, value: blob_value_view(b.value), pipes: gens_view(b.pipes@) }
}

pub open spec fn blob_value_view(v: BlobValue) -> BlobValueV
    decreases v,
{
    match v {
        BlobValue::Name(n) => BlobValueV::Name(name_view(n)),
        BlobValue::Literal(s) => BlobValueV::Literal(s@),
        BlobValue::Concatenation(items) => BlobValueV::Concatenation(blobs_view(items@)),
        BlobValue::Composition(items) => BlobValueV::Composition(entries_view(items@)),
    }
}

pub open spec fn blobs_view(s: Seq<Blob>) -> Seq<BlobV>
    decreases s,
{
    if s.len() == 0 {
        Seq::empty()
    } else {
        seq![blob_view(s[0])] + blobs_view(s.drop_first())
    }
}

pub open spec fn entries_view(s: Seq<(Position, String, Blob)>) -> Seq<(Position, Seq<char>, BlobV)>
    decreases s,
{
    if s.len() == 0 {
        Seq::empty()
    } else {
        seq![(s[0].0, s[0].1@, blob_view(s[0].2))] + entries_view(s.drop_first())
    }
}

pub open spec fn gen_view(g: Generator) -> GeneratorV
    decreases g,
{
    GeneratorV {
        position: g.position,
        input_is_dir: g.input_is_dir,
        name: match g.name {
            Some(s) => Some(s@),
            None => None,
        },
        generator: blob_value_view(g.generator),
        args: args_view(g.args@),
    }
}

pub open spec fn gens_view(s: Seq<Generator>) -> Seq<GeneratorV>
    decreases s,
{
    if s.len() == 0 {
        Seq::empty()
    } else {
        seq![gen_view(s[0])] + gens_view(s.drop_first())
    }
}

pub open spec fn statement_view(st: Statement) -> StatementV {
    match st {
        Statement::Directory(p, id, b) => StatementV::Directory(p, identifier_view(id), blob_view(b)),
        Statement::File(p, id, b) => StatementV::File(p, identifier_view(id), blob_view(b)),
        Statement::Tag(p, s) => StatementV::Tag(p, s@),
        Statement::Generator(p, s, gs) => StatementV::Generator(p, s@, gens_view(gs@)),
    }
}

pub open spec fn err_view(e: ConfigurationError) -> CfgErrV {
    match e {
        ConfigurationError::VersionNotFound => CfgErrV::VersionNotFound,
        ConfigurationError::VersionUnknown(s) => CfgErrV::VersionUnknown(s@),
        ConfigurationError::Lexer(p, le) => CfgErrV::Lexer(le@),
        ConfigurationError::ParserExpectedStatementName(p, s) =>
            CfgErrV::ParserExpectedStatementName(p, s@),
        ConfigurationError::ParserWrongGeneratorToken(p, s) => CfgErrV::ParserWrongGeneratorToken(
            p,
            s@,
        ),
        ConfigurationError::ParserGeneratorNameToken(p, s) => CfgErrV::ParserGeneratorNameToken(
            p,
            s@,
        ),
        ConfigurationError::UnexpectedStatementEnd(p) => CfgErrV::UnexpectedStatementEnd(p),
        ConfigurationError::UnexpectedToken(p, d, o) => CfgErrV::UnexpectedToken(p, d@, o@),
        ConfigurationError::UnexpectedEnd => CfgErrV::UnexpectedEnd,
        ConfigurationError::UnescapeFail(p, c, s) => CfgErrV::UnescapeFail(p, c, s@),
    }
}

pub open spec fn opt_err_view(e: Option<ConfigurationError>) -> Option<CfgErrV> {
    match e {
        Some(err) => Some(err_view(err)),
        None => None,
    }
}

pub proof fn lemma_blobs_view_snoc(s: Seq<Blob>, x: Blob)
    ensures
        blobs_view(s.push(x)) == blobs_view(s) + seq![blob_view(x)],
    decreases s.len(),
{
    if s.len() == 0 {
        assert(s.push(x)[0] == x);
        assert(s.push(x).drop_first() =~= Seq::<Blob>::empty());
        assert(blobs_view(Seq::<Blob>::empty()) == Seq::<BlobV>::empty());
        assert(seq![blob_view(x)] + Seq::<BlobV>::empty() =~= seq![blob_view(x)]);
        assert(blobs_view(s) + seq![blob_view(x)] =~= seq![blob_view(x)]);
    } else {
        assert(s.push(x)[0] == s[0]);
        assert(s.push(x).drop_first() =~= s.drop_first().push(x));
        lemma_blobs_view_snoc(s.drop_first(), x);
        assert(seq![blob_view(s[0])] + (blobs_view(s.drop_first()) + seq![blob_view(x)])
            =~= (seq![blob_view(s[0])] + blobs_view(s.drop_first())) + seq![blob_view(x)]);
    }
}

pub proof fn lemma_entries_view_snoc(s: Seq<(Position, String, Blob)>, x: (Position, String, Blob))
    ensures
        entries_view(s.push(x)) == entries_view(s) + seq![(x.0, x.1@, blob_view(x.2))],
    decreases s.len(),
{
    if s.len() == 0 {
        assert(s.push(x)[0] == x);
        assert(s.push(x).drop_first() =~= Seq::<(Position, String, Blob)>::empty());
        assert(entries_view(Seq::<(Position, String, Blob)>::empty()) == Seq::<
            (Position, Seq<char>, BlobV),
        >::empty());
        assert(seq![(x.0, x.1@, blob_view(x.2))] + Seq::<(Position, Seq<char>, BlobV)>::empty()
            =~= seq![(x.0, x.1@, blob_view(x.2))]);
        assert(entries_view(s) + seq![(x.0, x.1@, blob_view(x.2))] =~= seq![
            (x.0, x.1@, blob_view(x.2)),
        ]);
    } else {
        assert(s.push(x)[0] == s[0]);
        assert(s.push(x).drop_first() =~= s.drop_first().push(x));
        lemma_entries_view_snoc(s.drop_first(), x);
        assert(seq![(s[0].0, s[0].1@, blob_view(s[0].2))] + (entries_view(s.drop_first()) + seq![
            (x.0, x.1@, blob_view(x.2)),
        ]) =~= (seq![(s[0].0, s[0].1@, blob_view(s[0].2))] + entries_view(s.drop_first())) + seq![
            (x.0, x.1@, blob_view(x.2)),
        ]);
    }
}

pub proof fn lemma_gens_view_snoc(s: Seq<Generator>, x: Generator)
    ensures
        gens_view(s.push(x)) == gens_view(s) + seq![gen_view(x)],
    decreases s.len(),
{
    if s.len() == 0 {
        assert(s.push(x)[0] == x);
        assert(s.push(x).drop_first() =~= Seq::<Generator>::empty());
        assert(gens_view(Seq::<Generator>::empty()) == Seq::<GeneratorV>::empty());
        assert(seq![gen_view(x)] + Seq::<GeneratorV>::empty() =~= seq![gen_view(x)]);
        assert(gens_view(s) + seq![gen_view(x)] =~= seq![gen_view(x)]);
    } else {
        assert(s.push(x)[0] == s[0]);
        assert(s.push(x).drop_first() =~= s.drop_first().push(x));
        lemma_gens_view_snoc(s.drop_first(), x);
        assert(seq![gen_view(s[0])] + (gens_view(s.drop_first()) + seq![gen_view(x)])
            =~= (seq![gen_view(s[0])] + gens_view(s.drop_first())) + seq![gen_view(x)]);
    }
}

pub proof fn lemma_args_view_push(s: Seq<(Position, String)>, x: (Position, String))
    ensures
        args_view(s.push(x)) == args_view(s).push((x.0, x.1@)),
{
    assert(args_view(s.push(x)) =~= args_view(s).push((x.0, x.1@)));
}

/// The ghost parser's cursor: how many tokens are consumed, and the
/// terminal lexing error not yet reported.
pub ghost struct Cur {
    pub i: int,
    pub term: Option<CfgErrV>,
}

/// One ghost parsing step: the parsed piece and the cursor it leaves, or
/// the error that ends the statement and the cursor where it was found.
pub ghost enum Step<T> {
    Parsed(T, Cur),
    Failed(CfgErrV, Cur),
}

/// Totality guard: clamp a cursor into the token range.  On every cursor
/// the grammar produces the guard is the identity; it only keeps the ghost
/// recursion well founded.
pub open spec fn chk(c: Cur, len: int) -> Cur {
    Cur {
        i: if c.i < 0 {
            0
        } else if c.i > len {
            len
        } else {
            c.i
        },
        term: c.term,
    }
}

/// Totality guard: force a continuation cursor at least one past the entry
/// cursor, clamped to the token range.  The grammar consumes at least one
/// token before every continuation, so on its cursors the guard is the
/// identity; it only keeps the ghost recursion well founded.
pub open spec fn bump(i: int, c: Cur, len: int) -> Cur {
    let j = if c.i >= i + 1 {
        c.i
    } else {
        i + 1
    };
    Cur {
        i: if j > len {
            len
        } else {
            j
        },
        term: c.term,
    }
}

/// The next significant token, with the cursor after it; a statement
/// keyword ends the construct, and at the end of the stream the terminal
/// lexing error is reported once.
pub open spec fn sp_next_expected(toks: Seq<(Position, WordV)>, c: Cur) -> Step<(Position, WordV)> {
    match lookup(toks, c.i) {
        Lookup::Found(p, w, j) => Step::Parsed((p, w), Cur { i: j, term: c.term }),
        Lookup::Stopped(j) => Step::Failed(CfgErrV::UnexpectedEnd, Cur { i: j, term: c.term }),
        Lookup::EndErr(j) => match c.term {
            Some(e) => Step::Failed(e, Cur { i: j, term: None }),
            None => Step::Failed(CfgErrV::UnexpectedEnd, Cur { i: j, term: None }),
        },
    }
}

/// Totality guard: clamp a continuation cursor into the range from the
/// entry cursor to the end of the stream.  The grammar never moves the
/// cursor backwards, so on its cursors the guard is the identity.
pub open spec fn ge(i: int, c: Cur, len: int) -> Cur {
    Cur {
        i: if c.i < i {
            i
        } else if c.i > len {
            len
        } else {
            c.i
        },
        term: c.term,
    }
}

/// The cursor after peeking: line breaks and comments are consumed.
pub open spec fn sp_peek_cur(toks: Seq<(Position, WordV)>, c: Cur) -> Cur {
    ge(c.i, Cur { i: skip_nc(toks, c.i), term: c.term }, toks.len() as int)
}

/// Parse one blob: a primary value, then its generator pipe chain.
pub open spec fn sp_blob(toks: Seq<(Position, WordV)>, c: Cur) -> Step<BlobV>
    decreases toks.len() - c.i, 3int when 0 <= c.i <= toks.len()
{
    let len = toks.len() as int;
    match sp_next_expected(toks, c) {
        Step::Failed(e, c2) => Step::Failed(e, c2),
        Step::Parsed((position, w), c2) => match w {
            WordV::SimpleString(s) => sp_blob_tail(
                toks,
                position,
                BlobValueV::Name(NameV::Variable(s)),
                bump(c.i, c2, len),
            ),
            WordV::QuotedString(s) => sp_blob_tail(
                toks,
                position,
                BlobValueV::Name(NameV::Source(s)),
                bump(c.i, c2, len),
            ),
            WordV::DollardString(s) => sp_blob_tail(
                toks,
                position,
                BlobValueV::Literal(s),
                bump(c.i, c2, len),
            ),
            WordV::SystemRun => sp_blob_tail(
                toks,
                position,
                BlobValueV::Name(NameV::SystemRun),
                bump(c.i, c2, len),
            ),
            WordV::SystemTest => sp_blob_tail(
                toks,
                position,
                BlobValueV::Name(NameV::SystemTest),
                bump(c.i, c2, len),
            ),
            WordV::SystemPackage => sp_blob_tail(
                toks,
                position,
                BlobValueV::Name(NameV::SystemPackage),
                bump(c.i, c2, len),
            ),
            WordV::DirectoryConcatOpen => match sp_concat(toks, bump(c.i, c2, len)) {
                Step::Failed(e, c3) => Step::Failed(e, c3),
                Step::Parsed(items, c3) => sp_blob_tail(
                    toks,
                    position,
                    BlobValueV::Concatenation(items),
                    bump(c.i, c3, len),
                ),
            },
            WordV::DirectoryComposeOpen => match sp_compose(toks, bump(c.i, c2, len)) {
                Step::Failed(e, c3) => Step::Failed(e, c3),
                Step::Parsed(items, c3) => sp_blob_tail(
                    toks,
                    position,
                    BlobValueV::Composition(items),
                    bump(c.i, c3, len),
                ),
            },
            _ => Step::Failed(CfgErrV::UnexpectedToken(position, word_descr(w), "blob"@), c2),
        },
    }
}

/// Finish a blob whose primary value is parsed: read the pipe chain.
pub open spec fn sp_blob_tail(
    toks: Seq<(Position, WordV)>,
    position: Position,
    value: BlobValueV,
    c: Cur,
) -> Step<BlobV>
    decreases toks.len() - c.i, 10int when 0 <= c.i <= toks.len()
{
    match sp_chain(toks, c) {
        Step::Failed(e, c2) => Step::Failed(e, c2),
        Step::Parsed(pipes, c2) => Step::Parsed(BlobV { position, value, pipes }, c2),
    }
}

/// Parse a generator chain: one stage per pipe operator, ending before the
/// first significant token that is not a pipe operator.
pub open spec fn sp_chain(toks: Seq<(Position, WordV)>, c: Cur) -> Step<Seq<GeneratorV>>
    decreases toks.len() - c.i, 9int when 0 <= c.i <= toks.len()
{
    let len = toks.len() as int;
    let jc = sp_peek_cur(toks, c);
    if jc.i < len && (toks[jc.i].1 is PipeFile || toks[jc.i].1 is PipeDirectory) {
        match sp_value(toks, jc) {
            Step::Failed(e, c2) => Step::Failed(e, c2),
            Step::Parsed(g, c2) => match sp_chain(toks, bump(c.i, c2, len)) {
                Step::Failed(e, c3) => Step::Failed(e, c3),
                Step::Parsed(rest, c3) => Step::Parsed(seq![g] + rest, c3),
            },
        }
    } else {
        Step::Parsed(Seq::empty(), jc)
    }
}

/// Parse one pipe stage: the operator, the optional default generator
/// alias bound by `??`, the core value and the trailing arguments.
pub open spec fn sp_value(toks: Seq<(Position, WordV)>, c: Cur) -> Step<GeneratorV>
    decreases toks.len() - c.i, 8int when 0 <= c.i <= toks.len()
{
    let len = toks.len() as int;
    match sp_next_expected(toks, c) {
        Step::Failed(e, c2) => Step::Failed(e, c2),
        Step::Parsed((position, w), c2) => {
            if !(w is PipeDirectory || w is PipeFile) {
                Step::Failed(
                    CfgErrV::UnexpectedToken(position, word_descr(w), "generator pipe"@),
                    c2,
                )
            } else {
                let input_is_dir = w is PipeDirectory;
                match sp_next_expected(toks, c2) {
                    Step::Failed(e, c3) => Step::Failed(e, c3),
                    Step::Parsed((first_p, first_w), c3) => {
                        let jc = sp_peek_cur(toks, c3);
                        if jc.i < len && toks[jc.i].1 is DefaultGenerator {
                            match first_w {
                                WordV::QuotedString(s) => sp_stage_default(
                                    toks,
                                    position,
                                    input_is_dir,
                                    s,
                                    ge(c.i, jc, len),
                                ),
                                WordV::DollardString(s) => sp_stage_default(
                                    toks,
                                    position,
                                    input_is_dir,
                                    s,
                                    ge(c.i, jc, len),
                                ),
                                _ => Step::Failed(
                                    CfgErrV::UnexpectedToken(
                                        first_p,
                                        word_descr(first_w),
                                        "generator name"@,
                                    ),
                                    jc,
                                ),
                            }
                        } else {
                            sp_finish_stage(
                                toks,
                                position,
                                input_is_dir,
                                None,
                                (first_p, first_w),
                                ge(c.i, jc, len),
                            )
                        }
                    },
                }
            }
        },
    }
}

/// Finish a stage that named a default generator alias: consume the `??`,
/// read the core token, and go on with the core.
pub open spec fn sp_stage_default(
    toks: Seq<(Position, WordV)>,
    position: Position,
    input_is_dir: bool,
    name: Seq<char>,
    c: Cur,
) -> Step<GeneratorV>
    decreases toks.len() - c.i, 7int when 0 <= c.i <= toks.len()
{
    let len = toks.len() as int;
    match sp_next_expected(toks, c) {
        Step::Failed(e, c2) => Step::Failed(e, c2),
        Step::Parsed(_, c2) => match sp_next_expected(toks, chk(c2, len)) {
            Step::Failed(e, c3) => Step::Failed(e, c3),
            Step::Parsed(core, c3) => sp_finish_stage(
                toks,
                position,
                input_is_dir,
                Some(name),
                core,
                ge(c.i, c3, len),
            ),
        },
    }
}

/// Finish a stage whose alias and core token are settled: classify the
/// core, then collect the trailing arguments and build the stage.
pub open spec fn sp_finish_stage(
    toks: Seq<(Position, WordV)>,
    position: Position,
    input_is_dir: bool,
    name: Option<Seq<char>>,
    core: (Position, WordV),
    c: Cur,
) -> Step<GeneratorV>
    decreases toks.len() - c.i, 6int when 0 <= c.i <= toks.len()
{
    let len = toks.len() as int;
    match sp_core(toks, core, c) {
        Step::Failed(e, c2) => Step::Failed(e, c2),
        Step::Parsed(generator, c2) => {
            let (args, c3) = sp_args(toks, ge(c.i, c2, len));
            Step::Parsed(GeneratorV { position, input_is_dir, name, generator, args }, c3)
        },
    }
}

/// Classify a stage's core value: a variable, a source path, an URL, or a
/// parenthesized sub-blob whose value becomes the stage's value.
pub open spec fn sp_core(toks: Seq<(Position, WordV)>, core: (Position, WordV), c: Cur) -> Step<
    BlobValueV,
>
    decreases toks.len() - c.i, 5int when 0 <= c.i <= toks.len()
{
    match core.1 {
        WordV::SimpleString(s) => Step::Parsed(BlobValueV::Name(NameV::Variable(s)), c),
        WordV::QuotedString(s) => Step::Parsed(BlobValueV::Name(NameV::Source(s)), c),
        WordV::DollardString(s) => Step::Parsed(BlobValueV::Name(NameV::Url(s)), c),
        WordV::ParenthesisOpen => match sp_paren(toks, c) {
            Step::Failed(e, c2) => Step::Failed(e, c2),
            Step::Parsed(b, c2) => Step::Parsed(b.value, c2),
        },
        _ => Step::Failed(
            CfgErrV::UnexpectedToken(core.0, word_descr(core.1), "generator value"@),
            c,
        ),
    }
}

/// The greedily collected arguments: quoted and simple strings, up to the
/// first significant token of another kind.
pub open spec fn sp_args(toks: Seq<(Position, WordV)>, c: Cur) -> (Seq<(Position, Seq<char>)>, Cur)
    decreases toks.len() - c.i, 1int when 0 <= c.i <= toks.len()
{
    let len = toks.len() as int;
    let jc = sp_peek_cur(toks, c);
    if jc.i < len && (toks[jc.i].1 is QuotedString || toks[jc.i].1 is SimpleString) {
        let text = match toks[jc.i].1 {
            WordV::QuotedString(s) => s,
            WordV::SimpleString(s) => s,
            _ => Seq::empty(),
        };
        let (rest, c2) = sp_args(toks, bump(c.i, Cur { i: jc.i + 1, term: jc.term }, len));
        (seq![(toks[jc.i].0, text)] + rest, c2)
    } else {
        (Seq::empty(), jc)
    }
}

/// Parse a parenthesized blob; the closing parenthesis is mandatory and
/// consumed.
pub open spec fn sp_paren(toks: Seq<(Position, WordV)>, c: Cur) -> Step<BlobV>
    decreases toks.len() - c.i, 4int when 0 <= c.i <= toks.len()
{
    let len = toks.len() as int;
    match sp_blob(toks, c) {
        Step::Failed(e, c2) => Step::Failed(e, c2),
        Step::Parsed(b, c2) => match sp_next_expected(toks, chk(c2, len)) {
            Step::Failed(e, c3) => Step::Failed(e, c3),
            Step::Parsed((p, w), c3) => match w {
                WordV::ParenthesisClose => Step::Parsed(b, c3),
                _ => Step::Failed(
                    CfgErrV::UnexpectedToken(p, word_descr(w), "parenthesis.close"@),
                    c3,
                ),
            },
        },
    }
}

/// Parse a concatenation after its opening bracket.
pub open spec fn sp_concat(toks: Seq<(Position, WordV)>, c: Cur) -> Step<Seq<BlobV>>
    decreases toks.len() - c.i, 12int when 0 <= c.i <= toks.len()
{
    let len = toks.len() as int;
    let jc = sp_peek_cur(toks, c);
    if jc.i < len && toks[jc.i].1 is DirectoryConcatClose {
        match sp_next_expected(toks, jc) {
            Step::Failed(e, c2) => Step::Failed(e, c2),
            Step::Parsed(_, c2) => Step::Parsed(Seq::empty(), c2),
        }
    } else {
        sp_concat_items(toks, jc)
    }
}

/// The elements of a non-empty concatenation: blobs separated by single
/// commas, a trailing comma tolerated, the closing bracket consumed.
pub open spec fn sp_concat_items(toks: Seq<(Position, WordV)>, c: Cur) -> Step<Seq<BlobV>>
    decreases toks.len() - c.i, 11int when 0 <= c.i <= toks.len()
{
    let len = toks.len() as int;
    match sp_blob(toks, c) {
        Step::Failed(e, c2) => Step::Failed(e, c2),
        Step::Parsed(b, c2) => match sp_next_expected(toks, chk(c2, len)) {
            Step::Failed(e, c3) => Step::Failed(e, c3),
            Step::Parsed((p, w), c3) => match w {
                WordV::DirectoryConcatClose => Step::Parsed(seq![b], c3),
                WordV::Comma => {
                    let jc = sp_peek_cur(toks, c3);
                    if jc.i >= len {
                        // The stream ends after the comma: the next element
                        // read reports it.
                        match sp_next_expected(toks, jc) {
                            Step::Failed(e, c4) => Step::Failed(e, c4),
                            Step::Parsed(_, c4) => Step::Failed(CfgErrV::UnexpectedEnd, c4),
                        }
                    } else if toks[jc.i].1 is DirectoryConcatClose {
                        match sp_next_expected(toks, jc) {
                            Step::Failed(e, c4) => Step::Failed(e, c4),
                            Step::Parsed(_, c4) => Step::Parsed(seq![b], c4),
                        }
                    } else if c.i < len {
                        match sp_concat_items(toks, bump(c.i, jc, len)) {
                            Step::Failed(e, c4) => Step::Failed(e, c4),
                            Step::Parsed(rest, c4) => Step::Parsed(seq![b] + rest, c4),
                        }
                    } else {
                        // Guard only: an element was already read, so the
                        // entry cursor stands inside the stream.
                        Step::Failed(CfgErrV::UnexpectedEnd, jc)
                    }
                },
                _ => Step::Failed(
                    CfgErrV::UnexpectedToken(p, word_descr(w), "concatenation.next_item"@),
                    c3,
                ),
            },
        },
    }
}

/// Parse a composition after its opening brace.
pub open spec fn sp_compose(toks: Seq<(Position, WordV)>, c: Cur) -> Step<
    Seq<(Position, Seq<char>, BlobV)>,
>
    decreases toks.len() - c.i, 12int when 0 <= c.i <= toks.len()
{
    let len = toks.len() as int;
    let jc = sp_peek_cur(toks, c);
    if jc.i < len && toks[jc.i].1 is DirectoryComposeClose {
        match sp_next_expected(toks, jc) {
            Step::Failed(e, c2) => Step::Failed(e, c2),
            Step::Parsed(_, c2) => Step::Parsed(Seq::empty(), c2),
        }
    } else {
        sp_compose_items(toks, jc)
    }
}

/// The entries of a non-empty composition: quoted key, colon and blob,
/// comma separated, a trailing comma tolerated, the closing brace consumed.
pub open spec fn sp_compose_items(toks: Seq<(Position, WordV)>, c: Cur) -> Step<
    Seq<(Position, Seq<char>, BlobV)>,
>
    decreases toks.len() - c.i, 11int when 0 <= c.i <= toks.len()
{
    let len = toks.len() as int;
    match sp_next_expected(toks, c) {
        Step::Failed(e, c2) => Step::Failed(e, c2),
        Step::Parsed((key_p, key_w), c2) => match key_w {
            WordV::QuotedString(key) => match sp_next_expected(toks, chk(c2, len)) {
                Step::Failed(e, c3) => Step::Failed(e, c3),
                Step::Parsed((colon_p, colon_w), c3) => match colon_w {
                    WordV::Colon => match sp_blob(toks, ge(c.i, c3, len)) {
                        Step::Failed(e, c4) => Step::Failed(e, c4),
                        Step::Parsed(b, c4) => match sp_next_expected(toks, chk(c4, len)) {
                            Step::Failed(e, c5) => Step::Failed(e, c5),
                            Step::Parsed((p, w), c5) => match w {
                                WordV::DirectoryComposeClose => Step::Parsed(
                                    seq![(key_p, key, b)],
                                    c5,
                                ),
                                WordV::Comma => {
                                    let jc = sp_peek_cur(toks, c5);
                                    if jc.i >= len {
                                        // The stream ends after the comma:
                                        // the next entry read reports it.
                                        match sp_next_expected(toks, jc) {
                                            Step::Failed(e, c6) => Step::Failed(e, c6),
                                            Step::Parsed(_, c6) => Step::Failed(
                                                CfgErrV::UnexpectedEnd,
                                                c6,
                                            ),
                                        }
                                    } else if toks[jc.i].1 is DirectoryComposeClose {
                                        match sp_next_expected(toks, jc) {
                                            Step::Failed(e, c6) => Step::Failed(e, c6),
                                            Step::Parsed(_, c6) => Step::Parsed(seq![(key_p, key, b)], c6),
                                        }
                                    } else if c.i < len {
                                        match sp_compose_items(toks, bump(c.i, jc, len)) {
                                            Step::Failed(e, c6) => Step::Failed(e, c6),
                                            Step::Parsed(rest, c6) => Step::Parsed(
                                                seq![(key_p, key, b)] + rest,
                                                c6,
                                            ),
                                        }
                                    } else {
                                        // Guard only: an entry was already
                                        // read, so the entry cursor stands
                                        // inside the stream.
                                        Step::Failed(CfgErrV::UnexpectedEnd, jc)
                                    }
                                },
                                _ => Step::Failed(
                                    CfgErrV::UnexpectedToken(
                                        p,
                                        word_descr(w),
                                        "composition.end_item"@,
                                    ),
                                    c5,
                                ),
                            },
                        },
                    },
                    _ => Step::Failed(
                        CfgErrV::UnexpectedToken(
                            colon_p,
                            word_descr(colon_w),
                            "composition.collon"@,
                        ),
                        c3,
                    ),
                },
            },
            _ => Step::Failed(
                CfgErrV::UnexpectedToken(key_p, word_descr(key_w), "composition.name"@),
                c2,
            ),
        },
    }
}

/// The name that follows a `tag` or `gen` keyword.
pub open spec fn sp_name(toks: Seq<(Position, WordV)>, c: Cur) -> Step<Seq<char>> {
    match sp_next_expected(toks, c) {
        Step::Failed(e, c2) => Step::Failed(e, c2),
        Step::Parsed((p, w), c2) => match w {
            WordV::SimpleString(s) => Step::Parsed(s, c2),
            _ => Step::Failed(CfgErrV::ParserExpectedStatementName(p, word_descr(w)), c2),
        },
    }
}

/// The identifier of a file or directory statement.
pub open spec fn sp_identifier(toks: Seq<(Position, WordV)>, c: Cur) -> Step<IdentifierV> {
    match sp_next_expected(toks, c) {
        Step::Failed(e, c2) => Step::Failed(e, c2),
        Step::Parsed((p, w), c2) => match w {
            WordV::SimpleString(s) => Step::Parsed(IdentifierV::Variable(s), c2),
            WordV::SystemRun => Step::Parsed(IdentifierV::SystemRun, c2),
            WordV::SystemPackage => Step::Parsed(IdentifierV::SystemPackage, c2),
            WordV::SystemTest => Step::Parsed(IdentifierV::SystemTest, c2),
            _ => Step::Failed(
                CfgErrV::UnexpectedToken(p, word_descr(w), "statement identivfier"@),
                c2,
            ),
        },
    }
}

/// The identifier and the blob of a file or directory statement.
pub open spec fn sp_id_content(toks: Seq<(Position, WordV)>, c: Cur) -> Step<(IdentifierV, BlobV)>
    decreases toks.len() - c.i, 13int when 0 <= c.i <= toks.len()
{
    match sp_identifier(toks, c) {
        Step::Failed(e, c2) => Step::Failed(e, c2),
        Step::Parsed(id, c2) => match sp_blob(toks, ge(c.i, c2, toks.len() as int)) {
            Step::Failed(e, c3) => Step::Failed(e, c3),
            Step::Parsed(b, c3) => Step::Parsed((id, b), c3),
        },
    }
}

/// The next statement read by the statement iterator: `End` at the end of
/// the stream, a statement, or the error that ends parsing.
pub ghost enum SN {
    End(Cur),
    Stmt(StatementV, Cur),
    Fail(CfgErrV, Cur),
}

/// One step of the statement iterator: skip line breaks and comments, read
/// the keyword, and parse the statement it begins; at the end of the
/// stream, report the terminal lexing error once.
pub open spec fn sp_statement(toks: Seq<(Position, WordV)>, c: Cur) -> SN
    decreases toks.len() - c.i, 14int when 0 <= c.i <= toks.len()
{
    let len = toks.len() as int;
    if c.i >= len {
        match c.term {
            Some(e) => SN::Fail(e, Cur { i: len, term: None }),
            None => SN::End(Cur { i: len, term: None }),
        }
    } else {
        let position = toks[c.i].0;
        let w = toks[c.i].1;
        let c2 = Cur { i: c.i + 1, term: c.term };
        match w {
            WordV::NewLine => sp_statement(toks, c2),
            WordV::Comment(_) => sp_statement(toks, c2),
            WordV::KeywordTag => match sp_name(toks, c2) {
                Step::Failed(e, c3) => SN::Fail(e, c3),
                Step::Parsed(name, c3) => SN::Stmt(StatementV::Tag(position, name), c3),
            },
            WordV::KeywordGenerator => match sp_name(toks, c2) {
                Step::Failed(e, c3) => SN::Fail(e, c3),
                Step::Parsed(name, c3) => match sp_chain(toks, ge(c.i, c3, len)) {
                    Step::Failed(e, c4) => SN::Fail(e, c4),
                    Step::Parsed(chain, c4) => SN::Stmt(
                        StatementV::Generator(position, name, chain),
                        c4,
                    ),
                },
            },
            WordV::KeywordDir => match sp_id_content(toks, c2) {
                Step::Failed(e, c3) => SN::Fail(e, c3),
                Step::Parsed((id, b), c3) => SN::Stmt(StatementV::Directory(position, id, b), c3),
            },
            WordV::KeywordFile => match sp_id_content(toks, c2) {
                Step::Failed(e, c3) => SN::Fail(e, c3),
                Step::Parsed((id, b), c3) => SN::Stmt(StatementV::File(position, id, b), c3),
            },
            _ => SN::Fail(
                CfgErrV::UnexpectedToken(position, word_descr(w), "statement begin"@),
                c2,
            ),
        }
    }
}

/// The whole statement sequence of a token stream: statements until the
/// end of the stream, or until the first error, which is the last element.
pub open spec fn sp_statements(toks: Seq<(Position, WordV)>, c: Cur) -> Seq<
    Result<StatementV, CfgErrV>,
>
    decreases toks.len() - c.i, 15int when 0 <= c.i <= toks.len()
{
    match sp_statement(toks, c) {
        SN::End(_) => Seq::empty(),
        SN::Fail(e, c2) => seq![Result::<StatementV, CfgErrV>::Err(e)],
        SN::Stmt(st, c2) => seq![Result::<StatementV, CfgErrV>::Ok(st)] + sp_statements(
            toks,
            bump(c.i, c2, toks.len() as int),
        ),
    }
}

/// How the lexing of a whole source ended: cleanly, with a lexical error,
/// or with an escape failure inside a string payload.
pub ghost enum LexEndV {
    Clean,
    LexFail(LexerErrorV),
    EscFail(Position, char, Seq<char>),
}

/// The escaped token stream of a whole source, and how it ended.
pub ghost struct LexedV {
    pub toks: Seq<(Position, WordV)>,
    pub end: LexEndV,
}

/// The terminal error the statement parser starts with, for a lex ending.
pub open spec fn term_of(end: LexEndV) -> Option<CfgErrV> {
    match end {
        LexEndV::Clean => None,
        LexEndV::LexFail(e) => Some(CfgErrV::Lexer(e)),
        LexEndV::EscFail(p, c, s) => Some(CfgErrV::UnescapeFail(p, c, s)),
    }
}

/// Lex and escape the whole source from the offset `i`: each token of the
/// ghost scanner, its exact position, the payload of quoted and dollar
/// strings passed through the escaper, stopping at the first lexical error
/// or escape failure.
pub open spec fn sp_lex(src: Seq<char>, i: int) -> LexedV
    decreases src.len() - i when 0 <= i <= src.len()
{
    let len = src.len() as int;
    let rem = src.skip(i);
    match lex_next(rem) {
        LexStep::End => LexedV { toks: Seq::empty(), end: LexEndV::Clean },
        LexStep::Fail(e) => LexedV { toks: Seq::empty(), end: LexEndV::LexFail(e) },
        LexStep::Tok(w, rest) => {
            let pos = pos_at(src, i + ws_len(rem));
            let i2 = len - rest.len();
            // Totality guard: the scanner always consumes at least one
            // character, so the clamp is the identity on its outcomes.
            let i3 = if i2 < i + 1 {
                i + 1
            } else if i2 > len {
                len
            } else {
                i2
            };
            match w {
                WordV::QuotedString(raw) => match unescape(raw) {
                    Ok(t) => {
                        let tail = sp_lex(src, i3);
                        LexedV {
                            toks: seq![(pos, WordV::QuotedString(t))] + tail.toks,
                            end: tail.end,
                        }
                    },
                    Err((bad, partial)) => LexedV {
                        toks: Seq::empty(),
                        end: LexEndV::EscFail(pos, bad, partial),
                    },
                },
                WordV::DollardString(raw) => match unescape(raw) {
                    Ok(t) => {
                        let tail = sp_lex(src, i3);
                        LexedV {
                            toks: seq![(pos, WordV::DollardString(t))] + tail.toks,
                            end: tail.end,
                        }
                    },
                    Err((bad, partial)) => LexedV {
                        toks: Seq::empty(),
                        end: LexEndV::EscFail(pos, bad, partial),
                    },
                },
                _ => {
                    let tail = sp_lex(src, i3);
                    LexedV { toks: seq![(pos, w)] + tail.toks, end: tail.end }
                },
            }
        },
    }
}

/// The position-and-shape view of an escaped token list.
pub open spec fn toks_view(s: Seq<(Position, Word)>) -> Seq<(Position, WordV)> {
    s.map_values(|t: (Position, Word)| (t.0, t.1@))
}

/// The ghost view of a statement result list.
pub open spec fn results_view(s: Seq<Result<Statement, ConfigurationError>>) -> Seq<
    Result<StatementV, CfgErrV>,
> {
    s.map_values(
        |x: Result<Statement, ConfigurationError>|
            match x {
                Ok(st) => Result::<StatementV, CfgErrV>::Ok(statement_view(st)),
                Err(e) => Result::<StatementV, CfgErrV>::Err(err_view(e)),
            },
    )
}

} // verus!
