//! Statements of the configuration grammar and the compositional blob value
//! model they are built from.

use super::error::ConfigurationError;
use super::escape::escape;
use super::lexer::lemma_lex_next_progress;
use super::lexer::Lexer;
use super::lexer::Word;
use super::grammar::bump;
use super::grammar::err_view;
use super::grammar::opt_err_view;
use super::grammar::results_view;
use super::grammar::sp_lex;
use super::grammar::sp_statements;
use super::grammar::statement_view;
use super::grammar::term_of;
use super::grammar::toks_view;
use super::grammar::CfgErrV;
use super::grammar::Cur;
use super::grammar::StatementV;
use super::lexer::WordV;
use super::parser::Parser;
use super::Position;
use vstd::prelude::*;

verus! {

/// One statement of the configuration file.
#[derive(Debug, PartialEq)]
pub enum Statement {
    /// A directory variable declaration.
    Directory(Position, Identifier, Blob),
    /// A file variable declaration.
    File(Position, Identifier, Blob),
    /// A tag statement.
    Tag(Position, String),
    /// A generator declaration, binding a chain to an alias.
    Generator(Position, String, Vec<Generator>),
}

/// The identifier a file or directory statement declares.
#[derive(Debug, PartialEq)]
pub enum Identifier {
    /// Simple variable name.
    Variable(String),
    /// The system variable for the package, `$pkg`.
    SystemPackage,
    /// The system variable for the executable binary, `$run`.
    SystemRun,
    /// The system variable for the executable test, `$test`.
    SystemTest,
}

/// A parsed value expression together with its generator pipe chain, applied
/// left to right.
#[derive(Debug, PartialEq)]
pub struct Blob {
    pub position: Position,
    pub value: BlobValue,
    pub pipes: Vec<Generator>,
}

/// The value part of a blob.
#[derive(Debug, PartialEq)]
pub enum BlobValue {
    Name(Name),
    /// Already escaped text.
    Literal(String),
    /// Ordered list of blobs, `[ ... ]`.
    Concatenation(Vec<Blob>),
    /// Ordered key-to-blob pairs, `{ ... }`; keys need not be unique.
    Composition(Vec<(Position, String, Blob)>),
}

/// One generator pipe stage.
#[derive(Debug, PartialEq)]
pub struct Generator {
    /// The position of the pipe operator of this stage.
    pub position: Position,
    /// Whether the pipe operator was `>` (directory input) or `|` (file
    /// input).
    pub input_is_dir: bool,
    /// The default generator alias, set only by the `"alias" ?? value` form.
    pub name: Option<String>,
    /// The value of the generator.
    pub generator: BlobValue,
    /// Arguments for the generator.
    pub args: Vec<(Position, String)>,
}

/// A name a blob value can denote.
#[derive(Debug, PartialEq)]
pub enum Name {
    /// The name of a generator variable.
    Variable(String),
    /// A file or a directory from the source filesystem.
    Source(String),
    /// An external generator URL.
    Url(String),
    /// The system variable for the package, `$pkg`.
    SystemPackage,
    /// The system variable for the executable binary, `$run`.
    SystemRun,
    /// The system variable for the executable test, `$test`.
    SystemTest,
}

/// Parse the configuration text into its statements: the text is lexed, the
/// payload of quoted and dollar strings is escaped, and statements are read
/// until the end of the input or the first error, which is the last
/// element.  The result is exactly the statement sequence the ghost lexer
/// and ghost grammar assign to the text.
pub fn parse(config_content: &str) -> (r: Vec<Result<Statement, ConfigurationError>>)
    requires
        config_content@.len() < usize::MAX,
    ensures
        forall|k: int| 0 <= k < r@.len() - 1 ==> r@[k] is Ok,
        ({
            let lx = sp_lex(config_content@, 0);
            results_view(r@) == sp_statements(lx.toks, Cur { i: 0, term: term_of(lx.end) })
        }),
{
    let ghost src = config_content@;
    let mut lex = Lexer::new(config_content);
    let mut tokens: Vec<(Position, Word)> = Vec::new();
    let mut terminal: Option<ConfigurationError> = None;
    proof {
        lex.lemma_state();
        assert(toks_view(tokens@) =~= Seq::<(Position, WordV)>::empty());
        if sp_lex(src, 0).end is Clean {
            assert(toks_view(tokens@) + sp_lex(src, 0).toks =~= sp_lex(src, 0).toks);
        } else {
            assert(toks_view(tokens@) + sp_lex(src, 0).toks =~= sp_lex(src, 0).toks);
        }
    }
    loop
        invariant_except_break
            lex.wf(),
            !lex.dead(),
            lex.source() == src,
            src.len() < usize::MAX,
            terminal is None,
            0 <= lex.consumed_len() <= src.len(),
            sp_lex(src, 0).toks == toks_view(tokens@) + sp_lex(src, lex.consumed_len()).toks,
            sp_lex(src, 0).end == sp_lex(src, lex.consumed_len()).end,
        ensures
            sp_lex(src, 0).toks == toks_view(tokens@),
            opt_err_view(terminal) == term_of(sp_lex(src, 0).end),
        decreases lex.remaining().len(),
    {
        let ghost cl = lex.consumed_len();
        proof {
            lex.lemma_state();
            lemma_lex_next_progress(lex.remaining());
        }
        match lex.word_lexer() {
            None => {
                proof {
                    assert(sp_lex(src, cl).toks =~= Seq::<(Position, WordV)>::empty());
                    assert(toks_view(tokens@) + sp_lex(src, cl).toks =~= toks_view(tokens@));
                }
                break;
            },
            Some(Ok((p, w))) => {
                let ghost cl2 = src.len() - lex.remaining().len();
                proof {
                    lex.lemma_state();
                    assert(cl2 == lex.consumed_len());
                    assert(cl + 1 <= cl2 <= src.len());
                }
                let w2 = match w {
                    Word::QuotedString(raw) => match escape(p, raw) {
                        Ok(t) => Word::QuotedString(t),
                        Err(e) => {
                            terminal = Some(e);
                            proof {
                                assert(sp_lex(src, cl).toks =~= Seq::<
                                    (Position, WordV),
                                >::empty());
                                assert(toks_view(tokens@) + sp_lex(src, cl).toks =~= toks_view(
                                    tokens@,
                                ));
                            }
                            break;
                        },
                    },
                    Word::DollardString(raw) => match escape(p, raw) {
                        Ok(t) => Word::DollardString(t),
                        Err(e) => {
                            terminal = Some(e);
                            proof {
                                assert(sp_lex(src, cl).toks =~= Seq::<
                                    (Position, WordV),
                                >::empty());
                                assert(toks_view(tokens@) + sp_lex(src, cl).toks =~= toks_view(
                                    tokens@,
                                ));
                            }
                            break;
                        },
                    },
                    other => other,
                };
                let ghost toks_a = tokens@;
                tokens.push((p, w2));
                proof {
                    assert(tokens@.drop_last() =~= toks_a);
                    assert(toks_view(tokens@) =~= toks_view(toks_a).push((p, w2@)));
                    assert(sp_lex(src, cl).toks == seq![(p, w2@)] + sp_lex(src, cl2).toks);
                    assert(toks_view(toks_a) + (seq![(p, w2@)] + sp_lex(src, cl2).toks)
                        =~= toks_view(tokens@) + sp_lex(src, cl2).toks);
                }
            },
            Some(Err(e)) => {
                let at = lex.position();
                terminal = Some(ConfigurationError::Lexer(at, e));
                proof {
                    assert(sp_lex(src, cl).toks =~= Seq::<(Position, WordV)>::empty());
                    assert(toks_view(tokens@) + sp_lex(src, cl).toks =~= toks_view(tokens@));
                }
                break;
            },
        }
    }
    let ghost ptoks = toks_view(tokens@);
    let ghost pcur0 = Cur { i: 0, term: opt_err_view(terminal) };
    let mut statements = Parser::new(tokens, terminal);
    let mut out: Vec<Result<Statement, ConfigurationError>> = Vec::new();
    proof {
        assert(results_view(out@) =~= Seq::<Result<StatementV, CfgErrV>>::empty());
        assert(results_view(out@) + sp_statements(ptoks, pcur0) =~= sp_statements(ptoks, pcur0));
    }
    loop
        invariant_except_break
            statements.wf(),
            statements.toks() == ptoks,
            forall|k: int| 0 <= k < out@.len() ==> out@[k] is Ok,
            0 <= statements.at() <= ptoks.len(),
            sp_statements(ptoks, pcur0) == results_view(out@) + sp_statements(
                ptoks,
                statements.cur(),
            ),
        ensures
            forall|k: int| 0 <= k < out@.len() - 1 ==> out@[k] is Ok,
            sp_statements(ptoks, pcur0) == results_view(out@),
        decreases statements.toks().len() - statements.at() + (if statements.term() is Some {
            1int
        } else {
            0int
        }),
    {
        proof {
            statements.lemma_wf_bounds();
        }
        let ghost cur_a = statements.cur();
        let ghost outs_a = out@;
        match statements.next() {
            None => {
                proof {
                    assert(sp_statements(ptoks, cur_a) =~= Seq::<
                        Result<StatementV, CfgErrV>,
                    >::empty());
                    assert(results_view(out@) + sp_statements(ptoks, cur_a) =~= results_view(
                        out@,
                    ));
                }
                break;
            },
            Some(Ok(st)) => {
                let ghost sv = statement_view(st);
                proof {
                    assert(bump(cur_a.i, statements.cur(), ptoks.len() as int)
                        == statements.cur());
                    assert(sp_statements(ptoks, cur_a) == seq![
                        Result::<StatementV, CfgErrV>::Ok(sv),
                    ] + sp_statements(ptoks, statements.cur()));
                }
                out.push(Ok(st));
                proof {
                    assert(out@.drop_last() =~= outs_a);
                    assert(results_view(out@) =~= results_view(outs_a).push(
                        Result::<StatementV, CfgErrV>::Ok(sv),
                    ));
                    assert((results_view(outs_a) + seq![Result::<StatementV, CfgErrV>::Ok(sv)])
                        + sp_statements(ptoks, statements.cur()) =~= results_view(outs_a) + (seq![
                        Result::<StatementV, CfgErrV>::Ok(sv),
                    ] + sp_statements(ptoks, statements.cur())));
                    assert(results_view(outs_a) + seq![Result::<StatementV, CfgErrV>::Ok(sv)]
                        =~= results_view(out@));
                }
            },
            Some(Err(e)) => {
                let ghost ev = err_view(e);
                proof {
                    assert(sp_statements(ptoks, cur_a) =~= seq![
                        Result::<StatementV, CfgErrV>::Err(ev),
                    ]);
                }
                out.push(Err(e));
                proof {
                    assert(out@.drop_last() =~= outs_a);
                    assert(results_view(out@) =~= results_view(outs_a).push(
                        Result::<StatementV, CfgErrV>::Err(ev),
                    ));
                    assert(results_view(outs_a) + seq![Result::<StatementV, CfgErrV>::Err(ev)]
                        =~= results_view(out@));
                }
                break;
            },
        }
    }
    out
}

} // verus!
