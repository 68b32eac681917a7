//! Statements of the early grammar revision, and its parse entry point.

use super::error::ConfigurationError;
use super::lexer::Lexer;
use super::parser::Parser;
use super::parser::TokenRes;
use crate::char_iter::Position;
use vstd::prelude::*;

verus! {

/// One statement of the early grammar.
#[derive(Debug, PartialEq)]
pub enum Statement {
    /// A tag statement.
    Tag(Position, String),
    /// An empty line.
    EmptyLine,
    /// A comment.
    Comment(String),
    /// A file variable.
    File(Position, String, FileValue),
}

/// The value of a file statement.
#[derive(Debug, PartialEq)]
pub enum FileValue {
    Literal(String),
    Name(String),
    Variable(Variable),
}

/// One generator of the early grammar.
#[derive(Debug, PartialEq)]
pub struct Generator {
    pub position: Position,
    pub name: Option<String>,
    pub generator: GeneratorValue,
    pub args: Vec<String>,
}

/// The value of a generator.
#[derive(Debug, PartialEq)]
pub enum GeneratorValue {
    /// The name of a generator variable.
    Variable(String),
    /// A file in the source filesystem.
    File(String),
    /// An external generator URL.
    Url(String),
}

/// A variable of the early grammar.
#[derive(Debug, PartialEq)]
pub enum Variable {
    /// A standard variable.
    Variable(String),
    /// The system variable for the package, `$pkg`.
    SystemPackage,
    /// The system variable for the executable binary, `$run`.
    SystemRun,
    /// The system variable for the executable test, `$test`.
    SystemTest,
}

/// Parse the configuration text with the early grammar: the text is lexed
/// and statements are read until the end of the token stream.  A lexical
/// error silently ends the token stream, as the early lexer reports it only
/// through [`Lexer::err`].  The results match, item by item, what the
/// ghost lexer and the ghost statement machine assign to the text.
pub fn parse(config_content: &str) -> (r: Vec<Result<Statement, ConfigurationError>>)
    requires
        config_content@.len() < usize::MAX,
    ensures
        ({
            let lexed = super::lexer::sp_dlex(
                config_content@,
                0,
                super::lexer::State::Initial,
                None,
            );
            exists|tks: Seq<TokenRes>|
                {
                    &&& #[trigger] super::parser::dtoks_view(tks) == lexed
                    &&& (forall|k: int| 0 <= k < tks.len() ==> tks[k] is Ok)
                    &&& super::parser::ditems_match(
                        r@,
                        super::parser::sp_draft_all(tks, super::parser::dstate_initial(), 0),
                    )
                }
        }),
{
    let ghost src = config_content@;
    let mut lex = Lexer::new(config_content);
    let mut tokens: Vec<TokenRes> = Vec::new();
    proof {
        assert(super::parser::dtoks_view(tokens@) =~= Seq::<
            (Position, crate::configuration::lexer::WordV),
        >::empty());
        assert(super::parser::dtoks_view(tokens@) + super::lexer::sp_dlex(
            src,
            0,
            super::lexer::State::Initial,
            None,
        ) =~= super::lexer::sp_dlex(src, 0, super::lexer::State::Initial, None));
        lex.lemma_state();
        assert(src.skip(0) =~= src);
    }
    loop
        invariant_except_break
            lex.wf(),
            lex.source() == src,
            src.len() < usize::MAX,
            lex.error_of() is None,
            forall|k: int| 0 <= k < tokens@.len() ==> tokens@[k] is Ok,
            0 <= src.len() - lex.remaining().len() <= src.len(),
            super::lexer::sp_dlex(src, 0, super::lexer::State::Initial, None)
                == super::parser::dtoks_view(tokens@) + super::lexer::sp_dlex(
                src,
                src.len() - lex.remaining().len(),
                lex.state_of(),
                lex.comming_of(),
            ),
        ensures
            forall|k: int| 0 <= k < tokens@.len() ==> tokens@[k] is Ok,
            super::lexer::sp_dlex(src, 0, super::lexer::State::Initial, None)
                == super::parser::dtoks_view(tokens@),
        decreases super::lexer::lex_weight(
            lex.remaining(),
            lex.comming_of() is Some,
            lex.state_of(),
        ),
    {
        let ghost cl = src.len() - lex.remaining().len();
        let ghost st_a = lex.state_of();
        let ghost com_a = lex.comming_of();
        let ghost rem_a = lex.remaining();
        proof {
            lex.lemma_state();
            super::lexer::lemma_old_lex_progress(rem_a, st_a, Seq::<char>::empty());
        }
        match lex.next() {
            None => {
                proof {
                    assert(super::lexer::sp_dlex(src, cl, st_a, com_a) =~= Seq::<
                        (Position, crate::configuration::lexer::WordV),
                    >::empty());
                    assert(super::parser::dtoks_view(tokens@) + super::lexer::sp_dlex(
                        src,
                        cl,
                        st_a,
                        com_a,
                    ) =~= super::parser::dtoks_view(tokens@));
                }
                break;
            },
            Some((p, w)) => {
                let ghost toks_a = tokens@;
                let ghost wv = w@;
                proof {
                    lex.lemma_state();
                    if com_a is Some {
                        assert(super::lexer::sp_dlex(src, cl, st_a, com_a) == seq![(p, wv)]
                            + super::lexer::sp_dlex(src, cl, st_a, None));
                    } else {
                        let c2 = src.len() - lex.remaining().len();
                        if c2 > cl {
                            assert(super::lexer::sp_dlex(src, cl, st_a, com_a) == seq![(p, wv)]
                                + super::lexer::sp_dlex(
                                src,
                                c2,
                                lex.state_of(),
                                lex.comming_of(),
                            ));
                        } else {
                            assert(c2 == cl);
                            assert(!(st_a is Initial));
                            assert(lex.state_of() is Initial);
                            assert(lex.comming_of() is None);
                            assert(super::lexer::sp_dlex(src, cl, st_a, com_a) == seq![(p, wv)]
                                + super::lexer::sp_dlex(
                                src,
                                cl,
                                super::lexer::State::Initial,
                                None,
                            ));
                        }
                    }
                }
                tokens.push(Ok((p, w)));
                proof {
                    assert(tokens@.drop_last() =~= toks_a);
                    assert(super::parser::dtoks_view(tokens@) =~= super::parser::dtoks_view(
                        toks_a,
                    ).push((p, wv)));
                    assert(super::parser::dtoks_view(toks_a) + (seq![(p, wv)]
                        + super::lexer::sp_dlex(
                        src,
                        src.len() - lex.remaining().len(),
                        lex.state_of(),
                        lex.comming_of(),
                    )) =~= super::parser::dtoks_view(tokens@) + super::lexer::sp_dlex(
                        src,
                        src.len() - lex.remaining().len(),
                        lex.state_of(),
                        lex.comming_of(),
                    ));
                }
            },
        }
    }
    let ghost ptoks = tokens@;
    let mut statements = Parser::new(tokens);
    let mut out: Vec<Result<Statement, ConfigurationError>> = Vec::new();
    let ghost mut its: Seq<super::parser::DItem> = Seq::empty();
    proof {
        assert(super::parser::ditems_match(out@, its));
        assert(its + super::parser::sp_draft_all(ptoks, super::parser::dstate_initial(), 0)
            =~= super::parser::sp_draft_all(ptoks, super::parser::dstate_initial(), 0));
    }
    loop
        invariant_except_break
            statements.wf(),
            statements.toks() == ptoks,
            0 <= statements.at() <= ptoks.len(),
            super::parser::ditems_match(out@, its),
            super::parser::sp_draft_all(ptoks, super::parser::dstate_initial(), 0) == its
                + super::parser::sp_draft_all(ptoks, statements.state_of(), statements.at()),
        ensures
            super::parser::ditems_match(out@, its),
            super::parser::sp_draft_all(ptoks, super::parser::dstate_initial(), 0) == its,
        decreases statements.toks().len() - statements.at(),
    {
        let ghost st_b = statements.state_of();
        let ghost i_b = statements.at();
        let ghost its_b = its;
        let ghost outs_b = out@;
        match statements.next() {
            None => {
                proof {
                    assert(super::parser::sp_draft_all(ptoks, st_b, i_b) =~= Seq::<
                        super::parser::DItem,
                    >::empty());
                    assert(its + super::parser::sp_draft_all(ptoks, st_b, i_b) =~= its);
                }
                break;
            },
            Some(item) => {
                let ghost it: super::parser::DItem;
                proof {
                    match super::parser::sp_draft_next(ptoks, st_b, i_b) {
                        super::parser::DOut::Stmt(sv, i2, st2) => {
                            it = super::parser::DItem::Good(sv);
                        },
                        super::parser::DOut::Fail(e2, i2, st2) => {
                            it = super::parser::DItem::Bad(e2);
                        },
                        super::parser::DOut::FailTok(p2, w2, i2, st2) => {
                            it = super::parser::DItem::BadTok(p2, w2);
                        },
                        super::parser::DOut::End(i2, st2) => {
                            it = super::parser::DItem::Good(Statement::EmptyLine);
                        },
                    }
                    assert(super::parser::sp_draft_all(ptoks, st_b, i_b) == seq![it]
                        + super::parser::sp_draft_all(
                        ptoks,
                        statements.state_of(),
                        statements.at(),
                    ));
                    its = its.push(it);
                }
                out.push(item);
                proof {
                    assert(out@.drop_last() =~= outs_b);
                    assert(its.drop_last() =~= its_b);
                    assert(super::parser::ditems_match(out@, its)) by {
                        assert(forall|k: int|
                            0 <= k < outs_b.len() ==> out@[k] == outs_b[k] && its[k] == its_b[k]);
                        assert(out@[out@.len() - 1] == item);
                        assert(its[its.len() - 1] == it);
                    }
                    assert((its_b + seq![it]) + super::parser::sp_draft_all(
                        ptoks,
                        statements.state_of(),
                        statements.at(),
                    ) =~= its_b + (seq![it] + super::parser::sp_draft_all(
                        ptoks,
                        statements.state_of(),
                        statements.at(),
                    )));
                    assert(its_b + seq![it] =~= its);
                }
            },
        }
    }
    proof {
        assert(super::parser::dtoks_view(ptoks) == super::lexer::sp_dlex(
            src,
            0,
            super::lexer::State::Initial,
            None,
        ));
    }
    out
}

} // verus!
