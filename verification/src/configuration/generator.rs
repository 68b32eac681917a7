//! Generator side of the recursive-descent parser: pipe chains, default
//! generator aliases, generator cores and their arguments.  Each function
//! is proved to return exactly what the ghost grammar says.

use super::error::ConfigurationError;
use super::grammar::args_view;
use super::grammar::blob_value_view;
use super::grammar::bump;
use super::grammar::chk;
use super::grammar::err_view;
use super::grammar::ge;
use super::grammar::gen_view;
use super::grammar::gens_view;
use super::grammar::lemma_args_view_push;
use super::grammar::lemma_gens_view_snoc;
use super::grammar::sp_args;
use super::grammar::sp_chain;
use super::grammar::sp_core;
use super::grammar::sp_name;
use super::grammar::sp_peek_cur;
use super::grammar::sp_value;
use super::grammar::BlobValueV;
use super::grammar::Cur;
use super::grammar::GeneratorV;
use super::grammar::Step;
use super::lexer::Word;
use super::lexer::WordV;
use super::parser::lemma_skip_nc;
use super::parser::skip_nc;
use super::parser::unexpected_token;
use super::parser::Parser;
use super::statement::BlobValue;
use super::statement::Generator;
use super::statement::Name;
use super::statement::Statement;
use super::Position;
use vstd::prelude::*;

verus! {

impl Parser {
    /// Parse the name and the chain of a generator statement; the `gen`
    /// keyword at `position` is already consumed.  The name and every stage
    /// are exactly what the ghost grammar assigns to the stream.
    pub fn parse_generator_statement(&mut self, position: Position) -> (r: Result<
        Statement,
        ConfigurationError,
    >)
        requires
            old(self).wf(),
        ensures
            final(self).wf(),
            final(self).toks() == old(self).toks(),
            old(self).at() <= final(self).at() <= old(self).toks().len(),
            final(self).term() is Some ==> old(self).term() is Some,
            ({
                let s1 = sp_name(old(self).toks(), old(self).cur());
                match r {
                    Ok(st) => st matches Statement::Generator(pp, nm, ch) && pp == position && (s1
                        matches Step::Parsed(nv, c2) && nv == nm@ && sp_chain(
                        old(self).toks(),
                        c2,
                    ) == Step::<Seq<GeneratorV>>::Parsed(gens_view(ch@), final(self).cur())),
                    Err(e) => match s1 {
                        Step::Failed(ev, c2) => ev == err_view(e) && final(self).cur() == c2,
                        Step::Parsed(nv, c2) => sp_chain(old(self).toks(), c2) == Step::<
                            Seq<GeneratorV>,
                        >::Failed(err_view(e), final(self).cur()),
                    },
                }
            }),
    {
        proof {
            old(self).lemma_wf_bounds();
        }
        let name = match self.get_statment_name() {
            Ok(n) => n,
            Err(e) => return Err(e),
        };
        match self.parse_generator_chain() {
            Ok(chain) => Ok(Statement::Generator(position, name, chain)),
            Err(e) => Err(e),
        }
    }

    /// Parse a generator chain: one stage per pipe operator, in source
    /// order, ending before the first significant token that is not a pipe
    /// operator.  The stages are exactly what the ghost grammar assigns to
    /// the stream.
    pub fn parse_generator_chain(&mut self) -> (r: Result<Vec<Generator>, ConfigurationError>)
        requires
            old(self).wf(),
        ensures
            final(self).wf(),
            final(self).toks() == old(self).toks(),
            old(self).at() <= final(self).at() <= old(self).toks().len(),
            final(self).term() is Some ==> old(self).term() is Some,
            ({
                let step = sp_chain(old(self).toks(), old(self).cur());
                match r {
                    Ok(ch) => step == Step::<Seq<GeneratorV>>::Parsed(
                        gens_view(ch@),
                        final(self).cur(),
                    ),
                    Err(e) => step == Step::<Seq<GeneratorV>>::Failed(
                        err_view(e),
                        final(self).cur(),
                    ),
                }
            }),
        decreases old(self).toks().len() - old(self).at(), 4int,
    {
        let ghost toks0 = old(self).toks();
        let ghost cur0 = old(self).cur();
        let ghost len = old(self).toks().len() as int;
        proof {
            old(self).lemma_wf_bounds();
            lemma_skip_nc(toks0, cur0.i);
        }
        let mut chain: Vec<Generator> = Vec::new();
        proof {
            assert(gens_view(chain@) =~= Seq::<GeneratorV>::empty());
        }
        loop
            invariant_except_break
                self.wf(),
                toks0 == old(self).toks(),
                self.toks() == toks0,
                len == toks0.len(),
                cur0 == old(self).cur(),
                0 <= cur0.i <= self.at() <= len,
                self.term() is Some ==> old(self).term() is Some,
                match sp_chain(toks0, cur0) {
                    Step::Parsed(all, cend) => sp_chain(toks0, self.cur()) matches Step::Parsed(
                        rest,
                        ce2,
                    ) && all == gens_view(chain@) + rest && cend == ce2,
                    Step::Failed(e, cend) => sp_chain(toks0, self.cur()) matches Step::Failed(
                        e2,
                        ce2,
                    ) && e == e2 && cend == ce2,
                },
            ensures
                self.wf(),
                self.toks() == toks0,
                self.term() is Some ==> old(self).term() is Some,
                cur0.i <= self.at() <= len,
                sp_chain(toks0, cur0) == Step::<Seq<GeneratorV>>::Parsed(
                    gens_view(chain@),
                    self.cur(),
                ),
            decreases len - self.at(),
        {
            let ghost cur_a = self.cur();
            let ghost chain_a = chain@;
            proof {
                lemma_skip_nc(toks0, cur_a.i);
            }
            let is_pipe = match self.peek() {
                Some(Word::PipeFile) => true,
                Some(Word::PipeDirectory) => true,
                _ => false,
            };
            let ghost jc = self.cur();
            proof {
                assert(sp_peek_cur(toks0, cur_a) == jc);
            }
            if !is_pipe {
                proof {
                    assert(sp_chain(toks0, cur_a) == Step::<Seq<GeneratorV>>::Parsed(
                        Seq::empty(),
                        jc,
                    ));
                    if let Step::Parsed(all, cend) = sp_chain(toks0, cur0) {
                        assert(all =~= gens_view(chain@) + Seq::<GeneratorV>::empty());
                        assert(all =~= gens_view(chain@));
                    }
                }
                break;
            }
            match self.parse_generator_value() {
                Ok(g) => {
                    let ghost gv = gen_view(g);
                    proof {
                        assert(bump(cur_a.i, self.cur(), len) == self.cur());
                    }
                    chain.push(g);
                    proof {
                        assert(chain@.drop_last() =~= chain_a);
                        lemma_gens_view_snoc(chain_a, chain@.last());
                        assert(chain_a.push(chain@.last()) =~= chain@);
                        assert(gens_view(chain@) == gens_view(chain_a) + seq![gv]);
                        if let Step::Parsed(all, cend) = sp_chain(toks0, cur0) {
                            if let Step::Parsed(rest2, ce) = sp_chain(toks0, self.cur()) {
                                assert((gens_view(chain_a) + seq![gv]) + rest2
                                    =~= gens_view(chain_a) + (seq![gv] + rest2));
                            }
                        }
                    }
                },
                Err(e) => return Err(e),
            };
        }
        Ok(chain)
    }

    /// Parse one generator pipe stage: the pipe operator, an optional
    /// default generator alias bound by `??`, the generator core, and its
    /// trailing arguments.  The stage is exactly what the ghost grammar
    /// assigns to the stream.
    #[verifier::rlimit(60)]
    pub fn parse_generator_value(&mut self) -> (r: Result<Generator, ConfigurationError>)
        requires
            old(self).wf(),
        ensures
            final(self).wf(),
            final(self).toks() == old(self).toks(),
            old(self).at() <= final(self).at() <= old(self).toks().len(),
            final(self).term() is Some ==> old(self).term() is Some,
            r is Ok ==> final(self).at() > old(self).at(),
            ({
                let step = sp_value(old(self).toks(), old(self).cur());
                match r {
                    Ok(g) => step == Step::<GeneratorV>::Parsed(gen_view(g), final(self).cur()),
                    Err(e) => step == Step::<GeneratorV>::Failed(err_view(e), final(self).cur()),
                }
            }),
        decreases old(self).toks().len() - old(self).at(), 3int,
    {
        let ghost toks0 = old(self).toks();
        let ghost cur0 = old(self).cur();
        let ghost len = old(self).toks().len() as int;
        proof {
            old(self).lemma_wf_bounds();
            lemma_skip_nc(toks0, cur0.i);
        }
        let (begin_position, input_is_dir) = match self.next_expected() {
            Ok((p, w)) => match w {
                Word::PipeDirectory => (p, true),
                Word::PipeFile => (p, false),
                w => return Err(unexpected_token(p, &w, "generator pipe")),
            },
            Err(e) => return Err(e),
        };
        let ghost cur1 = self.cur();
        proof {
            lemma_skip_nc(toks0, cur1.i);
        }
        let first = match self.next_expected() {
            Ok(t) => t,
            Err(e) => return Err(e),
        };
        let ghost cur2 = self.cur();
        proof {
            lemma_skip_nc(toks0, cur2.i);
        }
        let has_default = match self.peek() {
            Some(Word::DefaultGenerator) => true,
            _ => false,
        };
        let ghost jc = self.cur();
        proof {
            assert(sp_peek_cur(toks0, cur2) == jc);
        }
        let (core, name) = if has_default {
            let name = match first.1 {
                Word::QuotedString(s) => s,
                Word::DollardString(s) => s,
                w => return Err(unexpected_token(first.0, &w, "generator name")),
            };
            proof {
                assert(ge(cur0.i, jc, len) == jc);
            }
            match self.next_expected() {
                Ok(_) => {},
                Err(e) => return Err(e),
            };
            let ghost cur3 = self.cur();
            proof {
                assert(chk(cur3, len) == cur3);
                lemma_skip_nc(toks0, cur3.i);
            }
            let core = match self.next_expected() {
                Ok(t) => t,
                Err(e) => return Err(e),
            };
            proof {
                assert(ge(jc.i, self.cur(), len) == self.cur());
            }
            (core, Some(name))
        } else {
            proof {
                assert(ge(cur0.i, jc, len) == jc);
            }
            (first, None)
        };
        let ghost cur_core = self.cur();
        let ghost core_v = (core.0, core.1@);
        let generator = match self.parse_generator_core(core) {
            Ok(v) => v,
            Err(e) => return Err(e),
        };
        let ghost cur4 = self.cur();
        proof {
            assert(ge(cur_core.i, cur4, len) == cur4);
            lemma_skip_nc(toks0, cur4.i);
        }
        let mut args: Vec<(Position, String)> = Vec::new();
        proof {
            assert(args_view(args@) =~= Seq::<(Position, Seq<char>)>::empty());
        }
        loop
            invariant_except_break
                self.wf(),
                toks0 == old(self).toks(),
                self.toks() == toks0,
                len == toks0.len(),
                0 <= cur4.i <= self.at() <= len,
                self.term() is Some ==> old(self).term() is Some,
                sp_args(toks0, cur4).0 == args_view(args@) + sp_args(toks0, self.cur()).0,
                sp_args(toks0, cur4).1 == sp_args(toks0, self.cur()).1,
            ensures
                self.wf(),
                self.toks() == toks0,
                self.term() is Some ==> old(self).term() is Some,
                cur4.i <= self.at() <= len,
                sp_args(toks0, cur4) == (args_view(args@), self.cur()),
            decreases len - self.at(),
        {
            let ghost cur_b = self.cur();
            proof {
                lemma_skip_nc(toks0, cur_b.i);
            }
            let is_arg = match self.peek() {
                Some(Word::QuotedString(_)) => true,
                Some(Word::SimpleString(_)) => true,
                _ => false,
            };
            let ghost jb = self.cur();
            proof {
                assert(sp_peek_cur(toks0, cur_b) == jb);
            }
            if !is_arg {
                proof {
                    assert(sp_args(toks0, cur_b) == (Seq::<(Position, Seq<char>)>::empty(), jb));
                    assert(args_view(args@) + Seq::<(Position, Seq<char>)>::empty()
                        =~= args_view(args@));
                }
                break;
            }
            match self.next_expected() {
                Ok((p, Word::QuotedString(s))) => {
                    proof {
                        assert(bump(cur_b.i, Cur { i: jb.i + 1, term: jb.term }, len) == self.cur());
                    }
                    args.push((p, s));
                    proof {
                        lemma_args_view_push(args@.drop_last(), args@.last());
                        assert(args@.drop_last().push(args@.last()) =~= args@);
                        assert(args_view(args@.drop_last()).push(
                            (args@.last().0, args@.last().1@),
                        ) =~= args_view(args@));
                    }
                },
                Ok((p, Word::SimpleString(s))) => {
                    proof {
                        assert(bump(cur_b.i, Cur { i: jb.i + 1, term: jb.term }, len) == self.cur());
                    }
                    args.push((p, s));
                    proof {
                        lemma_args_view_push(args@.drop_last(), args@.last());
                        assert(args@.drop_last().push(args@.last()) =~= args@);
                        assert(args_view(args@.drop_last()).push(
                            (args@.last().0, args@.last().1@),
                        ) =~= args_view(args@));
                    }
                },
                Ok((p, w)) => return Err(unexpected_token(p, &w, "generator args")),
                Err(e) => return Err(e),
            };
        }
        Ok(Generator { position: begin_position, input_is_dir, name, generator, args })
    }

    /// Classify the generator core value from the token already read:
    /// a variable, a source path, an URL, or a parenthesized sub-blob whose
    /// value becomes the generator's value.  The value is exactly what the
    /// ghost grammar assigns.
    pub fn parse_generator_core(&mut self, core: (Position, Word)) -> (r: Result<
        BlobValue,
        ConfigurationError,
    >)
        requires
            old(self).wf(),
        ensures
            final(self).wf(),
            final(self).toks() == old(self).toks(),
            old(self).at() <= final(self).at() <= old(self).toks().len(),
            final(self).term() is Some ==> old(self).term() is Some,
            ({
                let step = sp_core(old(self).toks(), (core.0, core.1@), old(self).cur());
                match r {
                    Ok(v) => step == Step::<BlobValueV>::Parsed(
                        blob_value_view(v),
                        final(self).cur(),
                    ),
                    Err(e) => step == Step::<BlobValueV>::Failed(err_view(e), final(self).cur()),
                }
            }),
        decreases old(self).toks().len() - old(self).at(), 2int,
    {
        proof {
            old(self).lemma_wf_bounds();
        }
        match core.1 {
            Word::SimpleString(v) => Ok(BlobValue::Name(Name::Variable(v))),
            Word::QuotedString(f) => Ok(BlobValue::Name(Name::Source(f))),
            Word::DollardString(u) => Ok(BlobValue::Name(Name::Url(u))),
            Word::ParenthesisOpen => match self.parse_parenthesis() {
                Ok(b) => Ok(b.value),
                Err(e) => Err(e),
            },
            w => Err(unexpected_token(core.0, &w, "generator value")),
        }
    }
}

} // verus!
