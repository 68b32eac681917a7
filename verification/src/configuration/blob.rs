//! Blob side of the recursive-descent parser: primary values,
//! concatenations, compositions and parenthesized sub-blobs.  Each function
//! is proved to return exactly what the ghost grammar says.

use super::error::ConfigurationError;
use super::grammar::blob_view;
use super::grammar::blobs_view;
use super::grammar::bump;
use super::grammar::chk;
use super::grammar::entries_view;
use super::grammar::err_view;
use super::grammar::lemma_blobs_view_snoc;
use super::grammar::lemma_entries_view_snoc;
use super::grammar::sp_blob;
use super::grammar::sp_compose;
use super::grammar::sp_compose_items;
use super::grammar::sp_concat;
use super::grammar::sp_concat_items;
use super::grammar::sp_next_expected;
use super::grammar::sp_paren;
use super::grammar::sp_peek_cur;
use super::grammar::BlobV;
use super::grammar::Cur;
use super::grammar::Step;
use super::lexer::Word;
use super::lexer::WordV;
use super::parser::is_simple_primary;
use super::parser::lemma_skip_nc;
use super::parser::lookup;
use super::parser::next_is_pipe;
use super::parser::skip_nc;
use super::parser::unexpected_token;
use super::parser::Lookup;
use super::parser::Parser;
use super::statement::Blob;
use super::statement::BlobValue;
use super::statement::Name;
use super::Position;
use vstd::prelude::*;

verus! {

impl Parser {
    /// Parse one blob: a primary value, then its generator pipe chain.  The
    /// result is exactly what the ghost grammar assigns to the stream.
    pub fn parse_blob(&mut self) -> (r: Result<Blob, ConfigurationError>)
        requires
            old(self).wf(),
        ensures
            final(self).wf(),
            final(self).toks() == old(self).toks(),
            old(self).at() <= final(self).at() <= old(self).toks().len(),
            final(self).term() is Some ==> old(self).term() is Some,
            r is Ok ==> final(self).at() > old(self).at(),
            ({
                let step = sp_blob(old(self).toks(), old(self).cur());
                match r {
                    Ok(b) => step == Step::<BlobV>::Parsed(blob_view(b), final(self).cur()),
                    Err(e) => step == Step::<BlobV>::Failed(err_view(e), final(self).cur()),
                }
            }),
            match lookup(old(self).toks(), old(self).at()) {
                Lookup::Found(p, w, j) => is_simple_primary(w) && !next_is_pipe(
                    old(self).toks(),
                    j,
                ) ==> (r matches Ok(b) && b.pipes@.len() == 0),
                _ => true,
            },
        decreases old(self).toks().len() - old(self).at(), 0int,
    {
        let ghost toks0 = old(self).toks();
        let ghost cur0 = old(self).cur();
        let ghost len = old(self).toks().len() as int;
        proof {
            old(self).lemma_wf_bounds();
            lemma_skip_nc(toks0, cur0.i);
        }
        let (position, word) = match self.next_expected() {
            Ok(t) => t,
            Err(e) => return Err(e),
        };
        let ghost cur1 = self.cur();
        proof {
            assert(bump(cur0.i, cur1, len) == cur1);
        }
        let value = match word {
            Word::SimpleString(v) => BlobValue::Name(Name::Variable(v)),
            Word::QuotedString(f) => BlobValue::Name(Name::Source(f)),
            Word::DollardString(s) => BlobValue::Literal(s),
            Word::SystemRun => BlobValue::Name(Name::SystemRun),
            Word::SystemTest => BlobValue::Name(Name::SystemTest),
            Word::SystemPackage => BlobValue::Name(Name::SystemPackage),
            Word::DirectoryConcatOpen => match self.parse_concatenation() {
                Ok(v) => v,
                Err(e) => return Err(e),
            },
            Word::DirectoryComposeOpen => match self.parse_composition() {
                Ok(v) => v,
                Err(e) => return Err(e),
            },
            w => {
                return Err(unexpected_token(position, &w, "blob"));
            },
        };
        let ghost cur2 = self.cur();
        proof {
            assert(bump(cur0.i, cur2, len) == cur2);
        }
        let pipes = match self.parse_generator_chain() {
            Ok(p) => p,
            Err(e) => return Err(e),
        };
        Ok(Blob { value, position, pipes })
    }

    /// Parse a composition after its opening brace: quoted keys, colons and
    /// blobs, comma separated, with a trailing comma tolerated before the
    /// closing brace, which is consumed.  The entries are exactly what the
    /// ghost grammar assigns to the stream, in source order, duplicate keys
    /// kept.
    #[verifier::rlimit(60)]
    pub fn parse_composition(&mut self) -> (r: Result<BlobValue, ConfigurationError>)
        requires
            old(self).wf(),
        ensures
            final(self).wf(),
            final(self).toks() == old(self).toks(),
            old(self).at() <= final(self).at() <= old(self).toks().len(),
            final(self).term() is Some ==> old(self).term() is Some,
            r matches Ok(v) ==> v is Composition,
            ({
                let step = sp_compose(old(self).toks(), old(self).cur());
                match r {
                    Ok(v) => v matches BlobValue::Composition(items) && step == Step::<
                        Seq<(Position, Seq<char>, BlobV)>,
                    >::Parsed(entries_view(items@), final(self).cur()),
                    Err(e) => step == Step::<Seq<(Position, Seq<char>, BlobV)>>::Failed(
                        err_view(e),
                        final(self).cur(),
                    ),
                }
            }),
        decreases old(self).toks().len() - old(self).at(), 5int,
    {
        let ghost toks0 = old(self).toks();
        let ghost cur0 = old(self).cur();
        let ghost len = old(self).toks().len() as int;
        proof {
            old(self).lemma_wf_bounds();
            lemma_skip_nc(toks0, cur0.i);
        }
        let empty = match self.peek() {
            Some(Word::DirectoryComposeClose) => true,
            _ => false,
        };
        let ghost curp = self.cur();
        proof {
            assert(sp_peek_cur(toks0, cur0) == curp);
        }
        if empty {
            match self.next_expected() {
                Ok(_) => {},
                Err(e) => return Err(e),
            };
            proof {
                assert(entries_view(Seq::<(Position, String, Blob)>::empty()) =~= Seq::<
                    (Position, Seq<char>, BlobV),
                >::empty());
            }
            return Ok(BlobValue::Composition(Vec::new()));
        }
        let mut values: Vec<(Position, String, Blob)> = Vec::new();
        proof {
            assert(entries_view(values@) =~= Seq::<(Position, Seq<char>, BlobV)>::empty());
            assert(sp_compose(toks0, cur0) == sp_compose_items(toks0, curp));
            if let Step::Parsed(rest, ce2) = sp_compose_items(toks0, curp) {
                assert(entries_view(values@) + rest =~= rest);
            }
        }
        loop
            invariant_except_break
                self.wf(),
                toks0 == old(self).toks(),
                self.toks() == toks0,
                len == toks0.len(),
                cur0 == old(self).cur(),
                0 <= cur0.i <= self.at() <= len,
                self.term() is Some ==> old(self).term() is Some,
                match sp_compose(toks0, cur0) {
                    Step::Parsed(all, cend) => sp_compose_items(toks0, self.cur()) matches
                        Step::Parsed(rest, ce2) && all == entries_view(values@) + rest && cend
                        == ce2,
                    Step::Failed(e, cend) => sp_compose_items(toks0, self.cur()) matches
                        Step::Failed(e2, ce2) && e == e2 && cend == ce2,
                },
            ensures
                self.wf(),
                self.toks() == toks0,
                self.term() is Some ==> old(self).term() is Some,
                cur0.i <= self.at() <= len,
                sp_compose(toks0, cur0) == Step::<Seq<(Position, Seq<char>, BlobV)>>::Parsed(
                    entries_view(values@),
                    self.cur(),
                ),
            decreases len - self.at(),
        {
            let ghost cur_a = self.cur();
            let ghost vals_a = values@;
            proof {
                lemma_skip_nc(toks0, cur_a.i);
            }
            let (position, name) = match self.next_expected() {
                Ok((p, Word::QuotedString(n))) => (p, n),
                Ok((p, w)) => return Err(unexpected_token(p, &w, "composition.name")),
                Err(e) => return Err(e),
            };
            let ghost cur_b = self.cur();
            proof {
                assert(chk(cur_b, len) == cur_b);
                lemma_skip_nc(toks0, cur_b.i);
            }
            match self.next_expected() {
                Ok((_, Word::Colon)) => {},
                Ok((p, w)) => return Err(unexpected_token(p, &w, "composition.collon")),
                Err(e) => return Err(e),
            };
            let ghost cur_c = self.cur();
            proof {
                assert(super::grammar::ge(cur_a.i, cur_c, len) == cur_c);
            }
            let blob = match self.parse_blob() {
                Ok(b) => b,
                Err(e) => return Err(e),
            };
            let ghost cur_d = self.cur();
            proof {
                assert(chk(cur_d, len) == cur_d);
                lemma_skip_nc(toks0, cur_d.i);
            }
            let ghost entry = (position, name@, blob_view(blob));
            values.push((position, name, blob));
            proof {
                assert(values@.drop_last() =~= vals_a);
                lemma_entries_view_snoc(vals_a, values@.last());
                assert(vals_a.push(values@.last()) =~= values@);
                assert(entries_view(values@) == entries_view(vals_a) + seq![entry]);
            }
            let (p, next) = match self.next_expected() {
                Ok(t) => t,
                Err(e) => return Err(e),
            };
            match next {
                Word::DirectoryComposeClose => {
                    proof {
                        assert(sp_compose_items(toks0, cur_a) == Step::<
                            Seq<(Position, Seq<char>, BlobV)>,
                        >::Parsed(seq![entry], self.cur()));
                        if let Step::Parsed(all, cend) = sp_compose(toks0, cur0) {
                            assert(all == entries_view(vals_a) + seq![entry]);
                            assert(all =~= entries_view(values@));
                        }
                    }
                    break;
                },
                Word::Comma => {
                    let ghost cur_e = self.cur();
                    proof {
                        lemma_skip_nc(toks0, cur_e.i);
                    }
                    let close = match self.peek() {
                        Some(Word::DirectoryComposeClose) => true,
                        _ => false,
                    };
                    let ghost cur_f = self.cur();
                    proof {
                        assert(sp_peek_cur(toks0, cur_e) == cur_f);
                    }
                    if close {
                        match self.next_expected() {
                            Ok(_) => {},
                            Err(e) => return Err(e),
                        };
                        proof {
                            assert(sp_compose_items(toks0, cur_a) == Step::<
                                Seq<(Position, Seq<char>, BlobV)>,
                            >::Parsed(seq![entry], self.cur()));
                            if let Step::Parsed(all, cend) = sp_compose(toks0, cur0) {
                                assert(all == entries_view(vals_a) + seq![entry]);
                                assert(all =~= entries_view(values@));
                            }
                        }
                        break;
                    }
                    proof {
                        if cur_f.i < len {
                            assert(bump(cur_a.i, cur_f, len) == cur_f);
                        } else {
                            assert(sp_compose_items(toks0, cur_a) == sp_compose_items(
                                toks0,
                                cur_f,
                            ));
                        }
                        if let Step::Parsed(all, cend) = sp_compose(toks0, cur0) {
                            if let Step::Parsed(rest2, ce) = sp_compose_items(toks0, cur_f) {
                                assert((entries_view(vals_a) + seq![entry]) + rest2
                                    =~= entries_view(vals_a) + (seq![entry] + rest2));
                            }
                        }
                    }
                },
                w => return Err(unexpected_token(p, &w, "composition.end_item")),
            }
        }
        Ok(BlobValue::Composition(values))
    }

    /// Parse a concatenation after its opening bracket: blobs, comma
    /// separated, with a trailing comma tolerated before the closing
    /// bracket, which is consumed.  The elements are exactly what the ghost
    /// grammar assigns to the stream, in source order.
    #[verifier::rlimit(60)]
    pub fn parse_concatenation(&mut self) -> (r: Result<BlobValue, ConfigurationError>)
        requires
            old(self).wf(),
        ensures
            final(self).wf(),
            final(self).toks() == old(self).toks(),
            old(self).at() <= final(self).at() <= old(self).toks().len(),
            final(self).term() is Some ==> old(self).term() is Some,
            r matches Ok(v) ==> v is Concatenation,
            ({
                let step = sp_concat(old(self).toks(), old(self).cur());
                match r {
                    Ok(v) => v matches BlobValue::Concatenation(items) && step == Step::<
                        Seq<BlobV>,
                    >::Parsed(blobs_view(items@), final(self).cur()),
                    Err(e) => step == Step::<Seq<BlobV>>::Failed(err_view(e), final(self).cur()),
                }
            }),
        decreases old(self).toks().len() - old(self).at(), 5int,
    {
        let ghost toks0 = old(self).toks();
        let ghost cur0 = old(self).cur();
        let ghost len = old(self).toks().len() as int;
        proof {
            old(self).lemma_wf_bounds();
            lemma_skip_nc(toks0, cur0.i);
        }
        let empty = match self.peek() {
            Some(Word::DirectoryConcatClose) => true,
            _ => false,
        };
        let ghost curp = self.cur();
        proof {
            assert(sp_peek_cur(toks0, cur0) == curp);
        }
        if empty {
            match self.next_expected() {
                Ok(_) => {},
                Err(e) => return Err(e),
            };
            proof {
                assert(blobs_view(Seq::<Blob>::empty()) =~= Seq::<BlobV>::empty());
            }
            return Ok(BlobValue::Concatenation(Vec::new()));
        }
        let mut values: Vec<Blob> = Vec::new();
        proof {
            assert(blobs_view(values@) =~= Seq::<BlobV>::empty());
            assert(sp_concat(toks0, cur0) == sp_concat_items(toks0, curp));
            if let Step::Parsed(rest, ce2) = sp_concat_items(toks0, curp) {
                assert(blobs_view(values@) + rest =~= rest);
            }
        }
        loop
            invariant_except_break
                self.wf(),
                toks0 == old(self).toks(),
                self.toks() == toks0,
                len == toks0.len(),
                cur0 == old(self).cur(),
                0 <= cur0.i <= self.at() <= len,
                self.term() is Some ==> old(self).term() is Some,
                match sp_concat(toks0, cur0) {
                    Step::Parsed(all, cend) => sp_concat_items(toks0, self.cur()) matches
                        Step::Parsed(rest, ce2) && all == blobs_view(values@) + rest && cend
                        == ce2,
                    Step::Failed(e, cend) => sp_concat_items(toks0, self.cur()) matches
                        Step::Failed(e2, ce2) && e == e2 && cend == ce2,
                },
            ensures
                self.wf(),
                self.toks() == toks0,
                self.term() is Some ==> old(self).term() is Some,
                cur0.i <= self.at() <= len,
                sp_concat(toks0, cur0) == Step::<Seq<BlobV>>::Parsed(
                    blobs_view(values@),
                    self.cur(),
                ),
            decreases len - self.at(),
        {
            let ghost cur_a = self.cur();
            let ghost vals_a = values@;
            let ghost entry: BlobV;
            match self.parse_blob() {
                Ok(b) => {
                    proof {
                        entry = blob_view(b);
                    }
                    values.push(b);
                    proof {
                        assert(values@.drop_last() =~= vals_a);
                        lemma_blobs_view_snoc(vals_a, values@.last());
                        assert(vals_a.push(values@.last()) =~= values@);
                        assert(blobs_view(values@) == blobs_view(vals_a) + seq![entry]);
                    }
                },
                Err(e) => return Err(e),
            };
            let ghost cur_b = self.cur();
            proof {
                assert(chk(cur_b, len) == cur_b);
                lemma_skip_nc(toks0, cur_b.i);
            }
            let (p, w) = match self.next_expected() {
                Ok(t) => t,
                Err(e) => return Err(e),
            };
            match w {
                Word::DirectoryConcatClose => {
                    proof {
                        assert(sp_concat_items(toks0, cur_a) == Step::<Seq<BlobV>>::Parsed(
                            seq![entry],
                            self.cur(),
                        ));
                        if let Step::Parsed(all, cend) = sp_concat(toks0, cur0) {
                            assert(all == blobs_view(vals_a) + seq![entry]);
                            assert(all =~= blobs_view(values@));
                        }
                    }
                    break;
                },
                Word::Comma => {
                    let ghost cur_e = self.cur();
                    proof {
                        lemma_skip_nc(toks0, cur_e.i);
                    }
                    let close = match self.peek() {
                        Some(Word::DirectoryConcatClose) => true,
                        _ => false,
                    };
                    let ghost cur_f = self.cur();
                    proof {
                        assert(sp_peek_cur(toks0, cur_e) == cur_f);
                    }
                    if close {
                        match self.next_expected() {
                            Ok(_) => {},
                            Err(e) => return Err(e),
                        };
                        proof {
                            assert(sp_concat_items(toks0, cur_a) == Step::<Seq<BlobV>>::Parsed(
                                seq![entry],
                                self.cur(),
                            ));
                            if let Step::Parsed(all, cend) = sp_concat(toks0, cur0) {
                                assert(all == blobs_view(vals_a) + seq![entry]);
                                assert(all =~= blobs_view(values@));
                            }
                        }
                        break;
                    }
                    proof {
                        if cur_f.i < len {
                            assert(bump(cur_a.i, cur_f, len) == cur_f);
                        } else {
                            if let Step::Failed(e4, c4) = sp_next_expected(toks0, cur_f) {
                                assert(sp_blob(toks0, cur_f) == Step::<BlobV>::Failed(e4, c4));
                                assert(sp_concat_items(toks0, cur_f) == Step::<
                                    Seq<BlobV>,
                                >::Failed(e4, c4));
                                assert(sp_concat_items(toks0, cur_a) == Step::<
                                    Seq<BlobV>,
                                >::Failed(e4, c4));
                            } else {
                                assert(lookup(toks0, cur_f.i) is EndErr);
                            }
                        }
                        if let Step::Parsed(all, cend) = sp_concat(toks0, cur0) {
                            if let Step::Parsed(rest2, ce) = sp_concat_items(toks0, cur_f) {
                                assert((blobs_view(vals_a) + seq![entry]) + rest2
                                    =~= blobs_view(vals_a) + (seq![entry] + rest2));
                            }
                        }
                    }
                },
                w => return Err(unexpected_token(p, &w, "concatenation.next_item")),
            }
        }
        Ok(BlobValue::Concatenation(values))
    }

    /// Parse a parenthesized blob after its opening parenthesis; the closing
    /// parenthesis is mandatory and consumed.  The result is exactly the
    /// blob the ghost grammar assigns to the stream.
    pub fn parse_parenthesis(&mut self) -> (r: Result<Blob, ConfigurationError>)
        requires
            old(self).wf(),
        ensures
            final(self).wf(),
            final(self).toks() == old(self).toks(),
            old(self).at() <= final(self).at() <= old(self).toks().len(),
            final(self).term() is Some ==> old(self).term() is Some,
            r is Ok ==> final(self).at() > old(self).at(),
            ({
                let step = sp_paren(old(self).toks(), old(self).cur());
                match r {
                    Ok(b) => step == Step::<BlobV>::Parsed(blob_view(b), final(self).cur()),
                    Err(e) => step == Step::<BlobV>::Failed(err_view(e), final(self).cur()),
                }
            }),
        decreases old(self).toks().len() - old(self).at(), 1int,
    {
        let ghost toks0 = old(self).toks();
        let ghost cur0 = old(self).cur();
        let ghost len = old(self).toks().len() as int;
        proof {
            old(self).lemma_wf_bounds();
        }
        let b = match self.parse_blob() {
            Ok(b) => b,
            Err(e) => return Err(e),
        };
        let ghost cur1 = self.cur();
        proof {
            assert(chk(cur1, len) == cur1);
        }
        let (p, w) = match self.next_expected() {
            Ok(t) => t,
            Err(e) => return Err(e),
        };
        match w {
            Word::ParenthesisClose => Ok(b),
            w => Err(unexpected_token(p, &w, "parenthesis.close")),
        }
    }
}

} // verus!
