use super::{
    expected_message, extend, lemma_moved_taken, lemma_taken_sum, lemma_then_after_nothing,
    lemma_then_assoc, moved, option_below, params_view, Node, NodeIndex, NodeView, Parser,
};
use crate::grammar;
use crate::grammar::{kind_at, token_at};
use crate::step::{node, said, taken, then};
use crate::token::{Token, TT};
use vstd::prelude::*;

verus! {

broadcast use crate::step::lemma_then_parts;

impl<'a> Parser<'a> {
    /// Passes the token at the position if it is of the kind `kind`.
    fn optional(&mut self, kind: TT)
        requires
            old(self).wf(),
            kind != TT::Eof,
        ensures
            final(self).nodes == old(self).nodes,
            final(self).after(
                old(self),
                taken(grammar::optional(old(self).toks(), old(self).pos as nat, kind)),
            ),
    {
        self.catch(&[kind]);
    }

    /// A `:` and a type, if the token at the position is a `:`.
    fn annotation(&mut self) -> (r: Option<NodeIndex>)
        requires
            old(self).wf(),
            old(self).fits(),
        ensures
            ({
                let typed = grammar::annotation(
                    old(self).toks(),
                    old(self).pos as nat,
                    old(self).nodes@.len(),
                );
                &&& final(self).after(old(self), typed.step)
                &&& r == typed.at
                &&& typed.step.nodes.len() <= typed.step.used
                &&& option_below(r, final(self).nodes@.len())
            }),
    {
        let ghost toks = self.toks();
        let ghost pos = self.pos as nat;
        let ghost base = self.nodes@.len();
        let ghost origin = self@;
        if let Some(_) = self.catch(&[TT::Colon]) {
            let ghost now = self@;
            let at = self.type_expression();
            proof {
                let done = extend(
                    origin,
                    now,
                    self@,
                    taken(1),
                    grammar::type_expression(toks, pos + 1, base),
                );
            }
            Some(at)
        } else {
            None
        }
    }

    /// The `=>` of a function literal; if it is not there, the diagnostic
    /// is recorded.
    fn arrow(&mut self)
        requires
            old(self).wf(),
        ensures
            final(self).nodes == old(self).nodes,
            final(self).after(old(self), grammar::arrow(old(self).toks(), old(self).pos as nat)),
    {
        if let None = self.catch(&[TT::EqualGreater]) {
            let found = self.peek();
            self.fault(expected_message("'=>'", found));
        }
    }

    /// The parameters of a function literal, after its `(`, up to the `)`
    /// that ends them. Where a parameter does not start with a name, the
    /// diagnostic is recorded and the result is the placeholder added.
    fn params(&mut self) -> (r: Result<Vec<(&'a Token, Option<NodeIndex>)>, NodeIndex>)
        requires
            old(self).wf(),
            old(self).fits(),
        ensures
            ({
                let all = grammar::params(
                    old(self).toks(),
                    old(self).pos as nat,
                    old(self).nodes@.len(),
                    seq![],
                );
                &&& final(self).after(old(self), all.step)
                &&& all.step.nodes.len() <= all.step.used + 1
                &&& match r {
                    Ok(args) => {
                        &&& all.closed
                        &&& all.args == params_view(args@)
                        &&& all.step.used >= 1
                        &&& all.step.nodes.len() <= all.step.used
                        &&& forall|i: int|
                            0 <= i < args@.len() ==> option_below(
                                #[trigger] params_view(args@)[i].1,
                                final(self).nodes@.len(),
                            )
                    },
                    Err(at) => {
                        &&& !all.closed
                        &&& at == all.step.at
                        &&& at.0 + 1 == final(self).nodes@.len()
                        &&& all.step.nodes.len() >= 1
                    },
                }
            }),
    {
        reveal(grammar::params);
        let ghost toks = self.toks();
        let ghost pos = self.pos as nat;
        let ghost base = self.nodes@.len();
        let ghost origin = self@;
        let ghost whole = grammar::params(toks, pos, base, seq![]);
        let ghost mut done = taken(0);
        let mut args: Vec<(&'a Token, Option<NodeIndex>)> = Vec::new();
        proof {
            lemma_moved_taken(origin, 0);
            lemma_then_after_nothing(whole.step);
            assert(params_view(args@) =~= seq![]);
        }
        loop
            invariant_except_break
                whole.step == then(
                    done,
                    grammar::params(
                        toks,
                        pos + done.used,
                        base + done.nodes.len(),
                        params_view(args@),
                    ).step,
                ),
                whole.args == grammar::params(
                    toks,
                    pos + done.used,
                    base + done.nodes.len(),
                    params_view(args@),
                ).args,
                whole.closed == grammar::params(
                    toks,
                    pos + done.used,
                    base + done.nodes.len(),
                    params_view(args@),
                ).closed,
            invariant
                old(self).wf(),
                old(self).fits(),
                toks == old(self).toks(),
                pos == old(self).pos,
                base == old(self).nodes@.len(),
                origin == old(self)@,
                whole == grammar::params(toks, pos, base, seq![]),
                self.after(old(self), done),
                done.nodes.len() <= done.used,
                forall|i: int|
                    0 <= i < args@.len() ==> option_below(
                        #[trigger] params_view(args@)[i].1,
                        self.nodes@.len(),
                    ),
            ensures
                whole.step == done,
                whole.closed,
                whole.args == params_view(args@),
                done.used >= 1,
            decreases self.toks().len() - self.pos,
        {
            reveal(grammar::params);
            let ghost before = self@;
            let ghost first = done;
            let ghost here_pos = self.pos as nat;
            let ghost here_base = self.nodes@.len();
            let ghost seen = params_view(args@);
            if let Some(_) = self.catch(&[TT::RParen]) {
                proof {
                    done = extend(origin, before, self@, done, taken(1));
                }
                break ;
            }
            let name = match self.catch(&[TT::Identifier]) {
                Some(name) => name,
                None => {
                    let ghost msg = grammar::expected_text("identifier"@, token_at(toks, here_pos));
                    let at = self.missing("identifier");
                    proof {
                        let here = then(said(msg), node(NodeView::Error, here_base));
                        lemma_then_assoc(taken(0), said(msg), node(NodeView::Error, here_base));
                        lemma_then_after_nothing(said(msg));
                        done = extend(origin, before, self@, done, here);
                    }
                    return Err(at);
                },
            };
            let ghost mut here = taken(1);
            let ghost mut now = self@;
            let annotation = self.annotation();
            proof {
                here = extend(
                    before,
                    now,
                    self@,
                    here,
                    grammar::annotation(toks, here_pos + 1, here_base).step,
                );
                now = self@;
            }
            let ghost one = here;
            args.push((name, annotation));
            self.optional(TT::Comma);
            proof {
                here = extend(
                    before,
                    now,
                    self@,
                    here,
                    taken(grammar::optional(toks, here_pos + one.used, TT::Comma)),
                );
            }
            proof {
                assert(params_view(args@) =~= seen.push((*name, annotation)));
                let rest = grammar::params(
                    toks,
                    here_pos + here.used,
                    here_base + here.nodes.len(),
                    params_view(args@),
                );
                lemma_then_assoc(first, here, rest.step);
                done = extend(origin, before, self@, done, here);
            }
        }
        Ok(args)
    }

    /// Reads a function literal, or a conditional.
    pub(super) fn function(&mut self) -> (r: NodeIndex)
        requires
            old(self).wf(),
            old(self).fits(),
        ensures
            final(self).follows(
                old(self),
                grammar::function(old(self).toks(), old(self).pos as nat, old(self).nodes@.len()),
                r,
            ),
        decreases old(self).toks().len() - old(self).pos, 31nat,
    {
        reveal(grammar::function);
        reveal(grammar::params);
        reveal(grammar::expression);
        reveal(grammar::jump);
        let ghost toks = self.toks();
        let ghost pos = self.pos as nat;
        let ghost base = self.nodes@.len();
        let ghost origin = self@;
        if let Some(_) = self.catch(&[TT::Fn]) {
            let ghost mut done = taken(1);
            let ghost mut now = self@;
            if let None = self.catch(&[TT::LParen]) {
                let ghost at = self.nodes@.len();
                let ghost msg = grammar::expected_text("'('"@, token_at(toks, self.pos as nat));
                let r = self.missing("'('");
                proof {
                    lemma_then_assoc(done, said(msg), node(NodeView::Error, at));
                    done = extend(
                        origin,
                        now,
                        self@,
                        done,
                        then(said(msg), node(NodeView::Error, at)),
                    );
                }
                return r;
            }
            proof {
                done = extend(origin, now, self@, done, taken(1));
                now = self@;
                lemma_taken_sum(1, 1);
            }
            let ghost list = grammar::params(toks, pos + 2, base, seq![]);
            let found = self.params();
            proof {
                done = extend(origin, now, self@, done, list.step);
                now = self@;
            }
            let args = match found {
                Ok(args) => args,
                Err(at) => {
                    return at;
                },
            };
            let ghost head = done;
            let ret = self.annotation();
            proof {
                done = extend(
                    origin,
                    now,
                    self@,
                    done,
                    grammar::annotation(toks, pos + head.used, base + head.nodes.len()).step,
                );
                now = self@;
            }
            let ghost result = done;
            self.arrow();
            proof {
                done = extend(origin, now, self@, done, grammar::arrow(toks, pos + result.used));
                now = self@;
            }
            let ghost arrow = done;
            let expr = self.expression();
            proof {
                done = extend(
                    origin,
                    now,
                    self@,
                    done,
                    grammar::expression(toks, pos + arrow.used, base + arrow.nodes.len()),
                );
                now = self@;
            }
            let ghost at = self.nodes@.len();
            let ghost view = NodeView::Fn { args: params_view(args@), ret, expr };
            let r = self.add(Node::Fn { args, ret, expr });
            proof {
                done = extend(origin, now, self@, done, node(view, at));
            }
            r
        } else {
            self.jump()
        }
    }

    /// Reads an expression.
    pub(super) fn expression(&mut self) -> (r: NodeIndex)
        requires
            old(self).wf(),
            old(self).fits(),
        ensures
            final(self).follows(
                old(self),
                grammar::expression(old(self).toks(), old(self).pos as nat, old(self).nodes@.len()),
                r,
            ),
        decreases old(self).toks().len() - old(self).pos, 32nat,
    {
        reveal(grammar::expression);
        reveal(grammar::function);
        self.function()
    }

    /// Reads a binding introduced by `let` or `mut`, or an expression.
    #[verifier::rlimit(30)]
    pub(super) fn statement(&mut self) -> (r: NodeIndex)
        requires
            old(self).wf(),
            old(self).fits(),
        ensures
            final(self).follows(
                old(self),
                grammar::statement(old(self).toks(), old(self).pos as nat, old(self).nodes@.len()),
                r,
            ),
        decreases old(self).toks().len() - old(self).pos, 33nat,
    {
        reveal(grammar::statement);
        reveal(grammar::expression);
        let ghost toks = self.toks();
        let ghost pos = self.pos as nat;
        let ghost base = self.nodes@.len();
        let ghost origin = self@;
        if let Some(op) = self.catch(&[TT::Let, TT::Mut]) {
            let ghost mut done = taken(1);
            let ghost mut now = self@;
            let name = match self.catch(&[TT::Identifier]) {
                Some(name) => name,
                None => {
                    let ghost at = self.nodes@.len();
                    let ghost msg = grammar::expected_text(
                        "identifier"@,
                        token_at(toks, self.pos as nat),
                    );
                    let r = self.missing("identifier");
                    proof {
                        lemma_then_assoc(done, said(msg), node(NodeView::Error, at));
                        done = extend(
                            origin,
                            now,
                            self@,
                            done,
                            then(said(msg), node(NodeView::Error, at)),
                        );
                    }
                    return r;
                },
            };
            proof {
                done = extend(origin, now, self@, done, taken(1));
                now = self@;
                lemma_taken_sum(1, 1);
            }
            let annotation = self.annotation();
            proof {
                done = extend(
                    origin,
                    now,
                    self@,
                    done,
                    grammar::annotation(toks, pos + 2, base).step,
                );
                now = self@;
            }
            let ghost head = done;
            if let None = self.catch(&[TT::Equal]) {
                let ghost at = self.nodes@.len();
                let ghost msg = grammar::expected_text("'='"@, token_at(toks, self.pos as nat));
                let r = self.missing("'='");
                proof {
                    lemma_then_assoc(done, said(msg), node(NodeView::Error, at));
                    done = extend(
                        origin,
                        now,
                        self@,
                        done,
                        then(said(msg), node(NodeView::Error, at)),
                    );
                }
                return r;
            }
            proof {
                done = extend(origin, now, self@, done, taken(1));
                now = self@;
            }
            let expr = self.expression();
            proof {
                done = extend(
                    origin,
                    now,
                    self@,
                    done,
                    grammar::expression(toks, pos + head.used + 1, base + head.nodes.len()),
                );
                now = self@;
            }
            let ghost at = self.nodes@.len();
            let ghost view = NodeView::Let {
                mutable: op.kind == TT::Mut,
                name: *name,
                expr,
                annotation,
            };
            let r = self.add(Node::Let { mutable: op.kind == TT::Mut, name, annotation, expr });
            proof {
                done = extend(origin, now, self@, done, node(view, at));
            }
            r
        } else {
            self.expression()
        }
    }

    /// Reads the statements of a block, up to end-of-input or to a token of the
    /// kind `end`, which is passed.
    pub(super) fn block(&mut self, end: Option<TT>) -> (r: NodeIndex)
        requires
            old(self).wf(),
            old(self).fits(),
        ensures
            final(self).follows_block(
                old(self),
                grammar::block(old(self).toks(), old(self).pos as nat, old(self).nodes@.len(), end),
                r,
            ),
        decreases old(self).toks().len() - old(self).pos, 35nat,
    {
        reveal(grammar::block);
        reveal(grammar::block_rest);
        reveal(grammar::statement);
        let ghost toks = self.toks();
        let ghost pos = self.pos as nat;
        let ghost base = self.nodes@.len();
        let ghost origin = self@;
        let ghost full = grammar::block(toks, pos, base, end);
        let ghost mut done = taken(0);
        let mut expr: Vec<NodeIndex> = Vec::new();
        proof {
            lemma_moved_taken(origin, 0);
            lemma_then_after_nothing(full);
        }
        loop
            invariant
                old(self).wf(),
                old(self).fits(),
                toks == old(self).toks(),
                pos == old(self).pos,
                base == old(self).nodes@.len(),
                origin == old(self)@,
                self.after(old(self), done),
                done.nodes.len() <= 3 * done.used,
                forall|i: int| 0 <= i < expr@.len() ==> expr@[i].0 < self.nodes@.len(),
                full == then(
                    done,
                    grammar::block_rest(
                        toks,
                        pos + done.used,
                        base + done.nodes.len(),
                        end,
                        expr@,
                    ),
                ),
            ensures
                kind_at(toks, self.pos as nat) == TT::Eof || end == Some(
                    kind_at(toks, self.pos as nat),
                ),
            decreases self.toks().len() - self.pos,
        {
            reveal(grammar::block_rest);
            reveal(grammar::statement);
            let kind = self.peek().kind;
            let ends = match end {
                Some(closing) => closing == kind,
                None => false,
            };
            if kind == TT::Eof || ends {
                break ;
            }
            let ghost before = self@;
            let ghost first = done;
            let ghost here_pos = self.pos as nat;
            let ghost here_base = self.nodes@.len();
            let ghost seen = expr@;
            let ghost one = grammar::statement(toks, here_pos, here_base);
            let at = self.statement();
            expr.push(at);
            let ghost mid = self@;
            self.optional(TT::SemiColon);
            let ghost here = extend(
                before,
                mid,
                self@,
                one,
                taken(grammar::optional(toks, here_pos + one.used, TT::SemiColon)),
            );
            proof {
                let rest = grammar::block_rest(
                    toks,
                    here_pos + here.used,
                    here_base + here.nodes.len(),
                    end,
                    seen.push(at),
                );
                lemma_then_assoc(first, here, rest);
                done = extend(origin, before, self@, done, here);
            }
        }
        let ghost before = self@;
        let ghost first = done;
        let ghost used: nat = if kind_at(toks, self.pos as nat) == TT::Eof {
            0
        } else {
            1
        };
        if self.peek().kind != TT::Eof {
            self.next();
        } else {
            proof {
                lemma_moved_taken(before, 0);
            }
        }
        let ghost now = self@;
        let ghost at = self.nodes@.len();
        let ghost view = NodeView::Block { expr: expr@ };
        let r = self.add(Node::Block { expr });
        proof {
            let last = extend(before, now, self@, taken(used), node(view, at));
            lemma_then_assoc(first, taken(used), node(view, at));
            done = extend(origin, before, self@, done, last);
        }
        r
    }

    /// Reads a whole source: a block that runs to end-of-input.
    pub(super) fn module(&mut self) -> (r: NodeIndex)
        requires
            old(self).wf(),
            old(self).fits(),
        ensures
            final(self).after(
                old(self),
                grammar::module(old(self).toks(), old(self).pos as nat, old(self).nodes@.len()),
            ),
            r == grammar::module(
                old(self).toks(),
                old(self).pos as nat,
                old(self).nodes@.len(),
            ).at,
            r.0 + 1 == final(self).nodes@.len(),
            final(self)@.arena.last() is Module,
    {
        reveal(grammar::block);
        let ghost toks = self.toks();
        let ghost pos = self.pos as nat;
        let ghost base = self.nodes@.len();
        let ghost origin = self@;
        let root = self.block(None);
        let ghost now = self@;
        let ghost at = self.nodes@.len();
        let r = self.add(Node::Module { root });
        proof {
            let done = extend(
                origin,
                now,
                self@,
                grammar::block(toks, pos, base, None),
                node(NodeView::Module { root }, at),
            );
        }
        r
    }
}

} // verus!
