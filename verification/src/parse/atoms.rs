use super::{
    extend, lemma_moved_taken, lemma_then_after_nothing, lemma_then_assoc, lemma_then_stay, moved,
    Node, NodeIndex, NodeView, Parser,
};
use crate::grammar;
use crate::grammar::{kind_at, token_at};
use crate::step::{close, node, said, taken, then};
use crate::token::TT;
use vstd::prelude::*;

verus! {

broadcast use crate::step::lemma_then_parts;

impl<'a> Parser<'a> {
    /// Reads a type.
    pub(super) fn type_expression(&mut self) -> (r: NodeIndex)
        requires
            old(self).wf(),
            old(self).fits(),
        ensures
            final(self).follows(
                old(self),
                grammar::type_expression(
                    old(self).toks(),
                    old(self).pos as nat,
                    old(self).nodes@.len(),
                ),
                r,
            ),
    {
        self.type_primary()
    }

    /// Reads the name of a type.
    pub(super) fn type_primary(&mut self) -> (r: NodeIndex)
        requires
            old(self).wf(),
            old(self).fits(),
        ensures
            final(self).follows(
                old(self),
                grammar::type_primary(old(self).toks(), old(self).pos as nat, old(self).nodes@.len()),
                r,
            ),
    {
        let token = self.peek();
        match token.kind {
            TT::Identifier => self.leaf(Node::Identifier { name: token }),
            _ => self.unexpected(),
        }
    }

    /// An expression in parentheses, at its `(`.
    fn group(&mut self) -> (r: NodeIndex)
        requires
            old(self).wf(),
            old(self).fits(),
            kind_at(old(self).toks(), old(self).pos as nat) == TT::LParen,
        ensures
            final(self).follows(
                old(self),
                grammar::primary(old(self).toks(), old(self).pos as nat, old(self).nodes@.len()),
                r,
            ),
        decreases old(self).toks().len() - old(self).pos, 0nat,
    {
        reveal(grammar::primary);
        reveal(grammar::expression);
        let ghost toks = self.toks();
        let ghost pos = self.pos as nat;
        let ghost base = self.nodes@.len();
        let ghost origin = self@;
        self.next();
        let ghost mut done = taken(1);
        let ghost mut now = self@;
        let expr = self.expression();
        proof {
            done = extend(origin, now, self@, done, grammar::expression(toks, pos + 1, base));
            now = self@;
        }
        if let Some(_) = self.catch(&[TT::RParen]) {
            proof {
                done = extend(origin, now, self@, done, taken(1));
                now = self@;
            }
            let ghost at = self.nodes@.len();
            let r = self.add(Node::Group { expr });
            proof {
                done = extend(origin, now, self@, done, node(NodeView::Group { expr }, at));
            }
            r
        } else {
            let ghost at = self.nodes@.len();
            let ghost msg = grammar::expected_text("')'"@, token_at(toks, self.pos as nat));
            let r = self.missing("')'");
            proof {
                lemma_then_assoc(done, said(msg), node(NodeView::Error, at));
                done = extend(
                    origin,
                    now,
                    self@,
                    done,
                    then(said(msg), node(NodeView::Error, at)),
                );
            }
            r
        }
    }

    /// A block in braces, at its `{`.
    fn braces(&mut self) -> (r: NodeIndex)
        requires
            old(self).wf(),
            old(self).fits(),
            kind_at(old(self).toks(), old(self).pos as nat) == TT::LBrace,
        ensures
            final(self).follows(
                old(self),
                grammar::primary(old(self).toks(), old(self).pos as nat, old(self).nodes@.len()),
                r,
            ),
        decreases old(self).toks().len() - old(self).pos, 0nat,
    {
        reveal(grammar::primary);
        reveal(grammar::block);
        let ghost toks = self.toks();
        let ghost pos = self.pos as nat;
        let ghost base = self.nodes@.len();
        let ghost origin = self@;
        self.next();
        let ghost now = self@;
        let r = self.block(Some(TT::RBrace));
        proof {
            let done = extend(
                origin,
                now,
                self@,
                taken(1),
                grammar::block(toks, pos + 1, base, Some(TT::RBrace)),
            );
        }
        r
    }

    /// Reads an atom: a name, a literal, an expression in parentheses, or a
    /// block in braces.
    pub(super) fn primary(&mut self) -> (r: NodeIndex)
        requires
            old(self).wf(),
            old(self).fits(),
        ensures
            final(self).follows(
                old(self),
                grammar::primary(old(self).toks(), old(self).pos as nat, old(self).nodes@.len()),
                r,
            ),
        decreases old(self).toks().len() - old(self).pos, 1nat,
    {
        reveal(grammar::primary);
        let token = self.peek();
        match token.kind {
            TT::Identifier => self.leaf(Node::Identifier { name: token }),
            TT::True => self.leaf(Node::Bool { value: true }),
            TT::False => self.leaf(Node::Bool { value: false }),
            TT::Integer => self.leaf(Node::Integer { value: token }),
            TT::Float => self.leaf(Node::Float { value: token }),
            TT::LParen => self.group(),
            TT::LBrace => self.braces(),
            _ => self.unexpected(),
        }
    }

    /// The arguments of a call, after its `(`: expressions separated by
    /// commas.
    fn arguments(&mut self) -> (args: Vec<NodeIndex>)
        requires
            old(self).wf(),
            old(self).fits(),
        ensures
            ({
                let all = grammar::arguments(
                    old(self).toks(),
                    old(self).pos as nat,
                    old(self).nodes@.len(),
                    seq![],
                );
                &&& final(self).after(old(self), all.step)
                &&& args@ == all.list
                &&& all.step.nodes.len() <= 3 * all.step.used + 1
            }),
            forall|i: int| 0 <= i < args@.len() ==> args@[i].0 < final(self).nodes@.len(),
        decreases old(self).toks().len() - old(self).pos, 34nat,
    {
        reveal(grammar::arguments);
        reveal(grammar::expression);
        let ghost toks = self.toks();
        let ghost pos = self.pos as nat;
        let ghost base = self.nodes@.len();
        let ghost origin = self@;
        let ghost whole = grammar::arguments(toks, pos, base, seq![]);
        let ghost mut done = taken(0);
        let mut args: Vec<NodeIndex> = Vec::new();
        proof {
            lemma_moved_taken(origin, 0);
            lemma_then_after_nothing(whole.step);
        }
        loop
            invariant_except_break
                whole.step == then(
                    done,
                    grammar::arguments(
                        toks,
                        pos + done.used,
                        base + done.nodes.len(),
                        args@,
                    ).step,
                ),
                whole.list == grammar::arguments(
                    toks,
                    pos + done.used,
                    base + done.nodes.len(),
                    args@,
                ).list,
                done.nodes.len() <= 3 * done.used,
            invariant
                old(self).wf(),
                old(self).fits(),
                toks == old(self).toks(),
                pos == old(self).pos,
                base == old(self).nodes@.len(),
                origin == old(self)@,
                self.after(old(self), done),
                forall|i: int| 0 <= i < args@.len() ==> args@[i].0 < self.nodes@.len(),
            ensures
                whole.step == done,
                whole.list == args@,
                done.nodes.len() <= 3 * done.used + 1,
            decreases self.toks().len() - self.pos,
        {
            reveal(grammar::arguments);
            reveal(grammar::expression);
            let ghost before = self@;
            let ghost here_pos = self.pos as nat;
            let ghost here_base = self.nodes@.len();
            let ghost seen = args@;
            let ghost one = grammar::expression(toks, here_pos, here_base);
            let ghost first = done;
            let arg = self.expression();
            args.push(arg);
            let ghost mid = self@;
            proof {
                done = extend(origin, before, self@, done, one);
            }
            if let None = self.catch(&[TT::Comma]) {
                break ;
            }
            proof {
                let rest = grammar::arguments(
                    toks,
                    here_pos + one.used + 1,
                    here_base + one.nodes.len(),
                    seen.push(arg),
                );
                done = extend(origin, mid, self@, done, taken(1));
                lemma_then_assoc(first, one, taken(1));
                lemma_then_assoc(first, then(one, taken(1)), rest.step);
            }
        }
        args
    }

    /// Reads an atom and the calls that follow it.
    pub(super) fn call(&mut self) -> (r: NodeIndex)
        requires
            old(self).wf(),
            old(self).fits(),
        ensures
            final(self).follows(
                old(self),
                grammar::call(old(self).toks(), old(self).pos as nat, old(self).nodes@.len()),
                r,
            ),
        decreases old(self).toks().len() - old(self).pos, 3nat,
    {
        reveal(grammar::call);
        reveal(grammar::call_rest);
        reveal(grammar::primary);
        reveal(grammar::arguments);
        let ghost toks = self.toks();
        let ghost pos = self.pos as nat;
        let ghost base = self.nodes@.len();
        let ghost origin = self@;
        let ghost full = grammar::call(toks, pos, base);
        let mut expr = self.primary();
        let ghost mut done = grammar::primary(toks, pos, base);
        loop
            invariant
                old(self).wf(),
                old(self).fits(),
                toks == old(self).toks(),
                pos == old(self).pos,
                base == old(self).nodes@.len(),
                origin == old(self)@,
                full == grammar::call(toks, pos, base),
                self.follows(old(self), done, expr),
                full == then(
                    done,
                    grammar::call_rest(toks, pos + done.used, base + done.nodes.len(), expr),
                ),
            ensures
                self.follows(old(self), full, expr),
            decreases self.toks().len() - self.pos,
        {
            reveal(grammar::call_rest);
            reveal(grammar::arguments);
            let ghost start = self@;
            let ghost here_pos = self.pos as nat;
            let ghost here_base = self.nodes@.len();
            if let Some(_) = self.catch(&[TT::LParen]) {
                let ghost mut here = taken(1);
                let ghost mut now = self@;
                let args = if self.peek().kind != TT::RParen {
                    let list = self.arguments();
                    proof {
                        here = extend(
                            start,
                            now,
                            self@,
                            here,
                            grammar::arguments(toks, here_pos + 1, here_base, seq![]).step,
                        );
                        now = self@;
                    }
                    list
                } else {
                    proof {
                        lemma_moved_taken(now, 0);
                        here = extend(start, now, self@, here, taken(0));
                    }
                    Vec::new()
                };
                if let Some(op) = self.catch(&[TT::RParen]) {
                    proof {
                        here = extend(start, now, self@, here, taken(1));
                        now = self@;
                    }
                    let ghost at = self.nodes@.len();
                    let ghost view = NodeView::Call { op: *op, expr, args: args@ };
                    let made = self.add(Node::Call { op, expr, args });
                    proof {
                        here = extend(start, now, self@, here, node(view, at));
                        let rest = grammar::call_rest(
                            toks,
                            here_pos + here.used,
                            here_base + here.nodes.len(),
                            here.at,
                        );
                        lemma_then_assoc(done, here, rest);
                        done = extend(origin, start, self@, done, here);
                    }
                    expr = made;
                } else {
                    let ghost at = self.nodes@.len();
                    let ghost msg = grammar::expected_text("')'"@, token_at(toks, self.pos as nat));
                    let r = self.missing("')'");
                    proof {
                        lemma_then_assoc(here, said(msg), node(NodeView::Error, at));
                        here = extend(
                            start,
                            now,
                            self@,
                            here,
                            then(said(msg), node(NodeView::Error, at)),
                        );
                        done = extend(origin, start, self@, done, here);
                    }
                    return r;
                }
            } else {
                proof {
                    lemma_then_stay(done);
                }
                break ;
            }
        }
        expr
    }
}

} // verus!
