use super::{extend, lemma_then_assoc, lemma_then_stay, moved, Node, NodeIndex, NodeView, Parser};
use crate::grammar;
use crate::grammar::{kind_at, token_at, Tier};
use crate::step::{node, taken, then};
use crate::token::{Token, TT};
use vstd::prelude::*;

verus! {

broadcast use crate::step::lemma_then_parts;

impl<'a> Parser<'a> {
    /// Reads a call under any number of prefix operators.
    pub(super) fn unary(&mut self) -> (r: NodeIndex)
        requires
            old(self).wf(),
            old(self).fits(),
        ensures
            final(self).follows(
                old(self),
                grammar::unary(old(self).toks(), old(self).pos as nat, old(self).nodes@.len()),
                r,
            ),
        decreases old(self).toks().len() - old(self).pos, 4nat,
    {
        reveal(grammar::unary);
        reveal(grammar::call);
        let ghost toks = self.toks();
        let ghost pos = self.pos as nat;
        let ghost base = self.nodes@.len();
        let ghost origin = self@;
        if let Some(op) = self.catch(&[TT::Minus, TT::Bang]) {
            let ghost mut done = taken(1);
            let ghost mut now = self@;
            let right = self.unary();
            proof {
                done = extend(origin, now, self@, done, grammar::unary(toks, pos + 1, base));
                now = self@;
            }
            let ghost at = self.nodes@.len();
            let r = self.add(Node::Unary { op, right });
            proof {
                done = extend(origin, now, self@, done, node(NodeView::Unary { op: *op, right }, at));
            }
            r
        } else {
            self.call()
        }
    }

    /// The token at the position, if it is an operator of the tier `tier`;
    /// it is then passed.
    fn operator(&mut self, tier: Tier) -> (found: Option<&'a Token>)
        requires
            old(self).wf(),
        ensures
            final(self).nodes == old(self).nodes,
            found is Some <==> tier.has(kind_at(old(self).toks(), old(self).pos as nat)),
            found matches Some(token) ==> *token == token_at(old(self).toks(), old(self).pos as nat),
            found is None ==> final(self)@ == old(self)@,
            final(self).after(
                old(self),
                taken(
                    if found is Some {
                        1
                    } else {
                        0
                    },
                ),
            ),
    {
        match tier {
            Tier::Equality => self.catch(
                &[
                    TT::EqualEqual,
                    TT::BangEqual,
                    TT::Lesser,
                    TT::LesserEqual,
                    TT::Greater,
                    TT::GreaterEqual,
                ],
            ),
            Tier::Term => self.catch(&[TT::Plus, TT::Minus]),
            Tier::Factor => self.catch(&[TT::Star, TT::Slash]),
        }
    }

    /// An operand of an operator of the tier `tier`.
    fn operand(&mut self, tier: Tier) -> (r: NodeIndex)
        requires
            old(self).wf(),
            old(self).fits(),
        ensures
            final(self).follows(
                old(self),
                grammar::operand(
                    old(self).toks(),
                    old(self).pos as nat,
                    old(self).nodes@.len(),
                    tier,
                ),
                r,
            ),
        decreases old(self).toks().len() - old(self).pos, 2 * tier.rank() - 1,
    {
        reveal(grammar::operand);
        reveal(grammar::binary);
        reveal(grammar::unary);
        match tier {
            Tier::Equality => self.term(),
            Tier::Term => self.factor(),
            Tier::Factor => self.unary(),
        }
    }

    /// Operands joined by operators of the tier `tier`, grouped to the left.
    fn binary(&mut self, tier: Tier) -> (r: NodeIndex)
        requires
            old(self).wf(),
            old(self).fits(),
        ensures
            final(self).follows(
                old(self),
                grammar::binary(
                    old(self).toks(),
                    old(self).pos as nat,
                    old(self).nodes@.len(),
                    tier,
                ),
                r,
            ),
        decreases old(self).toks().len() - old(self).pos, 2 * tier.rank(),
    {
        reveal(grammar::binary);
        reveal(grammar::binary_rest);
        reveal(grammar::operand);
        let ghost toks = self.toks();
        let ghost pos = self.pos as nat;
        let ghost base = self.nodes@.len();
        let ghost origin = self@;
        let ghost full = grammar::binary(toks, pos, base, tier);
        let mut left = self.operand(tier);
        let ghost mut done = grammar::operand(toks, pos, base, tier);
        loop
            invariant
                old(self).wf(),
                old(self).fits(),
                toks == old(self).toks(),
                pos == old(self).pos,
                base == old(self).nodes@.len(),
                origin == old(self)@,
                self.follows(old(self), done, left),
                full == then(
                    done,
                    grammar::binary_rest(
                        toks,
                        pos + done.used,
                        base + done.nodes.len(),
                        tier,
                        left,
                    ),
                ),
            ensures
                self.follows(old(self), full, left),
            decreases self.toks().len() - self.pos,
        {
            reveal(grammar::binary_rest);
            reveal(grammar::operand);
            let ghost start = self@;
            let ghost here_pos = self.pos as nat;
            let ghost here_base = self.nodes@.len();
            if let Some(op) = self.operator(tier) {
                let ghost mut here = taken(1);
                let ghost mut now = self@;
                let right = self.operand(tier);
                proof {
                    here = extend(
                        start,
                        now,
                        self@,
                        here,
                        grammar::operand(toks, here_pos + 1, here_base, tier),
                    );
                    now = self@;
                }
                let ghost at = self.nodes@.len();
                let ghost view = NodeView::Binary { left, op: *op, right };
                let made = self.add(Node::Binary { left, op, right });
                proof {
                    here = extend(start, now, self@, here, node(view, at));
                    let rest = grammar::binary_rest(
                        toks,
                        here_pos + here.used,
                        here_base + here.nodes.len(),
                        tier,
                        here.at,
                    );
                    lemma_then_assoc(done, here, rest);
                    done = extend(origin, start, self@, done, here);
                }
                left = made;
            } else {
                proof {
                    lemma_then_stay(done);
                }
                break ;
            }
        }
        left
    }

    /// Reads operands joined by `*` and `/`.
    pub(super) fn factor(&mut self) -> (r: NodeIndex)
        requires
            old(self).wf(),
            old(self).fits(),
        ensures
            final(self).follows(
                old(self),
                grammar::factor(old(self).toks(), old(self).pos as nat, old(self).nodes@.len()),
                r,
            ),
        decreases old(self).toks().len() - old(self).pos, 2 * Tier::Factor.rank() + 1,
    {
        self.binary(Tier::Factor)
    }

    /// Reads operands joined by `+` and `-`.
    pub(super) fn term(&mut self) -> (r: NodeIndex)
        requires
            old(self).wf(),
            old(self).fits(),
        ensures
            final(self).follows(
                old(self),
                grammar::term(old(self).toks(), old(self).pos as nat, old(self).nodes@.len()),
                r,
            ),
        decreases old(self).toks().len() - old(self).pos, 2 * Tier::Term.rank() + 1,
    {
        self.binary(Tier::Term)
    }

    /// Reads operands joined by the comparison operators.
    pub(super) fn equality(&mut self) -> (r: NodeIndex)
        requires
            old(self).wf(),
            old(self).fits(),
        ensures
            final(self).follows(
                old(self),
                grammar::equality(old(self).toks(), old(self).pos as nat, old(self).nodes@.len()),
                r,
            ),
        decreases old(self).toks().len() - old(self).pos, 2 * Tier::Equality.rank() + 1,
    {
        self.binary(Tier::Equality)
    }

    /// Reads a conditional, or a comparison.
    pub(super) fn jump(&mut self) -> (r: NodeIndex)
        requires
            old(self).wf(),
            old(self).fits(),
        ensures
            final(self).follows(
                old(self),
                grammar::jump(old(self).toks(), old(self).pos as nat, old(self).nodes@.len()),
                r,
            ),
        decreases old(self).toks().len() - old(self).pos, 30nat,
    {
        reveal(grammar::jump);
        reveal(grammar::binary);
        reveal(grammar::expression);
        let ghost toks = self.toks();
        let ghost pos = self.pos as nat;
        let ghost base = self.nodes@.len();
        let ghost origin = self@;
        if let Some(op) = self.catch(&[TT::If]) {
            let ghost mut done = taken(1);
            let ghost mut now = self@;
            let condition = self.equality();
            proof {
                done = extend(
                    origin,
                    now,
                    self@,
                    done,
                    grammar::binary(toks, pos + 1, base, Tier::Equality),
                );
                now = self@;
            }
            let ghost first = done;
            let then_branch = self.expression();
            proof {
                done = extend(
                    origin,
                    now,
                    self@,
                    done,
                    grammar::expression(toks, pos + first.used, base + first.nodes.len()),
                );
                now = self@;
            }
            let ghost second = done;
            let else_branch = if let Some(_) = self.catch(&[TT::Else]) {
                proof {
                    done = extend(origin, now, self@, done, taken(1));
                    now = self@;
                }
                let other = self.expression();
                proof {
                    done = extend(
                        origin,
                        now,
                        self@,
                        done,
                        grammar::expression(toks, pos + second.used + 1, base + second.nodes.len()),
                    );
                    now = self@;
                }
                Some(other)
            } else {
                None
            };
            let ghost at = self.nodes@.len();
            let ghost view = NodeView::If { op: *op, condition, then_branch, else_branch };
            let r = self.add(Node::If { op, condition, then_branch, else_branch });
            proof {
                done = extend(origin, now, self@, done, node(view, at));
            }
            r
        } else {
            self.equality()
        }
    }
}

} // verus!
