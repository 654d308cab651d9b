use crate::parse::{NodeIndex, NodeView};
use crate::step::{close, complain, said, skip, stay, taken, then, Step};
use crate::scan::ahead;
use crate::token::{Token, TT};
use vstd::prelude::*;

verus! {

broadcast use crate::step::lemma_then_parts;

/// The kind of the token at `pos`; past the last token, end-of-input.
pub open spec fn kind_at(toks: Seq<Token>, pos: nat) -> TT {
    if pos < toks.len() {
        toks[pos as int].kind
    } else {
        TT::Eof
    }
}

/// The token at `pos`.
pub open spec fn token_at(toks: Seq<Token>, pos: nat) -> Token {
    toks[pos as int]
}

/// The diagnostic for a token that no production starts with.
pub open spec fn unexpected_text(kind: TT) -> Seq<char> {
    "unexpected token: "@ + kind.name()
}

/// The diagnostic for a required token that is not there.
pub open spec fn expected_text(what: Seq<char>, found: Token) -> Seq<char> {
    "expected "@ + what + ", found "@ + found.text()
}

/// After `p`, a required token is not there: the diagnostic for it, and a
/// placeholder in place of the construct. `pos` is where `p` started.
pub open spec fn missing(p: Step, what: Seq<char>, toks: Seq<Token>, pos: nat, base: nat) -> Step {
    close(complain(p, expected_text(what, token_at(toks, pos + p.used))), NodeView::Error, base)
}

/// A token that no production starts with: the diagnostic for it, and a
/// placeholder. The token is consumed, unless it is end-of-input.
pub open spec fn unexpected(toks: Seq<Token>, pos: nat, base: nat) -> Step {
    let kind = kind_at(toks, pos);
    let used: nat = if kind == TT::Eof {
        0
    } else {
        1
    };
    close(complain(taken(used), unexpected_text(kind)), NodeView::Error, base)
}

/// A type: the name of one.
pub open spec fn type_primary(toks: Seq<Token>, pos: nat, base: nat) -> Step {
    if kind_at(toks, pos) == TT::Identifier {
        close(taken(1), NodeView::Identifier { name: token_at(toks, pos) }, base)
    } else {
        unexpected(toks, pos, base)
    }
}

/// A type.
pub open spec fn type_expression(toks: Seq<Token>, pos: nat, base: nat) -> Step {
    type_primary(toks, pos, base)
}

/// An optional type annotation: what reading it does, and the handle of the
/// type, if there is one.
pub struct Typing {
    pub step: Step,
    pub at: Option<NodeIndex>,
}

/// A `:` and a type, or nothing.
pub open spec fn annotation(toks: Seq<Token>, pos: nat, base: nat) -> Typing {
    if kind_at(toks, pos) == TT::Colon {
        let typed = then(taken(1), type_expression(toks, pos + 1, base));
        Typing { step: typed, at: Some(typed.at) }
    } else {
        Typing { step: taken(0), at: None }
    }
}

/// The `=>` of a function literal, or the diagnostic that it is not there.
pub open spec fn arrow(toks: Seq<Token>, pos: nat) -> Step {
    if kind_at(toks, pos) == TT::EqualGreater {
        taken(1)
    } else {
        said(expected_text("'=>'"@, token_at(toks, pos)))
    }
}

/// One if a token of the kind `kind` stands at `pos`, else zero: the number
/// of tokens that an optional token of that kind takes.
pub open spec fn optional(toks: Seq<Token>, pos: nat, kind: TT) -> nat {
    if kind_at(toks, pos) == kind {
        1
    } else {
        0
    }
}

/// The three tiers of binary operators, from the loosest to the tightest.
#[derive(Clone, Copy)]
pub enum Tier {
    Equality,
    Term,
    Factor,
}

impl Tier {
    /// Whether a token of kind `kind` is an operator of the tier.
    pub open spec fn has(self, kind: TT) -> bool {
        match self {
            Tier::Equality => kind == TT::EqualEqual || kind == TT::BangEqual || kind
                == TT::Lesser || kind == TT::LesserEqual || kind == TT::Greater || kind
                == TT::GreaterEqual,
            Tier::Term => kind == TT::Plus || kind == TT::Minus,
            Tier::Factor => kind == TT::Star || kind == TT::Slash,
        }
    }

    /// A number that is larger, the looser the tier binds.
    pub open spec fn rank(self) -> nat {
        match self {
            Tier::Equality => 12,
            Tier::Term => 9,
            Tier::Factor => 6,
        }
    }
}

/// The parameters of a function literal: what reading them does, the
/// parameters read, and whether the list ended with its `)`.
pub struct Params {
    pub step: Step,
    pub args: Seq<(Token, Option<NodeIndex>)>,
    pub closed: bool,
}

/// The arguments of a call: what reading them does, and their handles.
pub struct Args {
    pub step: Step,
    pub list: Seq<NodeIndex>,
}

/// An atom: a name, a literal, an expression in parentheses, or a block in
/// braces.
#[verifier::opaque]
pub open spec fn primary(toks: Seq<Token>, pos: nat, base: nat) -> Step
    decreases ahead(toks, pos as int), 1nat,
{
    let kind = kind_at(toks, pos);
    let token = token_at(toks, pos);
    if kind == TT::Identifier {
        close(taken(1), NodeView::Identifier { name: token }, base)
    } else if kind == TT::True {
        close(taken(1), NodeView::Bool { value: true }, base)
    } else if kind == TT::False {
        close(taken(1), NodeView::Bool { value: false }, base)
    } else if kind == TT::Integer {
        close(taken(1), NodeView::Integer { value: token }, base)
    } else if kind == TT::Float {
        close(taken(1), NodeView::Float { value: token }, base)
    } else if kind == TT::LParen {
        let inner = then(taken(1), expression(toks, pos + 1, base));
        if kind_at(toks, pos + inner.used) == TT::RParen {
            close(skip(inner, 1), NodeView::Group { expr: inner.at }, base)
        } else {
            missing(inner, "')'"@, toks, pos, base)
        }
    } else if kind == TT::LBrace {
        then(taken(1), block(toks, pos + 1, base, Some(TT::RBrace)))
    } else {
        unexpected(toks, pos, base)
    }
}

/// The calls that follow the callee `callee`, each an argument list in
/// parentheses.
#[verifier::opaque]
pub open spec fn call_rest(toks: Seq<Token>, pos: nat, base: nat, callee: NodeIndex) -> Step
    decreases ahead(toks, pos as int), 2nat,
{
    if kind_at(toks, pos) == TT::LParen {
        let args = if kind_at(toks, pos + 1) != TT::RParen {
            arguments(toks, pos + 1, base, seq![])
        } else {
            Args { step: taken(0), list: seq![] }
        };
        let list = then(taken(1), args.step);
        if kind_at(toks, pos + list.used) == TT::RParen {
            let op = token_at(toks, pos + list.used);
            let here = close(
                skip(list, 1),
                NodeView::Call { op, expr: callee, args: args.list },
                base,
            );
            then(here, call_rest(toks, pos + here.used, base + here.nodes.len(), here.at))
        } else {
            missing(list, "')'"@, toks, pos, base)
        }
    } else {
        stay(callee)
    }
}

/// An atom and the calls that follow it.
#[verifier::opaque]
pub open spec fn call(toks: Seq<Token>, pos: nat, base: nat) -> Step
    decreases ahead(toks, pos as int), 3nat,
{
    let callee = primary(toks, pos, base);
    then(callee, call_rest(toks, pos + callee.used, base + callee.nodes.len(), callee.at))
}

/// A call under any number of prefix operators.
#[verifier::opaque]
pub open spec fn unary(toks: Seq<Token>, pos: nat, base: nat) -> Step
    decreases ahead(toks, pos as int), 4nat,
{
    let kind = kind_at(toks, pos);
    if kind == TT::Minus || kind == TT::Bang {
        let right = then(taken(1), unary(toks, pos + 1, base));
        close(right, NodeView::Unary { op: token_at(toks, pos), right: right.at }, base)
    } else {
        call(toks, pos, base)
    }
}

/// An operand of an operator of the tier `tier`.
#[verifier::opaque]
pub open spec fn operand(toks: Seq<Token>, pos: nat, base: nat, tier: Tier) -> Step
    decreases ahead(toks, pos as int), (tier.rank() - 1) as nat,
{
    match tier {
        Tier::Equality => binary(toks, pos, base, Tier::Term),
        Tier::Term => binary(toks, pos, base, Tier::Factor),
        Tier::Factor => unary(toks, pos, base),
    }
}

/// The operators of the tier `tier` that follow the operand `left`, each
/// with its right operand; they group to the left.
#[verifier::opaque]
pub open spec fn binary_rest(
    toks: Seq<Token>,
    pos: nat,
    base: nat,
    tier: Tier,
    left: NodeIndex,
) -> Step
    decreases ahead(toks, pos as int), 0nat,
{
    if tier.has(kind_at(toks, pos)) {
        let right = then(taken(1), operand(toks, pos + 1, base, tier));
        let here = close(
            right,
            NodeView::Binary { left, op: token_at(toks, pos), right: right.at },
            base,
        );
        then(here, binary_rest(toks, pos + here.used, base + here.nodes.len(), tier, here.at))
    } else {
        stay(left)
    }
}

/// Operands joined by operators of the tier `tier`.
#[verifier::opaque]
pub open spec fn binary(toks: Seq<Token>, pos: nat, base: nat, tier: Tier) -> Step
    decreases ahead(toks, pos as int), tier.rank(),
{
    let left = operand(toks, pos, base, tier);
    then(left, binary_rest(toks, pos + left.used, base + left.nodes.len(), tier, left.at))
}

/// Operands joined by `*` and `/`.
pub open spec fn factor(toks: Seq<Token>, pos: nat, base: nat) -> Step {
    binary(toks, pos, base, Tier::Factor)
}

/// Operands joined by `+` and `-`.
pub open spec fn term(toks: Seq<Token>, pos: nat, base: nat) -> Step {
    binary(toks, pos, base, Tier::Term)
}

/// Operands joined by the comparison operators.
pub open spec fn equality(toks: Seq<Token>, pos: nat, base: nat) -> Step {
    binary(toks, pos, base, Tier::Equality)
}

/// A conditional, or a comparison.
#[verifier::opaque]
pub open spec fn jump(toks: Seq<Token>, pos: nat, base: nat) -> Step
    decreases ahead(toks, pos as int), 13nat,
{
    if kind_at(toks, pos) == TT::If {
        let condition = then(taken(1), binary(toks, pos + 1, base, Tier::Equality));
        let first = then(
            condition,
            expression(toks, pos + condition.used, base + condition.nodes.len()),
        );
        let other = kind_at(toks, pos + first.used) == TT::Else;
        let all = if other {
            then(
                skip(first, 1),
                expression(toks, pos + first.used + 1, base + first.nodes.len()),
            )
        } else {
            first
        };
        let node = NodeView::If {
            op: token_at(toks, pos),
            condition: condition.at,
            then_branch: first.at,
            else_branch: if other {
                Some(all.at)
            } else {
                None
            },
        };
        close(all, node, base)
    } else {
        binary(toks, pos, base, Tier::Equality)
    }
}

/// The parameters of a function literal that follow those in `seen`, up to
/// the `)` that ends the list.
#[verifier::opaque]
pub open spec fn params(
    toks: Seq<Token>,
    pos: nat,
    base: nat,
    seen: Seq<(Token, Option<NodeIndex>)>,
) -> Params
    decreases ahead(toks, pos as int), 0nat,
{
    let kind = kind_at(toks, pos);
    if kind == TT::RParen {
        Params { step: taken(1), args: seen, closed: true }
    } else if kind != TT::Identifier {
        Params { step: missing(taken(0), "identifier"@, toks, pos, base), args: seen, closed: false }
    } else {
        let typed = annotation(toks, pos + 1, base);
        let one = then(taken(1), typed.step);
        let here = skip(one, optional(toks, pos + one.used, TT::Comma));
        let rest = params(
            toks,
            pos + here.used,
            base + here.nodes.len(),
            seen.push((token_at(toks, pos), typed.at)),
        );
        Params { step: then(here, rest.step), args: rest.args, closed: rest.closed }
    }
}

/// A function literal, or a conditional.
#[verifier::opaque]
pub open spec fn function(toks: Seq<Token>, pos: nat, base: nat) -> Step
    decreases ahead(toks, pos as int), 14nat,
{
    if kind_at(toks, pos) == TT::Fn {
        if kind_at(toks, pos + 1) != TT::LParen {
            missing(taken(1), "'('"@, toks, pos, base)
        } else {
            let list = params(toks, pos + 2, base, seq![]);
            let head = then(taken(2), list.step);
            if !list.closed {
                head
            } else {
                let typed = annotation(toks, pos + head.used, base + head.nodes.len());
                let result = then(head, typed.step);
                let marked = then(result, arrow(toks, pos + result.used));
                let body = then(
                    marked,
                    expression(toks, pos + marked.used, base + marked.nodes.len()),
                );
                close(body, NodeView::Fn { args: list.args, ret: typed.at, expr: body.at }, base)
            }
        }
    } else {
        jump(toks, pos, base)
    }
}

/// An expression.
#[verifier::opaque]
pub open spec fn expression(toks: Seq<Token>, pos: nat, base: nat) -> Step
    decreases ahead(toks, pos as int), 15nat,
{
    function(toks, pos, base)
}

/// The arguments of a call that follow those in `seen`, separated by commas.
#[verifier::opaque]
pub open spec fn arguments(toks: Seq<Token>, pos: nat, base: nat, seen: Seq<NodeIndex>) -> Args
    decreases ahead(toks, pos as int), 16nat,
{
    let one = expression(toks, pos, base);
    if kind_at(toks, pos + one.used) == TT::Comma {
        let here = skip(one, 1);
        let rest = arguments(toks, pos + here.used, base + here.nodes.len(), seen.push(one.at));
        Args { step: then(here, rest.step), list: rest.list }
    } else {
        Args { step: one, list: seen.push(one.at) }
    }
}

/// A binding introduced by `let` or `mut`, or an expression.
#[verifier::opaque]
pub open spec fn statement(toks: Seq<Token>, pos: nat, base: nat) -> Step
    decreases ahead(toks, pos as int), 16nat,
{
    let kind = kind_at(toks, pos);
    if kind == TT::Let || kind == TT::Mut {
        if kind_at(toks, pos + 1) != TT::Identifier {
            missing(taken(1), "identifier"@, toks, pos, base)
        } else {
            let typed = annotation(toks, pos + 2, base);
            let head = then(taken(2), typed.step);
            if kind_at(toks, pos + head.used) != TT::Equal {
                missing(head, "'='"@, toks, pos, base)
            } else {
                let value = then(
                    skip(head, 1),
                    expression(toks, pos + head.used + 1, base + head.nodes.len()),
                );
                let node = NodeView::Let {
                    mutable: kind == TT::Mut,
                    name: token_at(toks, pos + 1),
                    expr: value.at,
                    annotation: typed.at,
                };
                close(value, node, base)
            }
        }
    } else {
        expression(toks, pos, base)
    }
}

/// The statements of a block that follow those in `seen`, each with the `;`
/// after it if there is one, up to end-of-input or to a token of the kind
/// `end`, which is consumed.
///
/// A statement that starts at a token other than end-of-input consumes that
/// token at least (`lemma_statement_consumes`), so that the case of a
/// statement that consumed nothing does not arise; it is there to make the
/// recursion well-founded.
#[verifier::opaque]
pub open spec fn block_rest(
    toks: Seq<Token>,
    pos: nat,
    base: nat,
    end: Option<TT>,
    seen: Seq<NodeIndex>,
) -> Step
    decreases ahead(toks, pos as int), 17nat,
{
    let kind = kind_at(toks, pos);
    if kind == TT::Eof {
        close(taken(0), NodeView::Block { expr: seen }, base)
    } else if end == Some(kind) {
        close(taken(1), NodeView::Block { expr: seen }, base)
    } else {
        let one = statement(toks, pos, base);
        let here = skip(one, optional(toks, pos + one.used, TT::SemiColon));
        if here.used == 0 {
            close(here, NodeView::Block { expr: seen.push(one.at) }, base)
        } else {
            then(
                here,
                block_rest(toks, pos + here.used, base + here.nodes.len(), end, seen.push(one.at)),
            )
        }
    }
}

/// A block: statements up to end-of-input or to a token of the kind `end`.
#[verifier::opaque]
pub open spec fn block(toks: Seq<Token>, pos: nat, base: nat, end: Option<TT>) -> Step
    decreases ahead(toks, pos as int), 18nat,
{
    block_rest(toks, pos, base, end, seq![])
}

/// A whole source: a block that runs to end-of-input.
pub open spec fn module(toks: Seq<Token>, pos: nat, base: nat) -> Step {
    let body = block(toks, pos, base, None);
    close(body, NodeView::Module { root: body.at }, base)
}

/// An atom that starts at a token other than end-of-input consumes it.
proof fn lemma_primary_consumes(toks: Seq<Token>, pos: nat, base: nat)
    requires
        kind_at(toks, pos) != TT::Eof,
    ensures
        primary(toks, pos, base).used >= 1,
{
    reveal(primary);
}

/// A call that starts at a token other than end-of-input consumes it.
proof fn lemma_call_consumes(toks: Seq<Token>, pos: nat, base: nat)
    requires
        kind_at(toks, pos) != TT::Eof,
    ensures
        call(toks, pos, base).used >= 1,
{
    reveal(call);
    reveal(primary);
    lemma_primary_consumes(toks, pos, base);
}

/// A prefix expression that starts at a token other than end-of-input
/// consumes it.
proof fn lemma_unary_consumes(toks: Seq<Token>, pos: nat, base: nat)
    requires
        kind_at(toks, pos) != TT::Eof,
    ensures
        unary(toks, pos, base).used >= 1,
{
    reveal(unary);
    reveal(call);
    lemma_call_consumes(toks, pos, base);
}

/// A binary expression that starts at a token other than end-of-input
/// consumes it.
proof fn lemma_binary_consumes(toks: Seq<Token>, pos: nat, base: nat, tier: Tier)
    requires
        kind_at(toks, pos) != TT::Eof,
    ensures
        binary(toks, pos, base, tier).used >= 1,
    decreases tier.rank(),
{
    reveal(binary);
    reveal(operand);
    reveal(unary);
    match tier {
        Tier::Equality => lemma_binary_consumes(toks, pos, base, Tier::Term),
        Tier::Term => lemma_binary_consumes(toks, pos, base, Tier::Factor),
        Tier::Factor => lemma_unary_consumes(toks, pos, base),
    }
}

/// An expression that starts at a token other than end-of-input consumes
/// it.
proof fn lemma_expression_consumes(toks: Seq<Token>, pos: nat, base: nat)
    requires
        kind_at(toks, pos) != TT::Eof,
    ensures
        expression(toks, pos, base).used >= 1,
{
    lemma_binary_consumes(toks, pos, base, Tier::Equality);
    assert(jump(toks, pos, base).used >= 1) by {
        reveal(jump);
        reveal(binary);
    }
    assert(function(toks, pos, base).used >= 1) by {
        reveal(function);
        reveal(jump);
    }
    assert(expression(toks, pos, base) == function(toks, pos, base)) by {
        reveal(expression);
        reveal(function);
    }
}

/// A statement that starts at a token other than end-of-input consumes that
/// token at least: the statements of a block are read one after the other,
/// and none twice.
pub proof fn lemma_statement_consumes(toks: Seq<Token>, pos: nat, base: nat)
    requires
        kind_at(toks, pos) != TT::Eof,
    ensures
        statement(toks, pos, base).used >= 1,
{
    lemma_expression_consumes(toks, pos, base);
    assert(statement(toks, pos, base).used >= 1) by {
        reveal(statement);
        reveal(expression);
    }
}

} // verus!
