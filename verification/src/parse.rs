use crate::grammar;
use crate::grammar::{kind_at, token_at};
use crate::step::{close, handle, node, said, stay, taken, then, Step};
use crate::report::Report;
use crate::token::{Token, TokenStream, TT};
use vstd::prelude::*;
use vstd::string::StringExecFns;

mod atoms;
mod items;
mod operators;

verus! {

broadcast use crate::step::lemma_then_parts;

/// The handle of a node: its index in the arena.
#[derive(Debug, Clone, Copy, PartialEq, Eq, Hash, Structural)]
pub struct NodeIndex(pub u32);

/// A node of the syntax tree. Its children are handles of nodes that the
/// arena already held when the node was added.
#[derive(Debug)]
#[allow(inconsistent_fields)]
pub enum Node<'a> {
    Error,
    Module { root: NodeIndex },
    Block { expr: Vec<NodeIndex> },
    Identifier { name: &'a Token },
    Bool { value: bool },
    Integer { value: &'a Token },
    Float { value: &'a Token },
    Fn { args: Vec<(&'a Token, Option<NodeIndex>)>, ret: Option<NodeIndex>, expr: NodeIndex },
    Group { expr: NodeIndex },
    Binary { left: NodeIndex, op: &'a Token, right: NodeIndex },
    Unary { op: &'a Token, right: NodeIndex },
    Call { op: &'a Token, expr: NodeIndex, args: Vec<NodeIndex> },
    If {
        op: &'a Token,
        condition: NodeIndex,
        then_branch: NodeIndex,
        else_branch: Option<NodeIndex>,
    },
    Let { mutable: bool, name: &'a Token, expr: NodeIndex, annotation: Option<NodeIndex> },
}

/// A node as a value: tokens in place of references, sequences in place of
/// vectors.
#[allow(inconsistent_fields)]
pub enum NodeView {
    Error,
    Module { root: NodeIndex },
    Block { expr: Seq<NodeIndex> },
    Identifier { name: Token },
    Bool { value: bool },
    Integer { value: Token },
    Float { value: Token },
    Fn { args: Seq<(Token, Option<NodeIndex>)>, ret: Option<NodeIndex>, expr: NodeIndex },
    Group { expr: NodeIndex },
    Binary { left: NodeIndex, op: Token, right: NodeIndex },
    Unary { op: Token, right: NodeIndex },
    Call { op: Token, expr: NodeIndex, args: Seq<NodeIndex> },
    If { op: Token, condition: NodeIndex, then_branch: NodeIndex, else_branch: Option<NodeIndex> },
    Let { mutable: bool, name: Token, expr: NodeIndex, annotation: Option<NodeIndex> },
}

/// The parameters of a function literal as values.
pub open spec fn params_view(args: Seq<(&Token, Option<NodeIndex>)>) -> Seq<
    (Token, Option<NodeIndex>),
> {
    Seq::new(args.len(), |i: int| (*args[i].0, args[i].1))
}

impl<'a> View for Node<'a> {
    type V = NodeView;

    open spec fn view(&self) -> NodeView {
        match *self {
            Node::Error => NodeView::Error,
            Node::Module { root } => NodeView::Module { root },
            Node::Block { expr } => NodeView::Block { expr: expr@ },
            Node::Identifier { name } => NodeView::Identifier { name: *name },
            Node::Bool { value } => NodeView::Bool { value },
            Node::Integer { value } => NodeView::Integer { value: *value },
            Node::Float { value } => NodeView::Float { value: *value },
            Node::Fn { args, ret, expr } => NodeView::Fn { args: params_view(args@), ret, expr },
            Node::Group { expr } => NodeView::Group { expr },
            Node::Binary { left, op, right } => NodeView::Binary { left, op: *op, right },
            Node::Unary { op, right } => NodeView::Unary { op: *op, right },
            Node::Call { op, expr, args } => NodeView::Call { op: *op, expr, args: args@ },
            Node::If { op, condition, then_branch, else_branch } => NodeView::If {
                op: *op,
                condition,
                then_branch,
                else_branch,
            },
            Node::Let { mutable, name, expr, annotation } => NodeView::Let {
                mutable,
                name: *name,
                expr,
                annotation,
            },
        }
    }
}

/// Whether an optional handle, if there is one, is below `n`.
pub open spec fn option_below(h: Option<NodeIndex>, n: nat) -> bool {
    h matches Some(i) ==> i.0 < n
}

impl NodeView {
    /// Every handle that the node holds is below `n`.
    pub open spec fn below(self, n: nat) -> bool {
        match self {
            NodeView::Error => true,
            NodeView::Module { root } => root.0 < n,
            NodeView::Block { expr } => forall|i: int| 0 <= i < expr.len() ==> expr[i].0 < n,
            NodeView::Identifier { name } => true,
            NodeView::Bool { value } => true,
            NodeView::Integer { value } => true,
            NodeView::Float { value } => true,
            NodeView::Fn { args, ret, expr } => {
                &&& forall|i: int| 0 <= i < args.len() ==> option_below(#[trigger] args[i].1, n)
                &&& option_below(ret, n)
                &&& expr.0 < n
            },
            NodeView::Group { expr } => expr.0 < n,
            NodeView::Binary { left, op, right } => left.0 < n && right.0 < n,
            NodeView::Unary { op, right } => right.0 < n,
            NodeView::Call { op, expr, args } => {
                &&& expr.0 < n
                &&& forall|i: int| 0 <= i < args.len() ==> args[i].0 < n
            },
            NodeView::If { op, condition, then_branch, else_branch } => {
                &&& condition.0 < n
                &&& then_branch.0 < n
                &&& option_below(else_branch, n)
            },
            NodeView::Let { mutable, name, expr, annotation } => {
                &&& expr.0 < n
                &&& option_below(annotation, n)
            },
        }
    }
}

/// The nodes of an arena as values.
pub open spec fn views(nodes: Seq<Node>) -> Seq<NodeView> {
    Seq::new(nodes.len(), |i: int| nodes[i]@)
}

/// Every node of the arena holds only handles of nodes before it.
pub open spec fn ordered(arena: Seq<NodeView>) -> bool {
    forall|i: int| 0 <= i < arena.len() ==> (#[trigger] arena[i]).below(i as nat)
}

/// The arena holds no placeholder for a malformed construct.
pub open spec fn sound(arena: Seq<NodeView>) -> bool {
    forall|i: int| 0 <= i < arena.len() ==> !(#[trigger] arena[i] is Error)
}

/// The state of a parse as values: the position in the tokens, the arena,
/// and the diagnostics.
pub struct Progress {
    pub pos: nat,
    pub arena: Seq<NodeView>,
    pub errors: Seq<Seq<char>>,
}

/// `post` is `pre` after `step`.
pub open spec fn moved(pre: Progress, post: Progress, step: Step) -> bool {
    &&& post.pos == pre.pos + step.used
    &&& post.arena == pre.arena + step.nodes
    &&& post.errors == pre.errors + step.errors
}

/// Steps compose associatively.
proof fn lemma_then_assoc(a: Step, b: Step, c: Step)
    ensures
        then(then(a, b), c) == then(a, then(b, c)),
{
    reveal(then);
    assert((a.nodes + b.nodes) + c.nodes =~= a.nodes + (b.nodes + c.nodes));
    assert((a.errors + b.errors) + c.errors =~= a.errors + (b.errors + c.errors));
}

/// Two steps in a row are one step.
proof fn lemma_moved_then(s0: Progress, s1: Progress, s2: Progress, a: Step, b: Step)
    requires
        moved(s0, s1, a),
        moved(s1, s2, b),
    ensures
        moved(s0, s2, then(a, b)),
{
    reveal(then);
    assert((s0.arena + a.nodes) + b.nodes =~= s0.arena + (a.nodes + b.nodes));
    assert((s0.errors + a.errors) + b.errors =~= s0.errors + (a.errors + b.errors));
}

/// `done`, which led from `origin` to `now`, then `next`, which led on to
/// `after`, as one step.
proof fn extend(origin: Progress, now: Progress, after: Progress, done: Step, next: Step) -> (all:
    Step)
    requires
        moved(origin, now, done),
        moved(now, after, next),
    ensures
        all == then(done, next),
        moved(origin, after, all),
{
    lemma_moved_then(origin, now, after, done, next);
    then(done, next)
}

/// Consuming tokens leaves the arena and the diagnostics as they were.
proof fn lemma_moved_taken(pre: Progress, n: nat)
    ensures
        moved(pre, Progress { pos: pre.pos + n, ..pre }, taken(n)),
{
    assert(pre.arena + taken(n).nodes =~= pre.arena);
    assert(pre.errors + taken(n).errors =~= pre.errors);
}

/// Consuming tokens twice is consuming their sum.
proof fn lemma_taken_sum(a: nat, b: nat)
    ensures
        then(taken(a), taken(b)) == taken(a + b),
{
    reveal(then);
    assert(then(taken(a), taken(b)).nodes =~= taken(a + b).nodes);
    assert(then(taken(a), taken(b)).errors =~= taken(a + b).errors);
}

/// Doing nothing after a step that stands for `at` changes nothing.
proof fn lemma_then_stay(a: Step)
    ensures
        then(a, stay(a.at)) == a,
{
    reveal(then);
    assert(then(a, stay(a.at)).nodes =~= a.nodes);
    assert(then(a, stay(a.at)).errors =~= a.errors);
}

/// Consuming nothing before a step changes nothing.
proof fn lemma_then_after_nothing(a: Step)
    ensures
        then(taken(0), a) == a,
{
    reveal(then);
    assert(then(taken(0), a).nodes =~= a.nodes);
    assert(then(taken(0), a).errors =~= a.errors);
}

/// The diagnostic for a token that no production starts with.
fn unexpected_message(kind: TT) -> (msg: String)
    ensures
        msg@ == grammar::unexpected_text(kind),
{
    let mut msg = String::from_str("unexpected token: ");
    msg.append(kind.label());
    msg
}

/// The diagnostic for a required token that is not there.
fn expected_message(what: &str, found: &Token) -> (msg: String)
    ensures
        msg@ == grammar::expected_text(what@, *found),
{
    let mut msg = String::from_str("expected ");
    msg.append(what);
    msg.append(", found ");
    let text = found.to_string();
    msg.append(text.as_str());
    msg
}

/// The parser: the tokens, a position in them, and the arena and
/// diagnostics built so far.
struct Parser<'a> {
    src: &'a str,
    tokens: &'a TokenStream<'a>,
    nodes: Vec<Node<'a>>,
    pos: usize,
    report: Report,
}

impl<'a> View for Parser<'a> {
    type V = Progress;

    closed spec fn view(&self) -> Progress {
        Progress {
            pos: self.pos as nat,
            arena: views(self.nodes@),
            errors: self.report.error_texts(),
        }
    }
}

impl<'a> Parser<'a> {
    /// The tokens being read.
    spec fn toks(&self) -> Seq<Token> {
        self.tokens.tokens@
    }

    /// The tokens end with end-of-input, which the position never passes;
    /// the arena is ordered; and it holds a placeholder only if a diagnostic
    /// was recorded.
    spec fn wf(&self) -> bool {
        &&& self.toks().len() > 0
        &&& self.toks().last().kind == TT::Eof
        &&& self.pos < self.toks().len()
        &&& self.tidy()
    }

    /// The arena is ordered, and it holds a placeholder only if a diagnostic
    /// was recorded.
    #[verifier::opaque]
    spec fn tidy(&self) -> bool {
        &&& ordered(self@.arena)
        &&& (sound(self@.arena) || self@.errors.len() > 0)
    }

    /// The arena has room for whatever the tokens ahead can add.
    spec fn fits(&self) -> bool {
        self.nodes@.len() + 3 * (self.toks().len() - self.pos) <= u32::MAX
    }

    /// The state reads the same tokens as `pre` and holds the same warnings.
    spec fn same_input(&self, pre: &Self) -> bool {
        &&& self.src == pre.src
        &&& self.tokens == pre.tokens
        &&& self.report.warning_texts() == pre.report.warning_texts()
    }

    /// The state is `pre` after `step`.
    spec fn after(&self, pre: &Self, step: Step) -> bool {
        &&& self.wf()
        &&& self.same_input(pre)
        &&& moved(pre@, self@, step)
        &&& self.pos == pre.pos + step.used
        &&& self.nodes@.len() == pre.nodes@.len() + step.nodes.len()
    }

    /// The state is `pre` after the production `step`, which stands for
    /// the node `r`, the last one of the arena. A production that consumed
    /// nothing started at end-of-input and added one node; one that
    /// consumed tokens added at most three nodes for each.
    spec fn follows(&self, pre: &Self, step: Step, r: NodeIndex) -> bool {
        &&& self.after(pre, step)
        &&& r == step.at
        &&& step.nodes.len() >= 1
        &&& r.0 + 1 == self.nodes@.len()
        &&& step.used == 0 ==> kind_at(pre.toks(), pre.pos as nat) == TT::Eof && step.nodes.len()
            == 1
        &&& step.used > 0 ==> step.nodes.len() <= 3 * step.used
    }

    /// The state is `pre` after the block `step`, which stands for the node
    /// `r`, the last one of the arena; the block added at most three nodes
    /// for each token it consumed, and one more.
    spec fn follows_block(&self, pre: &Self, step: Step, r: NodeIndex) -> bool {
        &&& self.after(pre, step)
        &&& r == step.at
        &&& step.nodes.len() >= 1
        &&& r.0 + 1 == self.nodes@.len()
        &&& step.nodes.len() <= 3 * step.used + 1
    }

    /// Starts at the first token, with an empty arena.
    fn new(src: &'a str, tokens: &'a TokenStream<'a>) -> (parser: Self)
        requires
            tokens.tokens@.len() > 0,
            tokens.tokens@.last().kind == TT::Eof,
        ensures
            parser.wf(),
            parser.src == src,
            parser.tokens == tokens,
            parser@ == (Progress { pos: 0, arena: seq![], errors: seq![] }),
            parser.pos == 0,
            parser.nodes@.len() == 0,
            parser.report.warning_texts() == Seq::<Seq<char>>::empty(),
    {
        let parser = Self { src, tokens, nodes: Vec::new(), pos: 0, report: Report::new() };
        assert(parser@.arena =~= seq![]);
        reveal(Parser::tidy);
        parser
    }

    /// Adds `value` to the arena and gives its handle.
    fn add(&mut self, value: Node<'a>) -> (r: NodeIndex)
        requires
            old(self).wf(),
            old(self).nodes@.len() < u32::MAX,
            value@.below(old(self).nodes@.len()),
            value@ is Error ==> old(self)@.errors.len() > 0,
        ensures
            final(self).after(old(self), node(value@, old(self).nodes@.len())),
            final(self).nodes@.len() == old(self).nodes@.len() + 1,
            final(self)@.arena == old(self)@.arena.push(value@),
            r == handle(old(self).nodes@.len()),
            r.0 == old(self).nodes@.len(),
    {
        self.nodes.push(value);
        proof {
            assert(self@.arena =~= old(self)@.arena.push(value@));
            assert(self@.arena =~= old(self)@.arena + seq![value@]);
            assert(self@.errors =~= old(self)@.errors + Seq::<Seq<char>>::empty());
            reveal(Parser::tidy);
        }
        NodeIndex((self.nodes.len() - 1) as u32)
    }

    /// Records the diagnostic `msg`.
    fn fault(&mut self, msg: String)
        requires
            old(self).wf(),
        ensures
            final(self).after(old(self), said(msg@)),
            final(self).nodes == old(self).nodes,
            final(self)@.errors.len() > 0,
    {
        self.report.error(msg);
        proof {
            reveal(Parser::tidy);
            assert(self@.errors =~= old(self)@.errors + seq![msg@]);
            assert(self@.arena =~= old(self)@.arena + Seq::<NodeView>::empty());
        }
    }

    /// The token at the position.
    fn peek(&self) -> (token: &'a Token)
        requires
            self.wf(),
        ensures
            *token == token_at(self.toks(), self.pos as nat),
            token.kind == kind_at(self.toks(), self.pos as nat),
    {
        let stream: &'a TokenStream<'a> = self.tokens;
        &stream.tokens[self.pos]
    }

    /// The token at the position, which is then passed, unless it is
    /// end-of-input.
    fn next(&mut self) -> (token: &'a Token)
        requires
            old(self).wf(),
        ensures
            *token == token_at(old(self).toks(), old(self).pos as nat),
            final(self).nodes == old(self).nodes,
            final(self).after(
                old(self),
                taken(
                    if token.kind == TT::Eof {
                        0
                    } else {
                        1
                    },
                ),
            ),
    {
        let token = self.peek();
        let len = self.tokens.tokens.len();
        if token.kind != TT::Eof {
            assert(self.pos < len);
            self.pos = self.pos + 1;
        }
        proof {
            reveal(Parser::tidy);
            lemma_moved_taken(old(self)@, 0);
            lemma_moved_taken(old(self)@, 1);
        }
        token
    }

    /// The token at the position, if its kind is among `check`; it is then
    /// passed, unless it is end-of-input.
    fn catch(&mut self, check: &[TT]) -> (found: Option<&'a Token>)
        requires
            old(self).wf(),
        ensures
            final(self).nodes == old(self).nodes,
            found is Some <==> check@.contains(kind_at(old(self).toks(), old(self).pos as nat)),
            found matches Some(token) ==> *token == token_at(old(self).toks(), old(self).pos as nat),
            found is None ==> final(self)@ == old(self)@,
            final(self).after(
                old(self),
                taken(
                    if found is Some && kind_at(old(self).toks(), old(self).pos as nat)
                        != TT::Eof {
                        1
                    } else {
                        0
                    },
                ),
            ),
    {
        let kind = self.peek().kind;
        proof {
            lemma_moved_taken(self@, 0);
        }
        let mut i: usize = 0;
        while i < check.len()
            invariant
                *self == *old(self),
                self.wf(),
                kind == kind_at(self.toks(), self.pos as nat),
                i <= check@.len(),
                forall|k: int| 0 <= k < i ==> check@[k] != kind,
            decreases check@.len() - i,
        {
            if check[i] == kind {
                assert(check@[i as int] == kind);
                return Some(self.next());
            }
            i += 1;
        }
        None
    }

    /// Records that the token at the position starts no production, passes
    /// it, and adds a placeholder.
    fn unexpected(&mut self) -> (r: NodeIndex)
        requires
            old(self).wf(),
            old(self).fits(),
        ensures
            final(self).follows(
                old(self),
                grammar::unexpected(old(self).toks(), old(self).pos as nat, old(self).nodes@.len()),
                r,
            ),
    {
        let ghost origin = self@;
        let ghost at = self.nodes@.len();
        let kind = self.peek().kind;
        let ghost used: nat = if kind == TT::Eof {
            0
        } else {
            1
        };
        self.next();
        let ghost mut done = taken(used);
        let ghost mut now = self@;
        self.fault(unexpected_message(kind));
        proof {
            done = extend(origin, now, self@, done, said(grammar::unexpected_text(kind)));
            now = self@;
        }
        let r = self.add(Node::Error);
        proof {
            done = extend(origin, now, self@, done, node(NodeView::Error, at));
        }
        r
    }

    /// Records that the token at the position is not the required `what`,
    /// and adds a placeholder.
    fn missing(&mut self, what: &str) -> (r: NodeIndex)
        requires
            old(self).wf(),
            old(self).nodes@.len() < u32::MAX,
        ensures
            final(self).after(
                old(self),
                then(
                    said(
                        grammar::expected_text(
                            what@,
                            token_at(old(self).toks(), old(self).pos as nat),
                        ),
                    ),
                    node(NodeView::Error, old(self).nodes@.len()),
                ),
            ),
            final(self).nodes@.len() == old(self).nodes@.len() + 1,
            final(self).pos == old(self).pos,
            r == handle(old(self).nodes@.len()),
            r.0 == old(self).nodes@.len(),
    {
        let found = self.peek();
        let ghost msg = grammar::expected_text(what@, *found);
        self.fault(expected_message(what, found));
        let ghost mid = self@;
        let r = self.add(Node::Error);
        proof {
            lemma_moved_then(
                old(self)@,
                mid,
                self@,
                said(msg),
                node(NodeView::Error, old(self).nodes@.len()),
            );
        }
        r
    }

    /// Passes the token at the position, which is not end-of-input, and
    /// adds `value`, which holds no handle, for it.
    fn leaf(&mut self, value: Node<'a>) -> (r: NodeIndex)
        requires
            old(self).wf(),
            old(self).fits(),
            kind_at(old(self).toks(), old(self).pos as nat) != TT::Eof,
            value@.below(0),
            !(value@ is Error),
        ensures
            final(self).follows(old(self), close(taken(1), value@, old(self).nodes@.len()), r),
    {
        let ghost origin = self@;
        let ghost at = self.nodes@.len();
        self.next();
        let ghost now = self@;
        let r = self.add(value);
        proof {
            let done = extend(origin, now, self@, taken(1), node(value@, at));
        }
        r
    }
}

/// The most tokens that a token sequence may hold for its tree to fit the
/// handles: a token adds at most three nodes.
pub const MAX_TOKENS: usize = 0x5555_5555;

/// The syntax tree of a source: the arena of its nodes, and the handle of
/// the root.
#[derive(Debug)]
pub struct Ast<'a> {
    pub tokens: &'a TokenStream<'a>,
    pub nodes: Vec<Node<'a>>,
    pub root: NodeIndex,
}

impl<'a> Ast<'a> {
    /// The nodes as values.
    pub open spec fn arena(&self) -> Seq<NodeView> {
        views(self.nodes@)
    }

    /// The root is a module and the last node of the arena; every node
    /// holds only handles of nodes before it; and no node is a placeholder.
    pub open spec fn wf(&self) -> bool {
        &&& self.nodes@.len() > 0
        &&& self.root.0 + 1 == self.nodes@.len()
        &&& self.arena().last() is Module
        &&& ordered(self.arena())
        &&& sound(self.arena())
    }

    /// The node of the handle `node`.
    pub fn get(&self, node: &NodeIndex) -> (found: &Node<'a>)
        requires
            node.0 < self.nodes@.len(),
        ensures
            *found == self.nodes@[node.0 as int],
    {
        &self.nodes[node.0 as usize]
    }
}

/// What a parse of `tokens` has to give: the tree if no diagnostic was
/// recorded, else the diagnostics alone.
pub open spec fn parsed(tokens: &TokenStream, result: Result<Ast, Report>) -> bool {
    let all = grammar::module(tokens.tokens@, 0, 0);
    match result {
        Ok(ast) => {
            &&& all.errors.len() == 0
            &&& ast.tokens == tokens
            &&& ast.arena() == all.nodes
            &&& ast.root == all.at
            &&& ast.wf()
        },
        Err(report) => {
            &&& all.errors.len() > 0
            &&& report.error_texts() == all.errors
            &&& report.warning_texts() == Seq::<Seq<char>>::empty()
        },
    }
}

impl<'a> Parser<'a> {
    /// Parses the tokens to their end.
    fn build(self) -> (result: Result<Ast<'a>, Report>)
        requires
            self.wf(),
            self.fits(),
            self@ == (Progress { pos: 0, arena: seq![], errors: seq![] }),
            self.pos == 0,
            self.nodes@.len() == 0,
            self.report.warning_texts() == Seq::<Seq<char>>::empty(),
        ensures
            parsed(self.tokens, result),
    {
        let ghost all = grammar::module(self.toks(), 0, 0);
        let mut state = self;
        let root = state.module();
        proof {
            reveal(Parser::tidy);
            assert(state@.arena =~= all.nodes);
            assert(state@.errors =~= all.errors);
        }
        if state.report.ok() {
            Ok(Ast { tokens: state.tokens, nodes: state.nodes, root })
        } else {
            Err(state.report)
        }
    }
}

/// Parses `tokens`, the tokens of `src`, into a syntax tree.
pub fn parse<'a>(src: &'a str, tokens: &'a TokenStream<'a>) -> (result: Result<Ast<'a>, Report>)
    requires
        tokens.terminated(),
        tokens.tokens@.len() <= MAX_TOKENS,
    ensures
        parsed(tokens, result),
{
    Parser::new(src, tokens).build()
}

/// Parsing is a function of the tokens: two parses of the same tokens give
/// the same tree, or the same diagnostics.
pub proof fn lemma_parse_deterministic(
    first: &TokenStream,
    second: &TokenStream,
    a: Result<Ast, Report>,
    b: Result<Ast, Report>,
)
    requires
        first.tokens@ == second.tokens@,
        parsed(first, a),
        parsed(second, b),
    ensures
        match (a, b) {
            (Ok(x), Ok(y)) => x.arena() == y.arena() && x.root == y.root,
            (Err(x), Err(y)) => x.error_texts() == y.error_texts() && x.warning_texts()
                == y.warning_texts(),
            _ => false,
        },
{
}

/// A tree that would hold a placeholder is not handed out: the parse gives
/// the diagnostics instead.
pub proof fn lemma_placeholder_fails(tokens: &TokenStream, result: Result<Ast, Report>)
    requires
        parsed(tokens, result),
        !sound(grammar::module(tokens.tokens@, 0, 0).nodes),
    ensures
        result is Err,
{
}

/// An expression in parentheses whose `)` is not there is replaced by a
/// placeholder, and the diagnostic for the missing `)` is recorded.
pub proof fn lemma_unclosed_group(toks: Seq<Token>, pos: nat, base: nat)
    requires
        kind_at(toks, pos) == TT::LParen,
        kind_at(toks, pos + 1 + grammar::expression(toks, pos + 1, base).used) != TT::RParen,
    ensures
        ({
            let inner = grammar::expression(toks, pos + 1, base);
            let group = grammar::primary(toks, pos, base);
            &&& group.used == 1 + inner.used
            &&& group.nodes == inner.nodes.push(NodeView::Error)
            &&& group.at == handle(base + inner.nodes.len())
            &&& group.errors == inner.errors.push(
                grammar::expected_text("')'"@, token_at(toks, pos + 1 + inner.used)),
            )
        }),
{
    reveal(grammar::primary);
    reveal(grammar::expression);
    reveal(then);
    let inner = grammar::expression(toks, pos + 1, base);
    let group = grammar::primary(toks, pos, base);
    assert(group.nodes =~= inner.nodes.push(NodeView::Error));
    assert(group.errors =~= inner.errors.push(
        grammar::expected_text("')'"@, token_at(toks, pos + 1 + inner.used)),
    ));
}

} // verus!
