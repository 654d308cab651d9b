use crate::parse::{Ast, Node, NodeIndex};
use crate::token::TokenStream;
use std::collections::HashMap;
use vstd::prelude::*;

verus! {

/// The handle of a type term: its index in the pool.
#[derive(Debug, Clone, Copy, PartialEq, Eq, Structural)]
pub struct TypeIndex(pub u32);

/// A type term.
#[derive(Debug, Clone, Copy)]
pub enum Type {
    /// The type variable of the given number.
    Var(u32),
    Int,
    Bool,
    /// The functions from the first type to the second.
    Fn(TypeIndex, TypeIndex),
}

/// The names in sight in one scope, each with the type it is bound to, if
/// that is known.
pub type Names<'a> = Map<&'a str, Option<TypeIndex>>;

/// The state of a binder run: the pool of type terms, the number of type
/// variables handed out, and the stack of scopes, the innermost last.
#[derive(Debug)]
pub struct Bindings<'a> {
    pool: Vec<Type>,
    count: u32,
    map: Vec<HashMap<&'a str, Option<TypeIndex>>>,
}

impl<'a> Bindings<'a> {
    /// The type terms of the pool.
    pub closed spec fn pool(&self) -> Seq<Type> {
        self.pool@
    }

    /// The number of type variables handed out.
    pub closed spec fn count(&self) -> u32 {
        self.count
    }

    /// The scopes, the innermost last.
    pub closed spec fn scopes(&self) -> Seq<Names<'a>> {
        Seq::new(self.map@.len(), |i: int| self.map@[i]@)
    }

    /// Starts with an empty pool and one scope, in which no name is bound.
    pub fn new() -> (bindings: Self)
        ensures
            bindings.pool() == Seq::<Type>::empty(),
            bindings.count() == 0,
            bindings.scopes() == seq![Map::<&'a str, Option<TypeIndex>>::empty()],
    {
        let mut map = Vec::new();
        map.push(HashMap::new());
        let bindings = Self { pool: Vec::new(), count: 0, map };
        assert(bindings.scopes() =~= seq![Map::<&'a str, Option<TypeIndex>>::empty()]);
        bindings
    }

    /// The number of scopes.
    pub fn depth(&self) -> (n: usize)
        ensures
            n == self.scopes().len(),
    {
        self.map.len()
    }

    /// The type term of the handle `index`.
    pub fn get(&self, index: TypeIndex) -> (term: &Type)
        requires
            index.0 < self.pool().len(),
        ensures
            *term == self.pool()[index.0 as int],
    {
        &self.pool[index.0 as usize]
    }

    /// The type term of the handle `index`, to be changed in place.
    pub fn get_mut(&mut self, index: TypeIndex) -> (term: &mut Type)
        requires
            index.0 < old(self).pool().len(),
        ensures
            *term == old(self).pool()[index.0 as int],
            final(self).pool() == old(self).pool().update(index.0 as int, *final(term)),
            final(self).count() == old(self).count(),
            final(self).scopes() == old(self).scopes(),
    {
        &mut self.pool[index.0 as usize]
    }

    /// Enters a scope: it starts as a copy of the one around it.
    pub fn scope_begin(&mut self)
        requires
            old(self).scopes().len() > 0,
        ensures
            final(self).scopes() == old(self).scopes().push(old(self).scopes().last()),
            final(self).pool() == old(self).pool(),
            final(self).count() == old(self).count(),
    {
        let last = self.map.len() - 1;
        let copy = self.map[last].clone();
        self.map.push(copy);
        assert(self.scopes() =~= old(self).scopes().push(old(self).scopes().last()));
    }

    /// Leaves the innermost scope, if there is one.
    pub fn scope_end(&mut self)
        ensures
            final(self).scopes() == if old(self).scopes().len() > 0 {
                old(self).scopes().drop_last()
            } else {
                old(self).scopes()
            },
            final(self).pool() == old(self).pool(),
            final(self).count() == old(self).count(),
    {
        self.map.pop();
        assert(self.scopes() =~= if old(self).scopes().len() > 0 {
            old(self).scopes().drop_last()
        } else {
            old(self).scopes()
        });
    }
}

/// Entering a scope and leaving it again restores the scopes that were in
/// sight before.
pub proof fn lemma_scope_restored<'a>(scopes: Seq<Names<'a>>)
    requires
        scopes.len() > 0,
    ensures
        scopes.push(scopes.last()).drop_last() == scopes,
        scopes.push(scopes.last()).last() == scopes.last(),
{
    assert(scopes.push(scopes.last()).drop_last() =~= scopes);
}

/// A syntax tree with a type term for each node.
#[derive(Debug)]
pub struct Tst<'a> {
    pub tokens: &'a TokenStream<'a>,
    pub nodes: Vec<Node<'a>>,
    pub root: NodeIndex,
    pub types: Vec<Type>,
}

impl<'a> Tst<'a> {
    /// The node of the handle `node`.
    pub fn get(&self, node: &NodeIndex) -> (found: &Node<'a>)
        requires
            node.0 < self.nodes@.len(),
        ensures
            *found == self.nodes@[node.0 as int],
    {
        &self.nodes[node.0 as usize]
    }
}

/// A syntax tree with the type term found so far for each node.
#[derive(Debug)]
pub struct Annotate<'a> {
    ast: Ast<'a>,
    types: Vec<Option<Type>>,
}

impl<'a> Annotate<'a> {
    /// The tree being annotated.
    pub closed spec fn ast(&self) -> Ast<'a> {
        self.ast
    }

    /// The type term found so far for each node.
    pub closed spec fn types(&self) -> Seq<Option<Type>> {
        self.types@
    }

    /// Starts with no type term found for any node.
    pub fn new(ast: Ast<'a>) -> (state: Self)
        ensures
            state.ast() == ast,
            state.types().len() == ast.nodes@.len(),
            forall|i: int| 0 <= i < state.types().len() ==> state.types()[i] is None,
    {
        let mut types: Vec<Option<Type>> = Vec::new();
        let mut i: usize = 0;
        while i < ast.nodes.len()
            invariant
                i <= ast.nodes@.len(),
                types@.len() == i,
                forall|k: int| 0 <= k < types@.len() ==> types@[k] is None,
            decreases ast.nodes@.len() - i,
        {
            types.push(None);
            i += 1;
        }
        Self { types, ast }
    }

    /// Puts a constraint on the node `index`. No constraint is drawn from
    /// any node yet.
    pub fn impost(&mut self, index: NodeIndex)
        ensures
            *final(self) == *old(self),
    {
    }

    /// Visits the node `index`. No node is given a type term yet.
    pub fn annotate(&mut self, index: NodeIndex)
        requires
            index.0 < old(self).ast().nodes@.len(),
        ensures
            *final(self) == *old(self),
    {
        let _node = self.ast.get(&index);
    }
}

/// Gives every node of `ast` a type variable of its own: the node of handle
/// `i` gets the variable of number `i`.
pub fn annotate<'a>(ast: Ast<'a>) -> (typed: Tst<'a>)
    requires
        ast.nodes@.len() <= u32::MAX + 1,
    ensures
        typed.tokens == ast.tokens,
        typed.nodes == ast.nodes,
        typed.root == ast.root,
        typed.types@.len() == ast.nodes@.len(),
        forall|i: int| 0 <= i < typed.types@.len() ==> typed.types@[i] == Type::Var(i as u32),
{
    let mut types: Vec<Type> = Vec::with_capacity(ast.nodes.len());
    let mut i: usize = 0;
    while i < ast.nodes.len()
        invariant
            i <= ast.nodes@.len() <= u32::MAX + 1,
            types@.len() == i,
            forall|k: int| 0 <= k < types@.len() ==> types@[k] == Type::Var(k as u32),
        decreases ast.nodes@.len() - i,
    {
        types.push(Type::Var(i as u32));
        i += 1;
    }
    Tst { tokens: ast.tokens, nodes: ast.nodes, root: ast.root, types }
}

} // verus!
