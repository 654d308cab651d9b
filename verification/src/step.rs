use crate::parse::{NodeIndex, NodeView};
use vstd::prelude::*;

verus! {

/// What a production does, seen from where it starts: how many tokens it
/// consumes, the nodes it adds to the arena, the diagnostics it records, and
/// the handle of the node it stands for.
pub struct Step {
    pub used: nat,
    pub nodes: Seq<NodeView>,
    pub errors: Seq<Seq<char>>,
    pub at: NodeIndex,
}

/// The handle of the node at index `i` of the arena.
pub open spec fn handle(i: nat) -> NodeIndex {
    NodeIndex(i as u32)
}

/// Consuming `n` tokens and nothing else.
pub open spec fn taken(n: nat) -> Step {
    Step { used: n, nodes: seq![], errors: seq![], at: handle(0) }
}

/// Doing nothing, and standing for the node `at`.
pub open spec fn stay(at: NodeIndex) -> Step {
    Step { used: 0, nodes: seq![], errors: seq![], at }
}

/// Adding `node` at index `at` of the arena, and standing for it.
pub open spec fn node(node: NodeView, at: nat) -> Step {
    Step { used: 0, nodes: seq![node], errors: seq![], at: handle(at) }
}

/// Recording the diagnostic `msg`.
pub open spec fn said(msg: Seq<char>) -> Step {
    Step { used: 0, nodes: seq![], errors: seq![msg], at: handle(0) }
}

/// `a`, then `b`; the whole stands for what `b` stands for.
#[verifier::opaque]
pub open spec fn then(a: Step, b: Step) -> Step {
    Step {
        used: a.used + b.used,
        nodes: a.nodes + b.nodes,
        errors: a.errors + b.errors,
        at: b.at,
    }
}

/// What a composed step consumes and adds is the sum of its parts, and it
/// stands for what its second part stands for.
pub broadcast proof fn lemma_then_parts(a: Step, b: Step)
    ensures
        (#[trigger] then(a, b)).used == a.used + b.used,
        then(a, b).nodes.len() == a.nodes.len() + b.nodes.len(),
        then(a, b).errors.len() == a.errors.len() + b.errors.len(),
        then(a, b).at == b.at,
{
    reveal(then);
}

/// `p`, then `n` more tokens consumed.
pub open spec fn skip(p: Step, n: nat) -> Step {
    then(p, taken(n))
}

/// `p`, then `view` added to an arena that held `base` nodes before `p`;
/// the whole stands for the node added.
pub open spec fn close(p: Step, view: NodeView, base: nat) -> Step {
    then(p, node(view, base + p.nodes.len()))
}

/// `p`, then the diagnostic `msg` recorded.
pub open spec fn complain(p: Step, msg: Seq<char>) -> Step {
    then(p, said(msg))
}

} // verus!
