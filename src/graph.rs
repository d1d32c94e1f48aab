//! The state graph is a petgraph `Graph`; these items are all that the
//! builder asks of it. Its contents are named by `graph_nodes` and
//! `graph_edges`, in index order.

use vstd::prelude::*;

use petgraph::graph::{Graph, NodeIndex};

use crate::game::ActionEdge;
use crate::state::{GameState, GameStateView};

verus! {

#[verifier::external_type_specification]
#[verifier::external_body]
#[verifier::reject_recursive_types(N)]
#[verifier::reject_recursive_types(E)]
#[verifier::reject_recursive_types(Ty)]
#[verifier::reject_recursive_types(Ix)]
pub struct ExGraph<N, E, Ty, Ix>(Graph<N, E, Ty, Ix>);

#[verifier::external_type_specification]
#[verifier::external_body]
pub struct ExDirected(petgraph::Directed);

/// Node indices and edge indices are `u32`: a graph holds fewer than this
/// many nodes, and fewer than this many edges.
pub const INDEX_END: usize = 4294967295;

/// The state of each node, by node index.
pub uninterp spec fn graph_nodes(g: Graph<GameState, ActionEdge>) -> Seq<GameStateView>;

/// Each edge as (source, target, label), by edge index.
pub uninterp spec fn graph_edges(g: Graph<GameState, ActionEdge>) -> Seq<(nat, nat, ActionEdge)>;

/// Relies on petgraph's `Graph::new`: a graph with no node and no edge.
#[verifier::external_body]
pub(crate) fn new_graph() -> (g: Graph<GameState, ActionEdge>)
    ensures
        graph_nodes(g) == Seq::<GameStateView>::empty(),
        graph_edges(g) == Seq::<(nat, nat, ActionEdge)>::empty(),
{
    Graph::new()
}

/// Relies on petgraph's `Graph::add_node`: the state becomes the node of
/// the next index, which is returned; it panics once `u32` indices run out.
#[verifier::external_body]
pub(crate) fn add_state(g: &mut Graph<GameState, ActionEdge>, s: GameState) -> (r: usize)
    requires
        graph_nodes(*old(g)).len() < INDEX_END,
    ensures
        r == graph_nodes(*old(g)).len(),
        graph_nodes(*final(g)) == graph_nodes(*old(g)).push(s@),
        graph_edges(*final(g)) == graph_edges(*old(g)),
{
    g.add_node(s).index()
}

/// Relies on petgraph's `Graph::add_edge`: the edge from `a` to `b` becomes
/// the edge of the next index; it panics where a node does not exist or
/// `u32` indices run out.
#[verifier::external_body]
pub(crate) fn add_action_edge(g: &mut Graph<GameState, ActionEdge>, a: usize, b: usize, e: ActionEdge)
    requires
        a < graph_nodes(*old(g)).len(),
        b < graph_nodes(*old(g)).len(),
        graph_edges(*old(g)).len() < INDEX_END,
    ensures
        graph_nodes(*final(g)) == graph_nodes(*old(g)),
        graph_edges(*final(g)) == graph_edges(*old(g)).push((a as nat, b as nat, e)),
{
    g.add_edge(NodeIndex::new(a), NodeIndex::new(b), e);
}

/// Relies on petgraph's indexing of a `Graph` by node: the state of node `i`.
#[verifier::external_body]
pub(crate) fn state_at(g: &Graph<GameState, ActionEdge>, i: usize) -> (r: &GameState)
    requires
        i < graph_nodes(*g).len(),
    ensures
        r@ == graph_nodes(*g)[i as int],
{
    &g[NodeIndex::new(i)]
}

/// Relies on petgraph's `Graph::raw_edges`: the source, target and label of
/// edge `k`.
#[verifier::external_body]
pub(crate) fn edge_at(g: &Graph<GameState, ActionEdge>, k: usize) -> (r: (usize, usize, ActionEdge))
    requires
        k < graph_edges(*g).len(),
    ensures
        (r.0 as nat, r.1 as nat, r.2) == graph_edges(*g)[k as int],
{
    let e = &g.raw_edges()[k];
    (e.source().index(), e.target().index(), e.weight)
}

/// Relies on petgraph's `Graph::node_count`.
#[verifier::external_body]
pub(crate) fn node_count(g: &Graph<GameState, ActionEdge>) -> (r: usize)
    ensures
        r == graph_nodes(*g).len(),
{
    g.node_count()
}

/// Relies on petgraph's `Graph::edge_count`.
#[verifier::external_body]
pub(crate) fn edge_count(g: &Graph<GameState, ActionEdge>) -> (r: usize)
    ensures
        r == graph_edges(*g).len(),
{
    g.edge_count()
}

} // verus!
