//! The adjacency graph of the edge-list automaton: petgraph's `DiGraphMap`
//! over integer node identifiers and integer edge weights, seen through two
//! names, the node set and the edge map.

use vstd::prelude::*;

use petgraph::graphmap::{DiGraphMap, GraphMap};
use petgraph::Directed;

verus! {

#[verifier::external_type_specification]
#[verifier::external_body]
#[verifier::reject_recursive_types(N)]
#[verifier::reject_recursive_types(E)]
#[verifier::reject_recursive_types(Ty)]
#[verifier::reject_recursive_types(S)]
pub struct ExGraphMap<N, E, Ty, S: std::hash::BuildHasher>(GraphMap<N, E, Ty, S>);

#[verifier::external_type_specification]
#[verifier::external_body]
pub struct ExDirected(Directed);

/// A directed graph over integer node identifiers with integer edge weights.
pub type AdjacencyGraph = DiGraphMap<u64, u64>;

/// The nodes that a graph holds.
pub uninterp spec fn graph_nodes(g: AdjacencyGraph) -> Set<u64>;

/// The edges that a graph holds: each (source, destination) pair with its weight.
pub uninterp spec fn graph_edges(g: AdjacencyGraph) -> Map<(u64, u64), u64>;

/// Relies on `GraphMap::new`: a new graph has no nodes and no edges.
#[verifier::external_body]
pub(crate) fn graph_new() -> (r: AdjacencyGraph)
    ensures
        graph_nodes(r).is_empty(),
        graph_edges(r).dom().is_empty(),
{
    DiGraphMap::new()
}

/// Relies on `GraphMap::add_node`: inserts the node if absent, leaves the
/// edges alone, and returns the node it was given.
#[verifier::external_body]
pub(crate) fn graph_add_node(g: &mut AdjacencyGraph, n: u64) -> (r: u64)
    ensures
        r == n,
        graph_nodes(*final(g)) == graph_nodes(*old(g)).insert(n),
        graph_edges(*final(g)) == graph_edges(*old(g)),
{
    g.add_node(n)
}

/// Relies on `GraphMap::add_edge`: inserts both end nodes, sets the weight of
/// the edge from `a` to `b` (one edge per ordered pair), and returns the weight
/// it replaced, if any.
#[verifier::external_body]
pub(crate) fn graph_add_edge(g: &mut AdjacencyGraph, a: u64, b: u64, w: u64) -> (r: Option<u64>)
    ensures
        graph_nodes(*final(g)) == graph_nodes(*old(g)).insert(a).insert(b),
        graph_edges(*final(g)) == graph_edges(*old(g)).insert((a, b), w),
        r == (if graph_edges(*old(g)).contains_key((a, b)) {
            Some(graph_edges(*old(g))[(a, b)])
        } else {
            None
        }),
{
    g.add_edge(a, b, w)
}

/// Relies on `GraphMap::neighbors_directed` in the outgoing direction: each
/// node `b` with an edge from `a` to `b`, once.
#[verifier::external_body]
pub(crate) fn graph_successors(g: &AdjacencyGraph, a: u64) -> (r: Vec<u64>)
    ensures
        r@.no_duplicates(),
        forall|b: u64| r@.contains(b) <==> graph_edges(*g).contains_key((a, b)),
{
    g.neighbors_directed(a, petgraph::Direction::Outgoing).collect()
}

} // verus!
