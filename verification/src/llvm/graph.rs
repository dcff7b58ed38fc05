//! The order in which the blocks of a function are lowered, taken from
//! `petgraph`.
//!
//! Nothing in this file is proved: the contract repeats what `petgraph`
//! documents and what the source of its traversal shows.
use vstd::prelude::*;
use super::ir::Edge;

verus! {

/// The nodes of the graph with the edges `edges` in the order in which a
/// depth-first search from node 0 comes to them.
pub uninterp spec fn dfs_preorder(edges: Seq<Edge>) -> Seq<usize>;

/// `Graph::from_edges` makes the directed graph of the edges, with a node
/// for every index up to the largest one named; it takes fewer edges and
/// nodes than a `u32` can count. `Dfs::new` starts a
/// search at node 0, and walking it with `Walker::iter` yields each node
/// that the search comes to, once and no node twice: node 0 first, and
/// then only nodes that an edge leads to.
#[verifier::external_body]
pub(crate) fn dfs_walk(edges: &Vec<Edge>) -> (r: Vec<usize>)
    requires
        0 < edges@.len() < u32::MAX,
        forall|j: int|
            0 <= j < edges@.len() ==> (#[trigger] edges@[j]).from < u32::MAX && edges@[j].to
                < u32::MAX,
    ensures
        r@ == dfs_preorder(edges@),
        r@.len() > 0 && r@[0] == 0,
        forall|k: int|
            0 <= k < r@.len() ==> (#[trigger] r@[k]) == 0 || exists|j: int|
                0 <= j < edges@.len() && r@[k] == (#[trigger] edges@[j]).to,
        r@.no_duplicates(),
{
    let g = petgraph::graph::DiGraph::<(), ()>::from_edges(edges.iter().map(|e| (e.from, e.to)));
    let dfs = petgraph::visit::Dfs::new(&g, petgraph::graph::NodeIndex::new(0));
    petgraph::visit::Walker::iter(dfs, &g).map(|n| n.index()).collect()
}

} // verus!
