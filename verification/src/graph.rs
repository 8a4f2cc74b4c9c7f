//! The directed graph that validation builds, and what is claimed of the
//! graph library that holds it.

use vstd::prelude::*;

verus! {

/// `petgraph::graph::Graph`, carried around as an opaque value; `graph_nodes`
/// and `graph_edges` name what it holds.
#[verifier::external_type_specification]
#[verifier::external_body]
#[verifier::reject_recursive_types(N)]
#[verifier::reject_recursive_types(E)]
#[verifier::reject_recursive_types(Ty)]
#[verifier::reject_recursive_types(Ix)]
pub struct ExGraph<N, E, Ty, Ix>(petgraph::graph::Graph<N, E, Ty, Ix>);

/// `petgraph::Directed`, the marker of directed graphs.
#[verifier::external_type_specification]
#[verifier::external_body]
pub struct ExDirected(petgraph::Directed);

/// The graph type of this crate: a directed graph whose nodes carry a
/// display name and whose edges carry nothing. Nodes and edges are numbered
/// by `usize`, so that the graph has no limit on their count below that of
/// memory.
pub type DepGraph = petgraph::graph::Graph<&'static str, (), petgraph::Directed, usize>;

/// The names that the nodes of a graph carry, by node number.
pub uninterp spec fn graph_nodes(
    graph: petgraph::graph::Graph<&'static str, (), petgraph::Directed, usize>,
) -> Seq<Seq<char>>;

/// The edges of a graph as pairs of node numbers, source first, in the order
/// in which they were added.
pub uninterp spec fn graph_edges(
    graph: petgraph::graph::Graph<&'static str, (), petgraph::Directed, usize>,
) -> Seq<(int, int)>;

/// The text that `petgraph` writes for a graph with these nodes and edges,
/// with edge labels switched off.
pub uninterp spec fn dot_text(nodes: Seq<Seq<char>>, edges: Seq<(int, int)>) -> Seq<char>;

/// `walk` follows edges of `edges` from its first node to its last.
pub open spec fn is_walk(edges: Seq<(int, int)>, walk: Seq<int>) -> bool {
    &&& walk.len() >= 2
    &&& forall|k: int|
        0 <= k < walk.len() - 1 ==> edges.contains((#[trigger] walk[k], walk[k + 1]))
}

/// `node` lies on a cycle: some walk of at least one edge leads from it back
/// to itself.
pub open spec fn on_cycle(edges: Seq<(int, int)>, node: int) -> bool {
    exists|walk: Seq<int>| #[trigger]
        is_walk(edges, walk) && walk.first() == node && walk.last() == node
}

/// Some node lies on a cycle.
pub open spec fn has_cycle(edges: Seq<(int, int)>) -> bool {
    exists|node: int| #[trigger] on_cycle(edges, node)
}

/// `order` lists each of the `count` nodes, each before all of its
/// successors.
pub open spec fn is_topological(order: Seq<int>, count: nat, edges: Seq<(int, int)>) -> bool {
    &&& order.len() == count
    &&& forall|node: int| 0 <= node < count ==> #[trigger] order.contains(node)
    &&& forall|i: int, j: int|
        0 <= i < order.len() && 0 <= j < order.len() && edges.contains(
            (#[trigger] order[i], #[trigger] order[j]),
        ) ==> i < j
}

/// The node numbers of `order`, as integers.
pub open spec fn as_ints(order: Seq<usize>) -> Seq<int> {
    Seq::new(order.len(), |i: int| order[i] as int)
}

/// What a topological sort says of a graph with `count` nodes and these
/// edges: an order if there is no cycle, else one node on a cycle.
pub open spec fn is_verdict(
    verdict: Result<Vec<usize>, usize>,
    count: nat,
    edges: Seq<(int, int)>,
) -> bool {
    match verdict {
        Ok(order) => is_topological(as_ints(order@), count, edges),
        Err(node) => node < count && on_cycle(edges, node as int),
    }
}

/// `Graph::with_capacity`: a graph without nodes and edges.
#[verifier::external_body]
pub(crate) fn graph_new() -> (graph: DepGraph)
    ensures
        graph_nodes(graph) == Seq::<Seq<char>>::empty(),
        graph_edges(graph) == Seq::<(int, int)>::empty(),
{
    petgraph::graph::Graph::with_capacity(0, 0)
}

/// `Graph::add_node`: the new node gets the next free number and carries
/// `name`; the other nodes and the edges stay as they were.
#[verifier::external_body]
pub(crate) fn graph_add_node(graph: &mut DepGraph, name: &'static str) -> (node: usize)
    ensures
        node == graph_nodes(*old(graph)).len(),
        graph_nodes(*final(graph)) == graph_nodes(*old(graph)).push(name@),
        graph_edges(*final(graph)) == graph_edges(*old(graph)),
{
    graph.add_node(name).index()
}

/// `Graph::add_edge`: one more edge, from `from` to `to`, also where such an
/// edge exists already. Both nodes must exist, else the call panics.
#[verifier::external_body]
pub(crate) fn graph_add_edge(graph: &mut DepGraph, from: usize, to: usize)
    requires
        from < graph_nodes(*old(graph)).len(),
        to < graph_nodes(*old(graph)).len(),
    ensures
        graph_nodes(*final(graph)) == graph_nodes(*old(graph)),
        graph_edges(*final(graph)) == graph_edges(*old(graph)).push((from as int, to as int)),
{
    graph.add_edge(petgraph::graph::NodeIndex::new(from), petgraph::graph::NodeIndex::new(to), ());
}

/// `Graph::node_weight`: the name of `node`, or `None` where the graph has no
/// such node.
#[verifier::external_body]
pub(crate) fn graph_node_name(graph: &DepGraph, node: usize) -> (name: Option<&'static str>)
    ensures
        name is Some == (node < graph_nodes(*graph).len()),
        name is Some ==> name->0@ == graph_nodes(*graph)[node as int],
{
    graph.node_weight(petgraph::graph::NodeIndex::new(node)).copied()
}

/// `Graph::clear`: afterwards the graph has neither nodes nor edges.
#[verifier::external_body]
pub(crate) fn graph_clear(graph: &mut DepGraph)
    ensures
        graph_nodes(*final(graph)) == Seq::<Seq<char>>::empty(),
        graph_edges(*final(graph)) == Seq::<(int, int)>::empty(),
{
    graph.clear();
}

/// `petgraph::algo::toposort`: for a graph without a cycle, its nodes in an
/// order in which each comes before its successors; else one node that takes
/// part in a cycle. An edge from a node to itself is a cycle.
#[verifier::external_body]
pub(crate) fn graph_toposort(graph: &DepGraph) -> (verdict: Result<Vec<usize>, usize>)
    ensures
        is_verdict(verdict, graph_nodes(*graph).len(), graph_edges(*graph)),
{
    match petgraph::algo::toposort(graph, None) {
        Ok(order) => Ok(order.into_iter().map(|node| node.index()).collect()),
        Err(cycle) => Err(cycle.node_id().index()),
    }
}

/// `petgraph::dot::Dot` with `Config::EdgeNoLabel`, written with `{:?}`: a
/// text that depends on the nodes and edges of the graph alone.
#[verifier::external_body]
pub(crate) fn graph_dot(graph: &DepGraph) -> (text: String)
    ensures
        text@ == dot_text(graph_nodes(*graph), graph_edges(*graph)),
{
    format!("{:?}", petgraph::dot::Dot::with_config(graph, &[petgraph::dot::Config::EdgeNoLabel]))
}

} // verus!
