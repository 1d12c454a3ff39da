//! Distances between regions of a map, measured in borders crossed, as a graph of `petgraph`.
use crate::geo::map::first_region_with_key;
use crate::geo::{MapView, RegionKey, WorldMap};
use vstd::prelude::*;

verus! {

/// The graph of a map: one node per region, in map order, and one edge per border.
pub type RegionGraph = petgraph::Graph<(), (), petgraph::Undirected, usize>;

#[verifier::external_type_specification]
#[verifier::external_body]
#[verifier::reject_recursive_types(N)]
#[verifier::reject_recursive_types(E)]
#[verifier::reject_recursive_types(Ty)]
#[verifier::reject_recursive_types(Ix)]
pub struct ExGraph<N, E, Ty, Ix>(petgraph::Graph<N, E, Ty, Ix>);

#[verifier::external_type_specification]
#[verifier::external_body]
pub struct ExUndirected(petgraph::Undirected);

/// The number of nodes of a graph.
pub uninterp spec fn graph_node_count(g: RegionGraph) -> nat;

/// The edges of a graph, as pairs of node positions, in the order they were added.
pub uninterp spec fn graph_edges(g: RegionGraph) -> Seq<(usize, usize)>;

/// An empty undirected graph.
///
/// Calls `petgraph::Graph::with_capacity`, which, by its source, makes a graph with no nodes
/// and no edges.
#[verifier::external_body]
fn new_graph() -> (g: RegionGraph)
    ensures
        graph_node_count(g) == 0,
        graph_edges(g) == Seq::<(usize, usize)>::empty(),
{
    petgraph::Graph::with_capacity(0, 0)
}

/// Add a node to the graph and return its position.
///
/// Calls `petgraph::Graph::add_node`, which, by its source, pushes one node, leaves the edges
/// as they were, and returns the position of the new node (it never panics with `usize`
/// indices).
#[verifier::external_body]
fn add_node(g: &mut RegionGraph) -> (r: usize)
    requires
        graph_node_count(*old(g)) < usize::MAX,
    ensures
        r == graph_node_count(*old(g)),
        graph_node_count(*final(g)) == graph_node_count(*old(g)) + 1,
        graph_edges(*final(g)) == graph_edges(*old(g)),
{
    g.add_node(()).index()
}

/// Add an edge between two nodes of the graph.
///
/// Calls `petgraph::Graph::add_edge`, which, by its source, appends one edge and leaves the
/// nodes as they were; it panics when either node is not in the graph, which `requires`
/// rules out.
#[verifier::external_body]
fn add_edge(g: &mut RegionGraph, a: usize, b: usize)
    requires
        a < graph_node_count(*old(g)),
        b < graph_node_count(*old(g)),
        graph_edges(*old(g)).len() < usize::MAX,
    ensures
        graph_node_count(*final(g)) == graph_node_count(*old(g)),
        graph_edges(*final(g)) == graph_edges(*old(g)).push((a, b)),
{
    g.add_edge(petgraph::graph::NodeIndex::new(a), petgraph::graph::NodeIndex::new(b), ());
}

/// Whether node positions `a` and `b` are joined by an edge, in either direction.
pub open spec fn adjacent_nodes(edges: Seq<(usize, usize)>, a: int, b: int) -> bool {
    exists|k: int| 0 <= k < edges.len() && (#[trigger] edges[k] == (a as usize, b as usize) || edges[k] == (b as usize, a as usize))
}

/// Whether some walk of at most `k` edges leads from node `from` to node `to`.
pub open spec fn walk_within(edges: Seq<(usize, usize)>, from: int, to: int, k: nat) -> bool
    decreases k,
{
    from == to || (k > 0 && exists|mid: int| #[trigger] walk_within(edges, from, mid, (k - 1) as nat) && adjacent_nodes(edges, mid, to))
}

/// The length of a shortest walk between two nodes, each edge counting one.
///
/// Calls `petgraph::algo::dijkstra` with the goal node and unit edge costs. As its
/// documentation says, it computes the length of the shortest path from the start to every
/// reachable node and stops once the goal's cost is known; the goal is in the returned map
/// exactly when it is reachable. On an undirected graph every edge leads both ways.
#[verifier::external_body]
fn shortest_distance(g: &RegionGraph, from: usize, to: usize) -> (r: Option<usize>)
    requires
        from < graph_node_count(*g),
        to < graph_node_count(*g),
    ensures
        match r {
            Some(d) => walk_within(graph_edges(*g), from as int, to as int, d as nat) && forall|k: nat|
                k < d ==> !#[trigger] walk_within(graph_edges(*g), from as int, to as int, k),
            None => forall|k: nat| !#[trigger] walk_within(graph_edges(*g), from as int, to as int, k),
        },
{
    let start = petgraph::graph::NodeIndex::new(from);
    let goal = petgraph::graph::NodeIndex::new(to);
    petgraph::algo::dijkstra(g, start, Some(goal), |_| 1usize).get(&goal).copied()
}

/// The edges of a map's graph: for each border whose two regions are on the map, the
/// positions of those regions.
pub open spec fn map_edges(m: MapView) -> Seq<(usize, usize)> {
    m.borders.filter_map(
        |b: (crate::geo::RegionName, crate::geo::RegionName, crate::geo::Terrain)|
            match (first_region_with_key(m, b.0), first_region_with_key(m, b.1)) {
                (Some(a), Some(c)) => Some((a as usize, c as usize)),
                _ => None,
            },
    )
}

/// The position of a region on the map, if it is there.
pub fn region_index(map: &WorldMap, key: &RegionKey) -> (r: Option<usize>)
    ensures
        match r {
            Some(i) => first_region_with_key(map@, key@) == Some(i as int),
            None => first_region_with_key(map@, key@) is None,
        },
{
    let regions = map.regions();
    let mut i: usize = 0;
    while i < regions.len()
        invariant
            i <= regions@.len(),
            regions@.map_values(|r: crate::geo::Region| r@) == map@.regions,
            forall|j: int| 0 <= j < i ==> crate::geo::map::region_key_of(map@.regions[j]) != key@,
        decreases regions@.len() - i,
    {
        assert(map@.regions[i as int] == regions@[i as int]@);
        if regions[i].is_keyed_by(key) {
            proof {
                crate::geo::map::lemma_first_region_at(map@, key@, i as int);
            }
            return Some(i);
        }
        i = i + 1;
    }
    proof {
        crate::geo::map::lemma_no_region(map@, key@);
    }
    None
}

/// The graph of a map: one node per region, in map order, and an edge for each border whose
/// two regions are on the map.
pub fn map_graph(map: &WorldMap) -> (g: RegionGraph)
    requires
        map@.regions.len() < usize::MAX,
        map@.borders.len() < usize::MAX,
    ensures
        graph_node_count(g) == map@.regions.len(),
        graph_edges(g) == map_edges(map@),
{
    let mut g = new_graph();
    let regions = map.regions();
    let mut i: usize = 0;
    while i < regions.len()
        invariant
            i <= regions@.len(),
            regions@.len() == map@.regions.len(),
            map@.regions.len() < usize::MAX,
            graph_node_count(g) == i,
            graph_edges(g) == Seq::<(usize, usize)>::empty(),
        decreases regions@.len() - i,
    {
        add_node(&mut g);
        i = i + 1;
    }
    let borders = map.borders();
    let ghost bs = map@.borders;
    let ghost f = |b: (crate::geo::RegionName, crate::geo::RegionName, crate::geo::Terrain)|
        match (first_region_with_key(map@, b.0), first_region_with_key(map@, b.1)) {
            (Some(a), Some(c)) => Some((a as usize, c as usize)),
            _ => None,
        };
    let mut k: usize = 0;
    while k < borders.len()
        invariant
            k <= borders@.len(),
            borders@.map_values(|b: crate::geo::Border| b@) == bs,
            bs == map@.borders,
            bs.len() < usize::MAX,
            graph_node_count(g) == map@.regions.len(),
            forall|b: (crate::geo::RegionName, crate::geo::RegionName, crate::geo::Terrain)| #[trigger] f(b)
                == match (first_region_with_key(map@, b.0), first_region_with_key(map@, b.1)) {
                    (Some(a), Some(c)) => Some((a as usize, c as usize)),
                    _ => None,
                },
            graph_edges(g) == bs.take(k as int).filter_map(f),
            graph_edges(g).len() <= k,
        decreases borders@.len() - k,
    {
        let b = &borders[k];
        assert(bs[k as int] == b@);
        proof {
            crate::lemmas::lemma_filter_map_step(bs, k as int, f);
        }
        let (ra, rb) = b.regions();
        match (region_index(map, ra), region_index(map, rb)) {
            (Some(a), Some(c)) => {
                proof {
                    crate::geo::map::lemma_first_region_bound(map@, ra@);
                    crate::geo::map::lemma_first_region_bound(map@, rb@);
                }
                add_edge(&mut g, a, c);
            },
            _ => {},
        }
        k = k + 1;
    }
    proof {
        assert(bs.take(bs.len() as int) =~= bs);
    }
    g
}

/// The length of a shortest walk between two regions of the map's graph.
pub fn region_distance(g: &RegionGraph, from: usize, to: usize) -> (r: Option<usize>)
    requires
        from < graph_node_count(*g),
        to < graph_node_count(*g),
    ensures
        match r {
            Some(d) => walk_within(graph_edges(*g), from as int, to as int, d as nat) && forall|k: nat|
                k < d ==> !#[trigger] walk_within(graph_edges(*g), from as int, to as int, k),
            None => forall|k: nat| !#[trigger] walk_within(graph_edges(*g), from as int, to as int, k),
        },
{
    shortest_distance(g, from, to)
}

} // verus!
