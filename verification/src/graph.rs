use vstd::prelude::*;
use petgraph::graph::{Graph, NodeIndex};
use petgraph::visit::EdgeRef;
use petgraph::Direction;
use crate::error::Ciboulette2SqlError;
use crate::model::{CibouletteRelationshipOption, CibouletteResourceType};
use crate::text::str_eq;

verus! {

#[verifier::external_type_specification]
#[verifier::external_body]
#[verifier::reject_recursive_types(N)]
#[verifier::reject_recursive_types(E)]
#[verifier::reject_recursive_types(Ty)]
#[verifier::reject_recursive_types(Ix)]
pub struct ExGraph<N, E, Ty, Ix>(Graph<N, E, Ty, Ix>);

#[verifier::external_type_specification]
#[verifier::external_body]
pub struct ExDirected(petgraph::Directed);

/// The node weights of a relationship graph, by node index.
pub uninterp spec fn graph_nodes(g: Graph<CibouletteResourceType, CibouletteRelationshipOption>) -> Seq<CibouletteResourceType>;

/// The edges of a relationship graph, by edge index: source node, target node, weight.
pub uninterp spec fn graph_edges(g: Graph<CibouletteResourceType, CibouletteRelationshipOption>) -> Seq<(usize, usize, CibouletteRelationshipOption)>;

/// The edges that leave node `a` of a relationship graph, as (edge index, target node), in
/// the order in which the graph lists them.
pub uninterp spec fn graph_outgoing(g: Graph<CibouletteResourceType, CibouletteRelationshipOption>, a: usize) -> Seq<(usize, usize)>;

/// The edges that leave node `a`, as (edge index, target node), the most recently added
/// first.
pub open spec fn spec_outgoing(edges: Seq<(usize, usize, CibouletteRelationshipOption)>, a: usize) -> Seq<(usize, usize)>
    decreases edges.len(),
{
    if edges.len() == 0 {
        Seq::empty()
    } else {
        let rest = spec_outgoing(edges.drop_last(), a);
        if edges.last().0 == a {
            seq![((edges.len() - 1) as usize, edges.last().1)] + rest
        } else {
            rest
        }
    }
}

/// `Graph::new`: a graph without nodes or edges, so no node has an outgoing edge.
#[verifier::external_body]
fn graph_new() -> (g: Graph<CibouletteResourceType, CibouletteRelationshipOption>)
    ensures
        graph_nodes(g) == Seq::<CibouletteResourceType>::empty(),
        graph_edges(g) == Seq::<(usize, usize, CibouletteRelationshipOption)>::empty(),
        forall|x: usize| #[trigger] graph_outgoing(g, x) == Seq::<(usize, usize)>::empty(),
{
    Graph::new()
}

/// `Graph::node_count`: the number of nodes.
#[verifier::external_body]
fn graph_node_count(g: &Graph<CibouletteResourceType, CibouletteRelationshipOption>) -> (n: usize)
    ensures
        n == graph_nodes(*g).len(),
{
    g.node_count()
}

/// `Graph::add_node`: appends a node of weight `w`, whose index is the former node count.
/// The new node has no outgoing edge (as a missing node had none), and those of the other
/// nodes are unchanged. It panics when the count reaches the largest `u32`, which
/// `requires` rules out.
#[verifier::external_body]
fn graph_add_node(
    g: &mut Graph<CibouletteResourceType, CibouletteRelationshipOption>,
    w: CibouletteResourceType,
) -> (i: usize)
    requires
        graph_nodes(*old(g)).len() < u32::MAX,
    ensures
        graph_nodes(*final(g)) == graph_nodes(*old(g)).push(w),
        graph_edges(*final(g)) == graph_edges(*old(g)),
        forall|x: usize| #[trigger] graph_outgoing(*final(g), x) == graph_outgoing(*old(g), x),
        i == graph_nodes(*old(g)).len(),
    no_unwind
{
    g.add_node(w).index()
}

/// `Graph::add_edge`: appends an edge from `a` to `b` of weight `w`, whose index is the
/// former edge count; it is put at the head of the outgoing edges of `a`, and those of the
/// other nodes are unchanged. It panics when a node does not exist or when the count
/// reaches the largest `u32`, which `requires` rules out.
#[verifier::external_body]
fn graph_add_edge(
    g: &mut Graph<CibouletteResourceType, CibouletteRelationshipOption>,
    a: usize,
    b: usize,
    w: CibouletteRelationshipOption,
) -> (i: usize)
    requires
        a < graph_nodes(*old(g)).len(),
        b < graph_nodes(*old(g)).len(),
        graph_nodes(*old(g)).len() <= u32::MAX,
        graph_edges(*old(g)).len() < u32::MAX,
    ensures
        graph_nodes(*final(g)) == graph_nodes(*old(g)),
        graph_edges(*final(g)) == graph_edges(*old(g)).push((a, b, w)),
        forall|x: usize|
            #[trigger] graph_outgoing(*final(g), x) == if x == a {
                seq![(i, b)] + graph_outgoing(*old(g), a)
            } else {
                graph_outgoing(*old(g), x)
            },
        i == graph_edges(*old(g)).len(),
    no_unwind
{
    g.add_edge(NodeIndex::new(a), NodeIndex::new(b), w).index()
}

/// `Graph::node_weight`: the weight of node `a`, if it exists.
#[verifier::external_body]
fn graph_node_weight(
    g: &Graph<CibouletteResourceType, CibouletteRelationshipOption>,
    a: usize,
) -> (r: Option<&CibouletteResourceType>)
    requires
        a <= u32::MAX,
    ensures
        r is Some <==> a < graph_nodes(*g).len(),
        r matches Some(w) ==> *w == graph_nodes(*g)[a as int],
{
    g.node_weight(NodeIndex::new(a))
}

/// `Graph::edge_weight`: the weight of edge `e`, if it exists.
#[verifier::external_body]
fn graph_edge_weight(
    g: &Graph<CibouletteResourceType, CibouletteRelationshipOption>,
    e: usize,
) -> (r: Option<&CibouletteRelationshipOption>)
    requires
        e <= u32::MAX,
    ensures
        r is Some <==> e < graph_edges(*g).len(),
        r matches Some(w) ==> *w == graph_edges(*g)[e as int].2,
{
    g.edge_weight(petgraph::graph::EdgeIndex::new(e))
}

/// `Graph::edges_directed` with `Outgoing`: the edges that leave node `a`, as (edge index,
/// target node), in the order of the list of outgoing edges that the graph keeps.
#[verifier::external_body]
fn graph_outgoing_edges(
    g: &Graph<CibouletteResourceType, CibouletteRelationshipOption>,
    a: usize,
) -> (r: Vec<(usize, usize)>)
    requires
        a < graph_nodes(*g).len(),
        graph_nodes(*g).len() <= u32::MAX,
    ensures
        r@ == graph_outgoing(*g, a),
{
    g.edges_directed(NodeIndex::new(a), Direction::Outgoing).map(|e| (e.id().index(), e.target().index())).collect()
}

/// What a store holds: its resource types by node index, and the relationships between
/// them as edges (source, target, relationship).
pub struct StoreView {
    pub nodes: Seq<CibouletteResourceType>,
    pub edges: Seq<(usize, usize, CibouletteRelationshipOption)>,
}

/// Whether every resource type of a store keeps its maps ordered.
pub open spec fn store_types_wf(sv: StoreView) -> bool {
    forall|i: int| 0 <= i < sv.nodes.len() ==> (#[trigger] sv.nodes[i]).wf()
}

/// The resource types and the relationships between them.
pub struct CibouletteStore {
    graph: Graph<CibouletteResourceType, CibouletteRelationshipOption>,
}

impl View for CibouletteStore {
    type V = StoreView;

    closed spec fn view(&self) -> StoreView {
        StoreView { nodes: graph_nodes(self.graph), edges: graph_edges(self.graph) }
    }
}

/// The first node whose type is named `name`.
pub open spec fn spec_find_type(nodes: Seq<CibouletteResourceType>, name: Seq<char>) -> Option<int>
    decreases nodes.len(),
{
    if nodes.len() == 0 {
        None
    } else {
        match spec_find_type(nodes.drop_last(), name) {
            Some(i) => Some(i),
            None => if nodes.last().name@ == name {
                Some(nodes.len() - 1)
            } else {
                None
            },
        }
    }
}

proof fn lemma_find_type_prefix(nodes: Seq<CibouletteResourceType>, name: Seq<char>, j: int)
    requires
        0 <= j <= nodes.len(),
        spec_find_type(nodes.take(j), name) is Some,
    ensures
        spec_find_type(nodes, name) == spec_find_type(nodes.take(j), name),
    decreases nodes.len() - j,
{
    if j < nodes.len() {
        assert(nodes.take(j + 1).drop_last() =~= nodes.take(j));
        lemma_find_type_prefix(nodes, name, j + 1);
    } else {
        assert(nodes.take(j) =~= nodes);
    }
}

pub proof fn lemma_find_type_bounds(nodes: Seq<CibouletteResourceType>, name: Seq<char>)
    ensures
        spec_find_type(nodes, name) matches Some(i) ==> 0 <= i < nodes.len() && nodes[i].name@ == name,
    decreases nodes.len(),
{
    if nodes.len() > 0 {
        lemma_find_type_bounds(nodes.drop_last(), name);
    }
}

/// The edges that leave a node go to existing nodes.
pub proof fn lemma_outgoing_bounds(
    edges: Seq<(usize, usize, CibouletteRelationshipOption)>,
    a: usize,
    n: nat,
)
    requires
        edges.len() < u32::MAX,
        forall|i: int| 0 <= i < edges.len() ==> (#[trigger] edges[i]).0 < n && edges[i].1 < n,
    ensures
        forall|k: int|
            0 <= k < spec_outgoing(edges, a).len() ==> {
                let p = #[trigger] spec_outgoing(edges, a)[k];
                &&& p.0 < edges.len()
                &&& p.1 < n
                &&& edges[p.0 as int].0 == a
                &&& edges[p.0 as int].1 == p.1
            },
    decreases edges.len(),
{
    if edges.len() > 0 {
        assert forall|i: int| 0 <= i < edges.drop_last().len() implies (#[trigger] edges.drop_last()[i]).0 < n
            && edges.drop_last()[i].1 < n by {
            assert(edges.drop_last()[i] == edges[i]);
        }
        lemma_outgoing_bounds(edges.drop_last(), a, n);
        let rest = spec_outgoing(edges.drop_last(), a);
        assert forall|k: int| 0 <= k < spec_outgoing(edges, a).len() implies {
            let p = #[trigger] spec_outgoing(edges, a)[k];
            &&& p.0 < edges.len()
            &&& p.1 < n
            &&& edges[p.0 as int].0 == a
            &&& edges[p.0 as int].1 == p.1
        } by {
            let d = edges.drop_last();
            if edges.last().0 == a {
                if k > 0 {
                    let p = rest[k - 1];
                    assert(spec_outgoing(edges, a)[k] == p);
                    assert(d[p.0 as int] == edges[p.0 as int]);
                } else {
                    assert(edges[edges.len() - 1] == edges.last());
                }
            } else {
                let p = rest[k];
                assert(spec_outgoing(edges, a)[k] == p);
                assert(d[p.0 as int] == edges[p.0 as int]);
            }
        }
    }
}

impl CibouletteStore {
    #[verifier::type_invariant]
    spec fn well_formed(self) -> bool {
        &&& graph_nodes(self.graph).len() < u32::MAX
        &&& graph_edges(self.graph).len() < u32::MAX
        &&& forall|i: int|
            0 <= i < graph_edges(self.graph).len() ==> (#[trigger] graph_edges(self.graph)[i]).0
                < graph_nodes(self.graph).len() && graph_edges(self.graph)[i].1 < graph_nodes(
                self.graph,
            ).len()
        &&& forall|x: usize|
            #[trigger] graph_outgoing(self.graph, x) == spec_outgoing(graph_edges(self.graph), x)
    }

    /// Whether the view of a store is one that a store can have: fewer nodes and edges than
    /// the largest `u32`, and every edge between existing nodes.
    pub open spec fn view_wf(v: StoreView) -> bool {
        &&& v.nodes.len() < u32::MAX
        &&& v.edges.len() < u32::MAX
        &&& forall|i: int| 0 <= i < v.edges.len() ==> (#[trigger] v.edges[i]).0 < v.nodes.len() && v.edges[i].1 < v.nodes.len()
    }

    /// Every store has a well-formed view.
    pub fn wf(&self)
        ensures
            Self::view_wf(self@),
    {
        proof {
            use_type_invariant(self);
        }
    }

    /// A store without types.
    pub fn new() -> (r: Self)
        ensures
            r@.nodes == Seq::<CibouletteResourceType>::empty(),
            r@.edges == Seq::<(usize, usize, CibouletteRelationshipOption)>::empty(),
    {
        CibouletteStore { graph: graph_new() }
    }

    /// Adds a resource type, and gives its index.
    pub fn add_type(&mut self, t: CibouletteResourceType) -> (i: usize)
        requires
            old(self)@.nodes.len() + 1 < u32::MAX,
        ensures
            final(self)@.nodes == old(self)@.nodes.push(t),
            final(self)@.edges == old(self)@.edges,
            i == old(self)@.nodes.len(),
    {
        proof {
            use_type_invariant(&*self);
        }
        graph_add_node(&mut self.graph, t)
    }

    /// Adds a relationship from the type of index `from` to the type of index `to`.
    pub fn add_relationship(&mut self, from: usize, to: usize, opt: CibouletteRelationshipOption) -> (i: usize)
        requires
            from < old(self)@.nodes.len(),
            to < old(self)@.nodes.len(),
            old(self)@.edges.len() + 1 < u32::MAX,
        ensures
            final(self)@.nodes == old(self)@.nodes,
            final(self)@.edges == old(self)@.edges.push((from, to, opt)),
            i == old(self)@.edges.len(),
    {
        proof {
            use_type_invariant(&*self);
        }
        let ghost edges = graph_edges(self.graph);
        proof {
            let e = (from, to, opt);
            assert(edges.push(e).drop_last() =~= edges);
            assert forall|x: usize|
                #[trigger] spec_outgoing(edges.push(e), x) == if x == from {
                    seq![(edges.len() as usize, to)] + spec_outgoing(edges, x)
                } else {
                    spec_outgoing(edges, x)
                } by {
                assert(edges.push(e).drop_last() =~= edges);
            }
        }
        let i = graph_add_edge(&mut self.graph, from, to, opt);
        i
    }

    /// The index of the first type named `name`.
    pub fn get_type_index(&self, name: &str) -> (r: Option<usize>)
        ensures
            r matches Some(i) ==> spec_find_type(self@.nodes, name@) == Some(i as int),
            r is None ==> spec_find_type(self@.nodes, name@) is None,
    {
        proof {
            use_type_invariant(self);
        }
        let n = graph_node_count(&self.graph);
        let mut i: usize = 0;
        while i < n
            invariant
                n == self@.nodes.len(),
                n < u32::MAX,
                i <= n,
                spec_find_type(self@.nodes.take(i as int), name@) is None,
            decreases n - i,
        {
            proof {
                assert(self@.nodes.take(i + 1).drop_last() =~= self@.nodes.take(i as int));
            }
            match graph_node_weight(&self.graph, i) {
                Some(t) => {
                    if str_eq(t.name.as_str(), name) {
                        proof {
                            lemma_find_type_prefix(self@.nodes, name@, i + 1);
                        }
                        return Some(i);
                    }
                },
                None => {},
            }
            i = i + 1;
        }
        proof {
            assert(self@.nodes.take(i as int) =~= self@.nodes);
        }
        None
    }

    /// The type of index `i`.
    pub fn node(&self, i: usize) -> (r: &CibouletteResourceType)
        requires
            i < self@.nodes.len(),
        ensures
            *r == self@.nodes[i as int],
    {
        proof {
            use_type_invariant(self);
        }
        graph_node_weight(&self.graph, i).unwrap()
    }

    /// The relationship of edge `e`.
    pub fn edge(&self, e: usize) -> (r: &CibouletteRelationshipOption)
        requires
            e < self@.edges.len(),
        ensures
            *r == self@.edges[e as int].2,
    {
        proof {
            use_type_invariant(self);
        }
        graph_edge_weight(&self.graph, e).unwrap()
    }

    /// The relationships that leave the type of index `a`, as (edge index, target type
    /// index), the most recently added first.
    pub fn outgoing(&self, a: usize) -> (r: Vec<(usize, usize)>)
        requires
            a < self@.nodes.len(),
        ensures
            r@ == spec_outgoing(self@.edges, a),
    {
        proof {
            use_type_invariant(self);
        }
        graph_outgoing_edges(&self.graph, a)
    }

    /// The first type named `name`.
    pub fn get_type(&self, name: &str) -> (r: Result<&CibouletteResourceType, Ciboulette2SqlError>)
        ensures
            r is Ok <==> spec_find_type(self@.nodes, name@) is Some,
            r matches Ok(t) ==> *t == self@.nodes[spec_find_type(self@.nodes, name@)->0],
            r matches Err(e) ==> e matches Ciboulette2SqlError::UnknownType(n) && n@ == name@,
    {
        proof {
            lemma_find_type_bounds(self@.nodes, name@);
        }
        match self.get_type_index(name) {
            Some(i) => Ok(self.node(i)),
            None => Err(Ciboulette2SqlError::UnknownType(String::from_str(name))),
        }
    }
}

} // verus!
