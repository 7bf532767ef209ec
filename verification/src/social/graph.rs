//! One weighted directed graph over users, kept by `petgraph`.

use vstd::prelude::*;
use vstd::string::StringExecFns;
use petgraph::dot::{Config, Dot};
use petgraph::graphmap::{DiGraphMap, GraphMap};
use petgraph::Directed;
use std::hash::BuildHasher;
use crate::error::Error;
use crate::keyed::{assigned, has_key, keys, lemma_assigned, lemma_has_key, lookup, position, Key};
use crate::text::{decimal, push_decimal};

verus! {

/// `petgraph::graphmap::GraphMap`, taken as it is: nothing of its inside is
/// known here.
#[verifier::external_type_specification]
#[verifier::external_body]
#[verifier::reject_recursive_types(N)]
#[verifier::reject_recursive_types(E)]
#[verifier::reject_recursive_types(Ty)]
#[verifier::reject_recursive_types(S)]
pub struct ExGraphMap<N, E, Ty, S: BuildHasher>(GraphMap<N, E, Ty, S>);

/// `petgraph::Directed`, the mark of a graph whose edges have a direction.
#[verifier::external_type_specification]
#[verifier::external_body]
pub struct ExDirected(Directed);

/// The nodes of a `GraphMap`, in the order in which it walks them.
pub uninterp spec fn graph_nodes(graph: DiGraphMap<u64, u64>) -> Seq<u64>;

/// The edges of a `GraphMap` with their weights, each under its source and
/// its target, in the order in which it walks them.
pub uninterp spec fn graph_edges(graph: DiGraphMap<u64, u64>) -> Seq<(Key, u64)>;

/// `nodes` with `node` at the end, unless it is there.
pub open spec fn appended(nodes: Seq<u64>, node: u64) -> Seq<u64> {
    if nodes.contains(node) {
        nodes
    } else {
        nodes.push(node)
    }
}

/// `GraphMap::new`: a graph without nodes or edges.
#[verifier::external_body]
fn graph_new() -> (graph: DiGraphMap<u64, u64>)
    ensures
        graph_nodes(graph) == Seq::<u64>::empty(),
        graph_edges(graph) == Seq::<(Key, u64)>::empty(),
{
    DiGraphMap::new()
}

/// `GraphMap::add_edge`: sets the weight of the edge from `source` to
/// `target` and hands back the weight that it had.  An edge that is new
/// comes last, and so do its endpoints where they are new, the source
/// before the target.
#[verifier::external_body]
fn graph_add_edge(graph: &mut DiGraphMap<u64, u64>, source: u64, target: u64, weight: u64) -> (previous:
    Option<u64>)
    ensures
        graph_edges(*final(graph)) == assigned(graph_edges(*old(graph)), (source, target), weight),
        graph_nodes(*final(graph)) == if has_key(graph_edges(*old(graph)), (source, target)) {
            graph_nodes(*old(graph))
        } else {
            appended(appended(graph_nodes(*old(graph)), source), target)
        },
        previous == lookup(graph_edges(*old(graph)), (source, target)),
{
    graph.add_edge(source, target, weight)
}

/// `GraphMap::edge_weight`: the weight of the edge from `source` to
/// `target`, if there is one.
#[verifier::external_body]
fn graph_edge_weight(graph: &DiGraphMap<u64, u64>, source: u64, target: u64) -> (weight: Option<u64>)
    ensures
        weight == lookup(graph_edges(*graph), (source, target)),
{
    graph.edge_weight(source, target).copied()
}

/// `GraphMap::all_edges`: every edge with its weight.
#[verifier::external_body]
fn graph_all_edges(graph: &DiGraphMap<u64, u64>) -> (edges: Vec<(Key, u64)>)
    ensures
        edges@ == graph_edges(*graph),
{
    graph.all_edges().map(|(source, target, weight)| ((source, target), *weight)).collect()
}

/// `GraphMap::nodes`: every node.
#[verifier::external_body]
fn graph_all_nodes(graph: &DiGraphMap<u64, u64>) -> (nodes: Vec<u64>)
    ensures
        nodes@ == graph_nodes(*graph),
{
    graph.nodes().collect()
}

/// The text that `petgraph::dot::Dot` writes for a directed graph, given its
/// nodes with the attributes of each and its edges, from node to node, with
/// the attributes of each.
pub uninterp spec fn dot_text(nodes: Seq<(u64, Seq<char>)>, edges: Seq<(u64, u64, Seq<char>)>) -> Seq<
    char,
>;

/// The first label for `node` among `labels`.
pub open spec fn label_of(labels: Seq<(u64, String)>, node: u64) -> Option<Seq<char>>
    decreases labels.len(),
{
    if labels.len() == 0 {
        None
    } else {
        match label_of(labels.drop_last(), node) {
            Some(label) => Some(label),
            None => if labels.last().0 == node {
                Some(labels.last().1@)
            } else {
                None
            },
        }
    }
}

/// The attributes of a node in the text: its label, or its id where it has
/// none.
pub open spec fn node_attributes(labels: Seq<(u64, String)>, node: u64) -> Seq<char> {
    "label = \""@ + match label_of(labels, node) {
        Some(label) => label,
        None => decimal(node as nat),
    } + "\""@
}

/// The attributes of an edge in the text: its weight as its label.
pub open spec fn edge_attributes(weight: u64) -> Seq<char> {
    "label = \""@ + decimal(weight as nat) + "\""@
}

/// The nodes of the text: each node with its attributes.
pub open spec fn dot_nodes(nodes: Seq<u64>, labels: Seq<(u64, String)>) -> Seq<(u64, Seq<char>)> {
    nodes.map_values(|node: u64| (node, node_attributes(labels, node)))
}

/// The edges of the text: each edge with its attributes.
pub open spec fn dot_edges(edges: Seq<(Key, u64)>) -> Seq<(u64, u64, Seq<char>)> {
    edges.map_values(|edge: (Key, u64)| (edge.0.0, edge.0.1, edge_attributes(edge.1)))
}

/// A label found in a prefix of `labels` is the one found in all of them.
pub proof fn lemma_label_of_prefix(labels: Seq<(u64, String)>, node: u64, n: int)
    requires
        0 <= n <= labels.len(),
        label_of(labels.take(n), node) is Some,
    ensures
        label_of(labels, node) == label_of(labels.take(n), node),
    decreases labels.len() - n,
{
    if n == labels.len() {
        assert(labels.take(n) =~= labels);
    } else {
        let shorter = labels.drop_last();
        assert(shorter.take(n) =~= labels.take(n));
        lemma_label_of_prefix(shorter, node, n);
    }
}

/// Where the first label for `node` stands among `labels`.
pub fn position_of_label(labels: &Vec<(u64, String)>, node: u64) -> (found: Option<usize>)
    ensures
        match found {
            Some(at) => at < labels.len() && label_of(labels@, node) == Some(labels@[at as int].1@),
            None => label_of(labels@, node) is None,
        },
{
    let mut i: usize = 0;
    while i < labels.len()
        invariant
            i <= labels.len(),
            label_of(labels@.take(i as int), node) is None,
        decreases labels.len() - i,
    {
        proof {
            let next = labels@.take(i + 1);
            assert(next.drop_last() =~= labels@.take(i as int));
            assert(next.last() == labels@[i as int]);
        }
        if labels[i].0 == node {
            proof {
                lemma_label_of_prefix(labels@, node, i + 1);
            }
            return Some(i);
        }
        i = i + 1;
    }
    assert(labels@.take(labels.len() as int) =~= labels@);
    None
}

/// The attributes of a node in the text.
pub fn node_attribute_text(labels: &Vec<(u64, String)>, node: u64) -> (text: String)
    ensures
        text@ == node_attributes(labels@, node),
{
    let mut text = String::new();
    text.append("label = \"");
    match position_of_label(labels, node) {
        Some(at) => text.append(labels[at].1.as_str()),
        None => push_decimal(&mut text, node),
    }
    text.append("\"");
    assert(text@ =~= node_attributes(labels@, node));
    text
}

/// The attributes of an edge in the text.
pub fn edge_attribute_text(weight: u64) -> (text: String)
    ensures
        text@ == edge_attributes(weight),
{
    let mut text = String::new();
    text.append("label = \"");
    push_decimal(&mut text, weight);
    text.append("\"");
    assert(text@ =~= edge_attributes(weight));
    text
}

/// `Dot::with_attr_getters`, shown: the graph in the language of Graphviz.
/// No labels are written but those that the attributes of a node or an edge
/// hold.
#[verifier::external_body]
fn graph_dot(graph: &DiGraphMap<u64, u64>, labels: &Vec<(u64, String)>) -> (text: String)
    ensures
        text@ == dot_text(dot_nodes(graph_nodes(*graph), labels@), dot_edges(graph_edges(*graph))),
{
    format!(
        "{}",
        Dot::with_attr_getters(
            graph,
            &[Config::NodeNoLabel, Config::EdgeNoLabel],
            &|_, (_, _, weight)| edge_attribute_text(*weight),
            &|_, (node, _)| node_attribute_text(labels, node),
        )
    )
}

/// The weight that stands for the sum `sum`: the sum itself, or the largest
/// weight there is where the sum is beyond it.
pub open spec fn saturated(sum: int) -> u64 {
    if sum > u64::MAX {
        u64::MAX
    } else {
        sum as u64
    }
}

/// The weight under the edge from `source` to `target` in `edges`; 0 where
/// there is no such edge.
pub open spec fn weight_in(edges: Seq<(Key, u64)>, source: u64, target: u64) -> nat {
    match lookup(edges, (source, target)) {
        Some(weight) => weight as nat,
        None => 0,
    }
}

/// Whether `node` is the source or the target of one of `edges`.
pub open spec fn is_endpoint(edges: Seq<(Key, u64)>, node: u64) -> bool {
    exists|i: int|
        0 <= i < edges.len() && ((#[trigger] edges[i]).0.0 == node || edges[i].0.1 == node)
}

/// A graph as a value: its nodes, and its edges with their weights.
pub ghost struct GraphModel {
    pub nodes: Seq<u64>,
    pub edges: Seq<(Key, u64)>,
}

impl GraphModel {
    /// The graph without nodes or edges.
    pub open spec fn empty() -> GraphModel {
        GraphModel { nodes: Seq::empty(), edges: Seq::empty() }
    }

    /// No node and no edge occurs twice, and the nodes are the endpoints of
    /// the edges.
    pub open spec fn wf(self) -> bool {
        &&& self.nodes.no_duplicates()
        &&& keys(self.edges).no_duplicates()
        &&& forall|i: int|
            0 <= i < self.edges.len() ==> self.nodes.contains((#[trigger] self.edges[i]).0.0)
                && self.nodes.contains(self.edges[i].0.1)
        &&& forall|j: int|
            0 <= j < self.nodes.len() ==> is_endpoint(self.edges, #[trigger] self.nodes[j])
    }

    /// Whether there is an edge from `source` to `target`.
    pub open spec fn has_edge(self, source: u64, target: u64) -> bool {
        has_key(self.edges, (source, target))
    }

    /// The weight of the edge from `source` to `target`; 0 where there is
    /// no such edge.
    pub open spec fn weight(self, source: u64, target: u64) -> nat {
        weight_in(self.edges, source, target)
    }

    /// This graph with the edge from `source` to `target` at weight
    /// `weight`.
    pub open spec fn with_edge(self, source: u64, target: u64, weight: u64) -> GraphModel {
        GraphModel {
            nodes: if has_key(self.edges, (source, target)) {
                self.nodes
            } else {
                appended(appended(self.nodes, source), target)
            },
            edges: assigned(self.edges, (source, target), weight),
        }
    }

    /// This graph after `delta` is added to the weight of the edge from
    /// `source` to `target`.
    pub open spec fn added(self, source: u64, target: u64, delta: u64) -> GraphModel {
        self.with_edge(source, target, saturated(self.weight(source, target) + delta))
    }

    /// This graph after the weight of every edge of `edges` is added to it,
    /// edge by edge.
    pub open spec fn added_all(self, edges: Seq<(Key, u64)>) -> GraphModel
        decreases edges.len(),
    {
        if edges.len() == 0 {
            self
        } else {
            self.added_all(edges.drop_last()).added(
                edges.last().0.0,
                edges.last().0.1,
                edges.last().1,
            )
        }
    }
}

/// Appending a node keeps the nodes distinct and the old nodes in.
pub proof fn lemma_appended(nodes: Seq<u64>, node: u64)
    requires
        nodes.no_duplicates(),
    ensures
        appended(nodes, node).no_duplicates(),
        appended(nodes, node).contains(node),
        forall|other: u64| nodes.contains(other) ==> appended(nodes, node).contains(other),
{
    let after = appended(nodes, node);
    if nodes.contains(node) {
    } else {
        assert forall|i: int, j: int| 0 <= i < after.len() && 0 <= j < after.len() && i != j implies after[i]
            != after[j] by {
            if i < nodes.len() {
                assert(nodes.contains(after[i]));
            }
            if j < nodes.len() {
                assert(nodes.contains(after[j]));
            }
        }
        assert(after[nodes.len() as int] == node);
        assert forall|other: u64| nodes.contains(other) implies after.contains(other) by {
            let i = choose|i: int| 0 <= i < nodes.len() && nodes[i] == other;
            assert(after[i] == other);
        }
    }
}

/// Setting the weight of an edge keeps a graph well formed, changes that
/// weight and no other.
pub proof fn lemma_with_edge(graph: GraphModel, source: u64, target: u64, weight: u64)
    requires
        graph.wf(),
    ensures
        graph.with_edge(source, target, weight).wf(),
        graph.with_edge(source, target, weight).weight(source, target) == weight,
        forall|a: u64, b: u64|
            (a, b) != (source, target) ==> #[trigger] graph.with_edge(source, target, weight).weight(
                a,
                b,
            ) == graph.weight(a, b),
        forall|a: u64, b: u64|
            #[trigger] graph.with_edge(source, target, weight).has_edge(a, b) <==> (a, b) == (
                source,
                target,
            ) || graph.has_edge(a, b),
{
    let after = graph.with_edge(source, target, weight);
    let key = (source, target);
    lemma_assigned(graph.edges, key, weight);
    lemma_appended(graph.nodes, source);
    lemma_appended(appended(graph.nodes, source), target);
    assert forall|a: u64, b: u64| #[trigger] after.has_edge(a, b) <==> (a, b) == key
        || graph.has_edge(a, b) by {
        assert(has_key(after.edges, (a, b)) <==> (a, b) == key || has_key(graph.edges, (a, b)));
    }
    assert forall|j: int| 0 <= j < after.nodes.len() implies is_endpoint(
        after.edges,
        #[trigger] after.nodes[j],
    ) by {
        let node = after.nodes[j];
        if j < graph.nodes.len() {
            assert(after.nodes[j] == graph.nodes[j]);
            assert(is_endpoint(graph.edges, graph.nodes[j]));
            let i = choose|i: int|
                0 <= i < graph.edges.len() && ((#[trigger] graph.edges[i]).0.0 == node
                    || graph.edges[i].0.1 == node);
            assert(after.edges[i].0 == graph.edges[i].0) by {
                if has_key(graph.edges, key) {
                    lemma_has_key(graph.edges, key);
                }
            }
        } else {
            assert(!has_key(graph.edges, key));
            let last = graph.edges.len() as int;
            assert(after.edges[last].0 == key);
            assert(node == source || node == target);
        }
    }
    if has_key(graph.edges, key) {
        lemma_has_key(graph.edges, key);
        let at = position(graph.edges, key);
        assert forall|i: int| 0 <= i < after.edges.len() implies after.nodes.contains(
            (#[trigger] after.edges[i]).0.0,
        ) && after.nodes.contains(after.edges[i].0.1) by {
            if i == at {
                assert(after.edges[i].0 == graph.edges[at].0);
            } else {
                assert(after.edges[i] == graph.edges[i]);
            }
        }
    } else {
        assert forall|i: int| 0 <= i < after.edges.len() implies after.nodes.contains(
            (#[trigger] after.edges[i]).0.0,
        ) && after.nodes.contains(after.edges[i].0.1) by {
            if i < graph.edges.len() {
                assert(after.edges[i] == graph.edges[i]);
                assert(graph.nodes.contains(graph.edges[i].0.0));
                assert(graph.nodes.contains(graph.edges[i].0.1));
            }
        }
    }
    assert forall|a: u64, b: u64| (a, b) != key implies #[trigger] after.weight(a, b)
        == graph.weight(a, b) by {
        assert(lookup(after.edges, (a, b)) == lookup(graph.edges, (a, b)));
    }
}

/// Adding to the weight of an edge keeps a graph well formed, raises that
/// weight by the amount added, up to the largest weight, and changes no
/// other.
pub proof fn lemma_added(graph: GraphModel, source: u64, target: u64, delta: u64)
    requires
        graph.wf(),
    ensures
        graph.added(source, target, delta).wf(),
        graph.added(source, target, delta).weight(source, target) == saturated(
            graph.weight(source, target) + delta,
        ),
        forall|a: u64, b: u64|
            (a, b) != (source, target) ==> #[trigger] graph.added(source, target, delta).weight(a, b)
                == graph.weight(a, b),
        forall|a: u64, b: u64|
            #[trigger] graph.added(source, target, delta).has_edge(a, b) <==> (a, b) == (
                source,
                target,
            ) || graph.has_edge(a, b),
{
    lemma_with_edge(graph, source, target, saturated(graph.weight(source, target) + delta));
}

/// Adding the weights of edges with distinct endpoints keeps a graph well
/// formed and raises the weight of each of these edges by the weight
/// added, up to the largest weight.
pub proof fn lemma_added_all(graph: GraphModel, edges: Seq<(Key, u64)>)
    requires
        graph.wf(),
        keys(edges).no_duplicates(),
    ensures
        graph.added_all(edges).wf(),
        forall|a: u64, b: u64| #[trigger]
            graph.added_all(edges).weight(a, b) == saturated(
                (graph.weight(a, b) + weight_in(edges, a, b)) as int,
            ),
        forall|a: u64, b: u64| #[trigger]
            graph.added_all(edges).has_edge(a, b) <==> graph.has_edge(a, b) || has_key(
                edges,
                (a, b),
            ),
    decreases edges.len(),
{
    if edges.len() == 0 {
        assert(keys(edges) =~= Seq::<Key>::empty());
        assert forall|a: u64, b: u64| !has_key(edges, (a, b)) by {}
    } else {
        let shorter = edges.drop_last();
        let last = edges.last();
        assert(keys(shorter) =~= keys(edges).drop_last());
        lemma_added_all(graph, shorter);
        let before = graph.added_all(shorter);
        lemma_added(before, last.0.0, last.0.1, last.1);
        assert(!has_key(shorter, last.0)) by {
            if has_key(shorter, last.0) {
                lemma_has_key(shorter, last.0);
                let at = position(shorter, last.0);
                assert(keys(edges)[at] == last.0);
                assert(keys(edges)[edges.len() - 1] == last.0);
            }
        }
        assert(edges =~= assigned(shorter, last.0, last.1));
        lemma_assigned(shorter, last.0, last.1);
        let after = graph.added_all(edges);
        assert forall|a: u64, b: u64| #[trigger]
            after.weight(a, b) == saturated((graph.weight(a, b) + weight_in(edges, a, b)) as int) by {
            if (a, b) == last.0 {
                assert(weight_in(shorter, a, b) == 0);
                assert(weight_in(edges, a, b) == last.1);
                assert(before.weight(a, b) == graph.weight(a, b));
            } else {
                assert(lookup(edges, (a, b)) == lookup(shorter, (a, b)));
                assert(after.weight(a, b) == before.weight(a, b));
            }
        }
        assert forall|a: u64, b: u64| #[trigger]
            after.has_edge(a, b) <==> graph.has_edge(a, b) || has_key(edges, (a, b)) by {
            assert(before.has_edge(a, b) <==> graph.has_edge(a, b) || has_key(shorter, (a, b)));
        }
    }
}

/// A weighted directed graph over users.
pub struct Graph {
    inner: DiGraphMap<u64, u64>,
}

impl View for Graph {
    type V = GraphModel;

    closed spec fn view(&self) -> GraphModel {
        GraphModel { nodes: graph_nodes(self.inner), edges: graph_edges(self.inner) }
    }
}

impl Graph {
    /// What holds of every graph between two calls.
    pub open spec fn wf(&self) -> bool {
        self@.wf()
    }

    /// The graph without nodes or edges.
    pub fn new() -> (graph: Graph)
        ensures
            graph.wf(),
            graph@ == GraphModel::empty(),
    {
        let graph = Graph { inner: graph_new() };
        assert(keys(graph@.edges) =~= Seq::<Key>::empty());
        graph
    }

    /// The weight of the edge from `source` to `target`; 0 where there is
    /// no such edge.
    pub fn weight(&self, source: u64, target: u64) -> (weight: u64)
        ensures
            weight == self@.weight(source, target),
    {
        match graph_edge_weight(&self.inner, source, target) {
            Some(weight) => weight,
            None => 0,
        }
    }

    /// Adds `delta` to the weight of the edge from `source` to `target`.
    /// An edge that is not there comes to be, with that weight; a weight
    /// that would pass the largest there is stays at it.
    pub fn add_weight(&mut self, source: u64, target: u64, delta: u64)
        requires
            old(self).wf(),
        ensures
            final(self).wf(),
            final(self)@ == old(self)@.added(source, target, delta),
    {
        proof {
            lemma_added(self@, source, target, delta);
        }
        let next = self.weight(source, target).saturating_add(delta);
        let _ = graph_add_edge(&mut self.inner, source, target, next);
    }

    /// Adds the weight of every edge of `other` to the weight of the same
    /// edge of this graph.
    pub fn merge(&mut self, other: &Graph)
        requires
            old(self).wf(),
        ensures
            final(self).wf(),
            final(self)@ == old(self)@.added_all(other@.edges),
    {
        let edges = other.edges();
        let ghost start = self@;
        let mut i: usize = 0;
        while i < edges.len()
            invariant
                i <= edges.len(),
                self.wf(),
                self@ == start.added_all(edges@.take(i as int)),
            decreases edges.len() - i,
        {
            let (key, weight) = edges[i];
            self.add_weight(key.0, key.1, weight);
            proof {
                let next = edges@.take(i + 1);
                assert(next.drop_last() =~= edges@.take(i as int));
                assert(next.last() == edges@[i as int]);
            }
            i = i + 1;
        }
        assert(edges@.take(edges.len() as int) =~= edges@);
    }

    /// The graph in the language of Graphviz.  Each node carries the label
    /// that `labels` holds for it, each edge its weight.  A node without a
    /// label is an error.
    pub fn to_dot(&self, labels: &Vec<(u64, String)>) -> (result: Result<String, Error>)
        ensures
            match result {
                Ok(text) => text@ == dot_text(dot_nodes(self@.nodes, labels@), dot_edges(self@.edges))
                    && forall|i: int|
                    0 <= i < self@.nodes.len() ==> label_of(labels@, #[trigger] self@.nodes[i])
                        is Some,
                Err(error) => error == Error::NotFound && exists|i: int|
                    0 <= i < self@.nodes.len() && label_of(labels@, #[trigger] self@.nodes[i])
                        is None,
            },
    {
        let nodes = self.nodes();
        let mut i: usize = 0;
        while i < nodes.len()
            invariant
                i <= nodes.len(),
                nodes@ == self@.nodes,
                forall|j: int| 0 <= j < i ==> label_of(labels@, #[trigger] nodes@[j]) is Some,
            decreases nodes.len() - i,
        {
            if position_of_label(labels, nodes[i]).is_none() {
                assert(label_of(labels@, self@.nodes[i as int]) is None);
                return Err(Error::NotFound);
            }
            i = i + 1;
        }
        Ok(graph_dot(&self.inner, labels))
    }

    /// Every edge with its weight.
    pub fn edges(&self) -> (edges: Vec<(Key, u64)>)
        ensures
            edges@ == self@.edges,
    {
        graph_all_edges(&self.inner)
    }

    /// Every node.
    pub fn nodes(&self) -> (nodes: Vec<u64>)
        ensures
            nodes@ == self@.nodes,
    {
        graph_all_nodes(&self.inner)
    }
}

} // verus!
