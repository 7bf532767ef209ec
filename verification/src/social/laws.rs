//! What holds of the store of graphs whatever it is fed.

use vstd::prelude::*;
use crate::keyed::{
    assigned, has_key, keys, lemma_assigned, lemma_has_key, lemma_position, position, Key,
};
use crate::social::graph::{lemma_added, saturated, GraphModel};
use crate::social::{
    applied, changed, graph_at, graphs_wf, guild_weight, Graphs, RelationshipChange,
};

verus! {

/// `graphs` after the one change `change` is made `times` times to the graph
/// under `key`, one call for each time.
pub open spec fn applied_times(graphs: Graphs, key: Key, change: RelationshipChange, times: nat)
    -> Graphs
    decreases times,
{
    if times == 0 {
        graphs
    } else {
        applied(applied_times(graphs, key, change, (times - 1) as nat), key, seq![change])
    }
}

/// Replacing the graph under a key keeps the store well formed.
pub proof fn lemma_graphs_assigned(graphs: Graphs, key: Key, graph: GraphModel)
    requires
        graphs_wf(graphs),
        graph.wf(),
    ensures
        graphs_wf(assigned(graphs, key, graph)),
        graph_at(assigned(graphs, key, graph), key) == graph,
        forall|other: Key| other != key ==> graph_at(assigned(graphs, key, graph), other) == graph_at(
            graphs,
            other,
        ),
{
    let after = assigned(graphs, key, graph);
    lemma_assigned(graphs, key, graph);
    if has_key(graphs, key) {
        lemma_has_key(graphs, key);
    }
    assert forall|i: int| 0 <= i < after.len() implies (#[trigger] after[i]).1.wf() by {
        if has_key(graphs, key) {
            if i != position(graphs, key) {
                assert(after[i] == graphs[i]);
            }
        } else if i < graphs.len() {
            assert(after[i] == graphs[i]);
        }
    }
}

/// Replacing the graph under a key changes the weights of its guild by what
/// the new graph holds more or less than the old one.
pub proof fn lemma_guild_weight_assigned(
    graphs: Graphs,
    key: Key,
    graph: GraphModel,
    source: u64,
    target: u64,
)
    requires
        keys(graphs).no_duplicates(),
    ensures
        guild_weight(assigned(graphs, key, graph), key.0, source, target) == guild_weight(
            graphs,
            key.0,
            source,
            target,
        ) - graph_at(graphs, key).weight(source, target) + graph.weight(source, target),
        guild_weight(graphs, key.0, source, target) >= graph_at(graphs, key).weight(source, target),
    decreases graphs.len(),
{
    let after = assigned(graphs, key, graph);
    if !has_key(graphs, key) {
        assert(after.drop_last() =~= graphs);
        assert(keys(GraphModel::empty().edges) =~= Seq::<Key>::empty());
    } else {
        lemma_has_key(graphs, key);
        let at = position(graphs, key);
        let shorter = graphs.drop_last();
        assert(keys(shorter) =~= keys(graphs).drop_last());
        if at == graphs.len() - 1 {
            assert(after.drop_last() =~= shorter);
            assert(after.last() == (key, graph));
        } else {
            assert(shorter[at] == graphs[at]);
            lemma_position(shorter, at);
            lemma_guild_weight_assigned(shorter, key, graph, source, target);
            assert(after.drop_last() =~= assigned(shorter, key, graph));
            assert(after.last() == graphs.last());
        }
    }
}

/// Making one change keeps the store well formed and adds the change's
/// delta to the weight of its edge, up to the largest weight.
pub proof fn lemma_applied_once(graphs: Graphs, key: Key, change: RelationshipChange)
    requires
        graphs_wf(graphs),
    ensures
        graphs_wf(applied(graphs, key, seq![change])),
        graph_at(graphs, key).wf(),
        graph_at(applied(graphs, key, seq![change]), key) == graph_at(graphs, key).added(
            change.source,
            change.target,
            change.delta,
        ),
{
    let before = graph_at(graphs, key);
    if has_key(graphs, key) {
        lemma_has_key(graphs, key);
    } else {
        assert(keys(GraphModel::empty().edges) =~= Seq::<Key>::empty());
    }
    let changes = seq![change];
    assert(changes.drop_last() =~= Seq::<RelationshipChange>::empty());
    assert(changed(before, changes.drop_last()) == before);
    assert(changed(before, changes) == before.added(change.source, change.target, change.delta));
    lemma_added(before, change.source, change.target, change.delta);
    lemma_graphs_assigned(graphs, key, changed(before, changes));
}

/// Applying adds.  After one change is applied `times` times to the graph
/// of a channel, the weight of its edge in that graph is what it was plus
/// `times` times the change's delta, up to the largest weight there is.  In
/// the guild the weight of the edge never falls, and it rises by exactly
/// `times` times the delta as long as the channel's weight stays within the
/// largest weight.
pub proof fn law_apply_additive(graphs: Graphs, key: Key, change: RelationshipChange, times: nat)
    requires
        graphs_wf(graphs),
    ensures
        graphs_wf(applied_times(graphs, key, change, times)),
        graph_at(applied_times(graphs, key, change, times), key).weight(
            change.source,
            change.target,
        ) == saturated(
            graph_at(graphs, key).weight(change.source, change.target) + times * change.delta,
        ),
        guild_weight(applied_times(graphs, key, change, times), key.0, change.source, change.target)
            >= guild_weight(graphs, key.0, change.source, change.target),
        graph_at(graphs, key).weight(change.source, change.target) + times * change.delta
            <= u64::MAX ==> guild_weight(
            applied_times(graphs, key, change, times),
            key.0,
            change.source,
            change.target,
        ) == guild_weight(graphs, key.0, change.source, change.target) + times * change.delta,
    decreases times,
{
    let source = change.source;
    let target = change.target;
    let start = graph_at(graphs, key).weight(source, target);
    if times == 0 {
        assert(times * change.delta == 0) by (nonlinear_arith)
            requires
                times == 0,
        ;
        if has_key(graphs, key) {
            lemma_has_key(graphs, key);
        }
    } else {
        let fewer = (times - 1) as nat;
        law_apply_additive(graphs, key, change, fewer);
        let before = applied_times(graphs, key, change, fewer);
        let after = applied_times(graphs, key, change, times);
        lemma_applied_once(before, key, change);
        let held = graph_at(before, key);
        lemma_added(held, source, target, change.delta);
        lemma_guild_weight_assigned(
            before,
            key,
            held.added(source, target, change.delta),
            source,
            target,
        );
        assert(after == assigned(before, key, held.added(source, target, change.delta))) by {
            let changes = seq![change];
            assert(changes.drop_last() =~= Seq::<RelationshipChange>::empty());
            assert(changed(held, changes.drop_last()) == held);
        }
        assert(fewer * change.delta + change.delta == times * change.delta) by (nonlinear_arith)
            requires
                fewer + 1 == times,
        ;
        assert(0 <= fewer * change.delta) by (nonlinear_arith)
            requires
                0 <= fewer,
                0 <= change.delta,
        ;
    }
}

} // verus!
