//! The store of social graphs: one weighted directed graph for every
//! channel of every guild that was seen, and the graph of a guild as the sum
//! of the graphs of its channels.

pub mod graph;
pub mod laws;

use vstd::prelude::*;
use crate::error::Error;
use crate::inference::{
    distinct, lemma_distinct, push_distinct, Interaction, InteractionType, InteractionView,
};
use crate::keyed::{
    assigned, has_key, keys, lemma_assigned, lemma_has_key, lemma_position, lemma_removed, lookup,
    position, removed, Key,
};
use crate::model::{Channel, ChannelKind, Event, Message, MessageKind, MessageReference};
use graph::{lemma_added_all, saturated, Graph, GraphModel};

verus! {

/// What one interaction adds to the weight of an edge.
pub const DEFAULT_INCREMENT: u64 = 1;

/// Why a relationship changes.
#[derive(Clone, Copy, Debug, PartialEq, Eq, Structural)]
pub enum Reason {
    Mention,
    Reply,
    Reaction,
}

/// A change to the relationship from one user to another.
#[derive(Clone, Copy, Debug, PartialEq, Eq, Structural)]
pub struct RelationshipChange {
    pub source: u64,
    pub target: u64,
    pub reason: Reason,
    /// What is added to the weight of the edge.
    pub delta: u64,
}

impl Reason {
    /// The number under which the reason is written down.
    pub fn code(&self) -> (code: u8)
        ensures
            code == reason_code(*self),
    {
        match self {
            Reason::Mention => 0,
            Reason::Reply => 1,
            Reason::Reaction => 2,
        }
    }
}

/// The reason behind the changes that an interaction makes: a reaction, a
/// reply where the message answers another, else a mention.
pub open spec fn reason_of(interaction: InteractionView) -> Reason {
    match interaction.what {
        InteractionType::Reaction => Reason::Reaction,
        InteractionType::Message => if interaction.reference is Some {
            Reason::Reply
        } else {
            Reason::Mention
        },
    }
}

/// The changes that an interaction makes: one for each of its targets, in
/// their order.
pub open spec fn inferred(interaction: InteractionView) -> Seq<RelationshipChange> {
    interaction.targets.map_values(
        |target: u64|
            RelationshipChange {
                source: interaction.source,
                target,
                reason: reason_of(interaction),
                delta: DEFAULT_INCREMENT,
            },
    )
}

/// The graphs of the store: each under its guild and its channel.
pub type Graphs = Seq<(Key, GraphModel)>;

/// A graph after `changes` are made to it, in order.
pub open spec fn changed(graph: GraphModel, changes: Seq<RelationshipChange>) -> GraphModel
    decreases changes.len(),
{
    if changes.len() == 0 {
        graph
    } else {
        changed(graph, changes.drop_last()).added(
            changes.last().source,
            changes.last().target,
            changes.last().delta,
        )
    }
}

/// The graph under `key`; the empty graph where there is none.
pub open spec fn graph_at(graphs: Graphs, key: Key) -> GraphModel {
    match lookup(graphs, key) {
        Some(graph) => graph,
        None => GraphModel::empty(),
    }
}

/// `graphs` with a graph under `key`: the one that was there, or else an
/// empty one at the end.
pub open spec fn ensured(graphs: Graphs, key: Key) -> Graphs {
    if has_key(graphs, key) {
        graphs
    } else {
        graphs.push((key, GraphModel::empty()))
    }
}

/// `graphs` after `changes` are made to the graph under `key`.  Without
/// changes nothing happens; else a graph that is not there comes to be.
pub open spec fn applied(graphs: Graphs, key: Key, changes: Seq<RelationshipChange>) -> Graphs {
    if changes.len() == 0 {
        graphs
    } else {
        assigned(graphs, key, changed(graph_at(graphs, key), changes))
    }
}

/// `graphs` without the graphs of guild `guild_id`.
pub open spec fn without_guild(graphs: Graphs, guild_id: u64) -> Graphs
    decreases graphs.len(),
{
    if graphs.len() == 0 {
        graphs
    } else if graphs.last().0.0 == guild_id {
        without_guild(graphs.drop_last(), guild_id)
    } else {
        without_guild(graphs.drop_last(), guild_id).push(graphs.last())
    }
}

/// Whether `graphs` holds a graph of guild `guild_id`.
pub open spec fn has_guild(graphs: Graphs, guild_id: u64) -> bool {
    exists|i: int| 0 <= i < graphs.len() && (#[trigger] graphs[i]).0.0 == guild_id
}

/// The weight of the edge from `source` to `target` in guild `guild_id`:
/// the sum of its weights in the graphs of the guild's channels.
pub open spec fn guild_weight(graphs: Graphs, guild_id: u64, source: u64, target: u64) -> nat
    decreases graphs.len(),
{
    if graphs.len() == 0 {
        0
    } else {
        guild_weight(graphs.drop_last(), guild_id, source, target) + if graphs.last().0.0
            == guild_id {
            graphs.last().1.weight(source, target)
        } else {
            0
        }
    }
}

/// Whether some graph of guild `guild_id` has an edge from `source` to
/// `target`.
pub open spec fn guild_has_edge(graphs: Graphs, guild_id: u64, source: u64, target: u64) -> bool {
    exists|i: int|
        0 <= i < graphs.len() && (#[trigger] graphs[i]).0.0 == guild_id && has_key(
            graphs[i].1.edges,
            (source, target),
        )
}

/// The ids of the guilds that have a graph, each once, in the order in which
/// they first appear.
pub open spec fn guild_ids(graphs: Graphs) -> Seq<u64> {
    distinct(keys(graphs).map_values(|key: Key| key.0))
}

/// `graphs` with a graph for each of `channels` of guild `guild_id`.
pub open spec fn ensured_all(graphs: Graphs, guild_id: u64, channels: Seq<Channel>) -> Graphs
    decreases channels.len(),
{
    if channels.len() == 0 {
        graphs
    } else {
        ensured(
            ensured_all(graphs, guild_id, channels.drop_last()),
            (guild_id, channels.last().id),
        )
    }
}

/// The graphs after an event of the gateway.  A guild that appears gets a
/// graph for each of its channels, and so does a text channel that appears
/// in a guild; a guild or a channel that goes takes its graphs along.
pub open spec fn after_event(graphs: Graphs, event: Event) -> Graphs {
    match event {
        Event::GuildCreate(guild) => ensured_all(graphs, guild.id, guild.channels@),
        Event::GuildDelete { id } => without_guild(graphs, id),
        Event::ChannelCreate(channel) => match channel.guild_id {
            Some(guild_id) if channel.kind == ChannelKind::GuildText => ensured(
                graphs,
                (guild_id, channel.id),
            ),
            _ => graphs,
        },
        Event::ChannelDelete(channel) => match channel.guild_id {
            Some(guild_id) => removed(graphs, (guild_id, channel.id)),
            None => graphs,
        },
        _ => graphs,
    }
}

/// What is left to do for an event once the graphs have taken it in.
#[derive(Clone, Copy, Debug, PartialEq, Eq)]
pub enum Pending {
    /// Nothing.
    Nothing,
    /// The event is a message that makes an interaction.  Where it answers
    /// a message, `reference` names the channel and the id of that message,
    /// which is to be looked up first.
    Message { reference: Option<(u64, u64)> },
    /// The event is a reaction that makes an interaction; the message
    /// reacted to is to be looked up first.
    Reaction { channel_id: u64, message_id: u64 },
}

/// Whether a message makes an interaction for the bot `self_id`: a person
/// wrote it, not the bot itself, another bot or a webhook, and it is a
/// regular message or a reply.
pub open spec fn message_eligible(message: Message, self_id: u64) -> bool {
    &&& message.kind == MessageKind::Regular || message.kind == MessageKind::Reply
    &&& message.webhook_id is None
    &&& message.author.id != self_id
    &&& !message.author.bot
}

/// The message that `message` answers, where it names both its channel and
/// its id.
pub open spec fn referenced(message: Message) -> Option<(u64, u64)> {
    match message.reference {
        Some(MessageReference { channel_id: Some(channel_id), message_id: Some(message_id) }) => Some(
            (channel_id, message_id),
        ),
        _ => None,
    }
}

/// What is left to do for `event` once the graphs have taken it in.
pub open spec fn pending_of(event: Event, self_id: u64) -> Pending {
    match event {
        Event::MessageCreate(message) => if message_eligible(message, self_id) {
            Pending::Message { reference: referenced(message) }
        } else {
            Pending::Nothing
        },
        Event::ReactionAdd(reaction) => if reaction.user_id != self_id {
            Pending::Reaction { channel_id: reaction.channel_id, message_id: reaction.message_id }
        } else {
            Pending::Nothing
        },
        _ => Pending::Nothing,
    }
}

/// Whether one more graph brings a guild in.
pub proof fn lemma_has_guild_step(graphs: Graphs, n: int, guild_id: u64)
    requires
        0 <= n < graphs.len(),
    ensures
        has_guild(graphs.take(n + 1), guild_id) <==> has_guild(graphs.take(n), guild_id)
            || graphs[n].0.0 == guild_id,
{
    let shorter = graphs.take(n);
    let longer = graphs.take(n + 1);
    if has_guild(shorter, guild_id) {
        let i = choose|i: int| 0 <= i < shorter.len() && (#[trigger] shorter[i]).0.0 == guild_id;
        assert(longer[i] == shorter[i]);
    }
    if graphs[n].0.0 == guild_id {
        assert(longer[n] == graphs[n]);
    }
    if has_guild(longer, guild_id) {
        let i = choose|i: int| 0 <= i < longer.len() && (#[trigger] longer[i]).0.0 == guild_id;
        if i < n {
            assert(shorter[i] == longer[i]);
        } else {
            assert(longer[i] == graphs[n]);
        }
    }
}

/// Whether one more graph brings an edge into a guild.
pub proof fn lemma_guild_has_edge_step(
    graphs: Graphs,
    n: int,
    guild_id: u64,
    source: u64,
    target: u64,
)
    requires
        0 <= n < graphs.len(),
    ensures
        guild_has_edge(graphs.take(n + 1), guild_id, source, target) <==> guild_has_edge(
            graphs.take(n),
            guild_id,
            source,
            target,
        ) || (graphs[n].0.0 == guild_id && graphs[n].1.has_edge(source, target)),
{
    let shorter = graphs.take(n);
    let longer = graphs.take(n + 1);
    let key = (source, target);
    if guild_has_edge(shorter, guild_id, source, target) {
        let i = choose|i: int|
            0 <= i < shorter.len() && (#[trigger] shorter[i]).0.0 == guild_id && has_key(
                shorter[i].1.edges,
                key,
            );
        assert(longer[i] == shorter[i]);
    }
    if graphs[n].0.0 == guild_id && graphs[n].1.has_edge(source, target) {
        assert(longer[n] == graphs[n]);
    }
    if guild_has_edge(longer, guild_id, source, target) {
        let i = choose|i: int|
            0 <= i < longer.len() && (#[trigger] longer[i]).0.0 == guild_id && has_key(
                longer[i].1.edges,
                key,
            );
        if i < n {
            assert(shorter[i] == longer[i]);
        } else {
            assert(longer[i] == graphs[n]);
        }
    }
}

/// Taking the graphs of a guild out leaves the others well formed.
pub proof fn lemma_without_guild(graphs: Graphs, guild_id: u64)
    requires
        graphs_wf(graphs),
    ensures
        graphs_wf(without_guild(graphs, guild_id)),
        !has_guild(without_guild(graphs, guild_id), guild_id),
        forall|key: Key|
            has_key(without_guild(graphs, guild_id), key) <==> has_key(graphs, key) && key.0
                != guild_id,
        forall|key: Key|
            key.0 != guild_id ==> lookup(without_guild(graphs, guild_id), key) == lookup(graphs, key),
    decreases graphs.len(),
{
    let after = without_guild(graphs, guild_id);
    if graphs.len() == 0 {
        assert(keys(graphs) =~= Seq::<Key>::empty());
    } else {
        let shorter = graphs.drop_last();
        let last = graphs.last();
        assert(keys(shorter) =~= keys(graphs).drop_last());
        assert forall|i: int| 0 <= i < shorter.len() implies (#[trigger] shorter[i]).1.wf() by {
            assert(shorter[i] == graphs[i]);
        }
        lemma_without_guild(shorter, guild_id);
        let before = without_guild(shorter, guild_id);
        assert(!has_key(shorter, last.0)) by {
            if has_key(shorter, last.0) {
                lemma_has_key(shorter, last.0);
                let at = position(shorter, last.0);
                assert(keys(graphs)[at] == last.0);
                assert(keys(graphs)[graphs.len() - 1] == last.0);
            }
        }
        assert(graphs =~= assigned(shorter, last.0, last.1));
        lemma_assigned(shorter, last.0, last.1);
        if last.0.0 == guild_id {
            assert(after == before);
        } else {
            assert(!has_key(before, last.0));
            assert(after =~= assigned(before, last.0, last.1));
            lemma_assigned(before, last.0, last.1);
            assert forall|i: int| 0 <= i < after.len() implies (#[trigger] after[i]).1.wf() by {
                if i < before.len() {
                    assert(after[i] == before[i]);
                } else {
                    assert(after[i] == graphs[graphs.len() - 1]);
                }
            }
            assert(!has_guild(after, guild_id)) by {
                if has_guild(after, guild_id) {
                    let i = choose|i: int|
                        0 <= i < after.len() && (#[trigger] after[i]).0.0 == guild_id;
                    if i < before.len() {
                        assert(before[i] == after[i]);
                    }
                }
            }
        }
        assert forall|key: Key| has_key(after, key) <==> has_key(graphs, key) && key.0
            != guild_id by {
            assert(has_key(before, key) <==> has_key(shorter, key) && key.0 != guild_id);
        }
        assert forall|key: Key| key.0 != guild_id implies lookup(after, key) == lookup(
            graphs,
            key,
        ) by {
            assert(lookup(before, key) == lookup(shorter, key));
        }
    }
}

/// No two graphs stand under one key, and every graph is well formed.
pub open spec fn graphs_wf(graphs: Graphs) -> bool {
    &&& keys(graphs).no_duplicates()
    &&& forall|i: int| 0 <= i < graphs.len() ==> (#[trigger] graphs[i]).1.wf()
}

/// Changes keep a graph well formed.
pub proof fn lemma_changed(graph: GraphModel, changes: Seq<RelationshipChange>)
    requires
        graph.wf(),
    ensures
        changed(graph, changes).wf(),
    decreases changes.len(),
{
    if changes.len() > 0 {
        lemma_changed(graph, changes.drop_last());
        graph::lemma_added(
            changed(graph, changes.drop_last()),
            changes.last().source,
            changes.last().target,
            changes.last().delta,
        );
    }
}

/// The graph of one channel.
struct ChannelGraph {
    guild_id: u64,
    channel_id: u64,
    graph: Graph,
}

/// The store of social graphs.
pub struct SocialGraph {
    graphs: Vec<ChannelGraph>,
}

impl View for SocialGraph {
    type V = Graphs;

    closed spec fn view(&self) -> Graphs {
        self.graphs@.map_values(
            |entry: ChannelGraph| ((entry.guild_id, entry.channel_id), entry.graph@),
        )
    }
}

impl SocialGraph {
    /// What holds of every store between two calls.
    pub open spec fn wf(&self) -> bool {
        graphs_wf(self@)
    }

    /// A store without graphs.
    pub fn new() -> (store: SocialGraph)
        ensures
            store.wf(),
            store@ == Seq::<(Key, GraphModel)>::empty(),
    {
        let store = SocialGraph { graphs: Vec::new() };
        assert(store@ =~= Seq::<(Key, GraphModel)>::empty());
        assert(keys(store@) =~= Seq::<Key>::empty());
        store
    }

    /// Where the graph of channel `channel_id` of guild `guild_id` stands.
    fn index_of(&self, guild_id: u64, channel_id: u64) -> (found: Option<usize>)
        requires
            self.wf(),
        ensures
            match found {
                Some(at) => at < self.graphs.len() && has_key(self@, (guild_id, channel_id))
                    && position(self@, (guild_id, channel_id)) == at,
                None => !has_key(self@, (guild_id, channel_id)),
            },
    {
        let mut i: usize = 0;
        while i < self.graphs.len()
            invariant
                i <= self.graphs.len(),
                self.wf(),
                forall|j: int| 0 <= j < i ==> (#[trigger] self@[j]).0 != (guild_id, channel_id),
            decreases self.graphs.len() - i,
        {
            if self.graphs[i].guild_id == guild_id && self.graphs[i].channel_id == channel_id {
                proof {
                    assert(self@[i as int].0 == (guild_id, channel_id));
                    lemma_position(self@, i as int);
                }
                return Some(i);
            }
            assert(self@[i as int].0 != (guild_id, channel_id));
            i = i + 1;
        }
        proof {
            if has_key(self@, (guild_id, channel_id)) {
                lemma_has_key(self@, (guild_id, channel_id));
                assert(self@[position(self@, (guild_id, channel_id))].0 == (guild_id, channel_id));
            }
        }
        None
    }

    /// Makes sure that channel `channel_id` of guild `guild_id` has a
    /// graph, and says where it stands.
    fn ensure_index(&mut self, guild_id: u64, channel_id: u64) -> (at: usize)
        requires
            old(self).wf(),
        ensures
            final(self).wf(),
            final(self)@ == ensured(old(self)@, (guild_id, channel_id)),
            at < final(self).graphs.len(),
            has_key(final(self)@, (guild_id, channel_id)),
            position(final(self)@, (guild_id, channel_id)) == at,
    {
        match self.index_of(guild_id, channel_id) {
            Some(at) => at,
            None => {
                let at = self.graphs.len();
                self.graphs.push(ChannelGraph { guild_id, channel_id, graph: Graph::new() });
                proof {
                    let key = (guild_id, channel_id);
                    assert(self@ =~= old(self)@.push((key, GraphModel::empty())));
                    lemma_assigned(old(self)@, key, GraphModel::empty());
                    assert(self@ == assigned(old(self)@, key, GraphModel::empty()));
                    assert forall|i: int| 0 <= i < self@.len() implies (#[trigger] self@[i]).1.wf() by {
                        if i < old(self)@.len() {
                            assert(self@[i] == old(self)@[i]);
                        } else {
                            assert(keys(GraphModel::empty().edges) =~= Seq::<Key>::empty());
                        }
                    }
                    lemma_position(self@, at as int);
                }
                at
            },
        }
    }

    /// Makes sure that channel `channel_id` of guild `guild_id` has a
    /// graph: an empty one comes to be where there is none.
    pub fn ensure_graph(&mut self, guild_id: u64, channel_id: u64)
        requires
            old(self).wf(),
        ensures
            final(self).wf(),
            final(self)@ == ensured(old(self)@, (guild_id, channel_id)),
    {
        let _ = self.ensure_index(guild_id, channel_id);
    }

    /// The changes that `interaction` makes.  They depend on the interaction
    /// alone.
    pub fn infer(&self, interaction: &Interaction) -> (changes: Vec<RelationshipChange>)
        ensures
            changes@ == inferred(interaction@),
    {
        let reason = match interaction.what {
            InteractionType::Reaction => Reason::Reaction,
            InteractionType::Message => match interaction.reference {
                Some(_) => Reason::Reply,
                None => Reason::Mention,
            },
        };
        let mut changes: Vec<RelationshipChange> = Vec::new();
        let mut i: usize = 0;
        while i < interaction.targets.len()
            invariant
                i <= interaction.targets.len(),
                reason == reason_of(interaction@),
                changes@ == inferred(interaction@).take(i as int),
            decreases interaction.targets.len() - i,
        {
            changes.push(
                RelationshipChange {
                    source: interaction.source,
                    target: interaction.targets[i],
                    reason,
                    delta: DEFAULT_INCREMENT,
                },
            );
            i = i + 1;
            assert(changes@ =~= inferred(interaction@).take(i as int));
        }
        assert(inferred(interaction@).take(interaction.targets.len() as int) =~= inferred(
            interaction@,
        ));
        changes
    }

    /// Makes `changes` to the graph of the channel in which `interaction`
    /// took place.  Each change adds its delta to the weight of its edge; a
    /// second call adds again.  Without changes nothing happens.
    pub fn apply(&mut self, interaction: &Interaction, changes: &Vec<RelationshipChange>)
        requires
            old(self).wf(),
        ensures
            final(self).wf(),
            final(self)@ == applied(old(self)@, (interaction.guild, interaction.channel), changes@),
    {
        if changes.len() == 0 {
            return ;
        }
        let ghost key = (interaction.guild, interaction.channel);
        let ghost before = graph_at(self@, key);
        proof {
            if has_key(self@, key) {
                lemma_has_key(self@, key);
            } else {
                assert(keys(GraphModel::empty().edges) =~= Seq::<Key>::empty());
            }
        }
        let at = self.ensure_index(interaction.guild, interaction.channel);
        let ghost ready = self@;
        proof {
            lemma_has_key(ready, key);
            if has_key(old(self)@, key) {
                lemma_has_key(old(self)@, key);
            } else if at < old(self)@.len() {
                assert(ready[at as int] == old(self)@[at as int]);
                assert(keys(old(self)@)[at as int] == key);
            }
            assert(ready[at as int] == (key, before));
        }
        let mut i: usize = 0;
        while i < changes.len()
            invariant
                i <= changes.len(),
                at < self.graphs.len(),
                before.wf(),
                graphs_wf(ready),
                ready.len() == self@.len(),
                ready[at as int] == (key, before),
                self@ == ready.update(at as int, (key, changed(before, changes@.take(i as int)))),
                self.graphs[at as int].graph.wf(),
            decreases changes.len() - i,
        {
            let change = changes[i];
            proof {
                let next = changes@.take(i + 1);
                assert(next.drop_last() =~= changes@.take(i as int));
                assert(next.last() == changes@[i as int]);
                lemma_changed(before, changes@.take(i as int));
            }
            let ghost previous = self@;
            let ghost held = self.graphs@;
            assert(previous[at as int] == ((held[at as int].guild_id, held[at as int].channel_id), held[at as int].graph@));
            self.graphs[at].graph.add_weight(change.source, change.target, change.delta);
            i = i + 1;
            proof {
                let expected = ready.update(
                    at as int,
                    (key, changed(before, changes@.take(i as int))),
                );
                assert(self.graphs@.len() == held.len());
                assert forall|j: int| 0 <= j < self@.len() implies self@[j] == expected[j] by {
                    if j != at {
                        assert(self.graphs@[j] == held[j]);
                        assert(previous[j] == ((held[j].guild_id, held[j].channel_id), held[j].graph@));
                    }
                }
                assert(self@ =~= expected);
            }
        }
        proof {
            assert(changes@.take(changes.len() as int) =~= changes@);
            let last = changed(before, changes@);
            lemma_changed(before, changes@);
            lemma_assigned(old(self)@, key, last);
            if has_key(old(self)@, key) {
                assert(ready == old(self)@);
                assert(self@ =~= assigned(old(self)@, key, last));
            } else {
                assert(self@ =~= assigned(old(self)@, key, last));
            }
            assert forall|j: int| 0 <= j < self@.len() implies (#[trigger] self@[j]).1.wf() by {
                if j != at {
                    assert(self@[j] == ready[j]);
                }
            }
        }
    }

    /// The graph of guild `guild_id`: the weight of an edge is the sum of
    /// its weights in the graphs of the guild's channels, up to the largest
    /// weight there is.  The store stays as it is.
    pub fn build_guild_graph(&self, guild_id: u64) -> (result: Result<Graph, Error>)
        requires
            self.wf(),
        ensures
            match result {
                Ok(graph) => {
                    &&& has_guild(self@, guild_id)
                    &&& graph.wf()
                    &&& forall|source: u64, target: u64| #[trigger]
                        graph@.weight(source, target) == saturated(
                            guild_weight(self@, guild_id, source, target) as int,
                        )
                    &&& forall|source: u64, target: u64| #[trigger]
                        graph@.has_edge(source, target) <==> guild_has_edge(
                            self@,
                            guild_id,
                            source,
                            target,
                        )
                },
                Err(error) => error == Error::NotFound && !has_guild(self@, guild_id),
            },
    {
        let mut graph = Graph::new();
        let mut found = false;
        let mut i: usize = 0;
        proof {
            assert(keys(graph@.edges) =~= Seq::<Key>::empty());
            assert forall|source: u64, target: u64| !(#[trigger] graph@.has_edge(source, target)) by {}
        }
        while i < self.graphs.len()
            invariant
                i <= self.graphs.len(),
                self.wf(),
                graph.wf(),
                found == has_guild(self@.take(i as int), guild_id),
                forall|source: u64, target: u64| #[trigger]
                    graph@.weight(source, target) == saturated(
                        guild_weight(self@.take(i as int), guild_id, source, target) as int,
                    ),
                forall|source: u64, target: u64| #[trigger]
                    graph@.has_edge(source, target) <==> guild_has_edge(
                        self@.take(i as int),
                        guild_id,
                        source,
                        target,
                    ),
            decreases self.graphs.len() - i,
        {
            let ghost before = graph@;
            let ghost entry = self@[i as int];
            proof {
                let next = self@.take(i + 1);
                assert(next.drop_last() =~= self@.take(i as int));
                assert(next.last() == entry);
                lemma_has_guild_step(self@, i as int, guild_id);
                assert(entry.1.wf());
                if entry.0.0 == guild_id {
                    lemma_added_all(before, entry.1.edges);
                }
                assert forall|source: u64, target: u64|
                    guild_has_edge(self@.take(i + 1), guild_id, source, target) <==> guild_has_edge(
                        self@.take(i as int),
                        guild_id,
                        source,
                        target,
                    ) || (entry.0.0 == guild_id && entry.1.has_edge(source, target)) by {
                    lemma_guild_has_edge_step(self@, i as int, guild_id, source, target);
                }
            }
            if self.graphs[i].guild_id == guild_id {
                found = true;
                graph.merge(&self.graphs[i].graph);
            }
            i = i + 1;
        }
        assert(self@.take(self.graphs.len() as int) =~= self@);
        if found {
            Ok(graph)
        } else {
            Err(Error::NotFound)
        }
    }

    /// Forgets the graph of channel `channel_id` of guild `guild_id`.
    /// Nothing happens where there is none.
    pub fn remove_channel(&mut self, guild_id: u64, channel_id: u64)
        requires
            old(self).wf(),
        ensures
            final(self).wf(),
            final(self)@ == removed(old(self)@, (guild_id, channel_id)),
    {
        match self.index_of(guild_id, channel_id) {
            Some(at) => {
                proof {
                    lemma_removed(self@, (guild_id, channel_id));
                }
                let _ = self.graphs.remove(at);
                proof {
                    let after = removed(old(self)@, (guild_id, channel_id));
                    assert(self@ =~= after);
                    assert forall|i: int| 0 <= i < after.len() implies (#[trigger] after[i]).1.wf() by {
                        let o = if i < at { i } else { i + 1 };
                        assert(after[i] == old(self)@[o]);
                    }
                }
            },
            None => {},
        }
    }

    /// Forgets every graph of guild `guild_id`.  Nothing happens where
    /// there is none.
    pub fn remove_guild(&mut self, guild_id: u64)
        requires
            old(self).wf(),
        ensures
            final(self).wf(),
            final(self)@ == without_guild(old(self)@, guild_id),
            !has_guild(final(self)@, guild_id),
    {
        let ghost start = self@;
        let ghost done: int = 0;
        let mut i: usize = 0;
        while i < self.graphs.len()
            invariant
                0 <= done <= start.len(),
                i <= self.graphs.len(),
                self.graphs.len() - i == start.len() - done,
                self@ == without_guild(start.take(done), guild_id) + start.skip(done),
                i == without_guild(start.take(done), guild_id).len(),
            decreases self.graphs.len() - i,
        {
            proof {
                let next = start.take(done + 1);
                assert(next.drop_last() =~= start.take(done));
                assert(next.last() == start[done]);
                assert(self@[i as int] == start.skip(done)[0]);
                assert(self@[i as int].0.0 == self.graphs[i as int].guild_id);
                assert(start.skip(done) =~= seq![start[done]] + start.skip(done + 1));
            }
            let ghost previous = self@;
            if self.graphs[i].guild_id == guild_id {
                let _ = self.graphs.remove(i);
                proof {
                    done = done + 1;
                    assert(self@ =~= previous.remove(i as int));
                    assert(self@ =~= without_guild(start.take(done), guild_id) + start.skip(done));
                }
            } else {
                i = i + 1;
                proof {
                    done = done + 1;
                    assert(self@ =~= without_guild(start.take(done), guild_id) + start.skip(done));
                }
            }
        }
        proof {
            assert(start.take(done) =~= start);
            assert(self@ =~= without_guild(start, guild_id));
            lemma_without_guild(start, guild_id);
        }
    }

    /// The ids of the guilds that have a graph, each once.
    pub fn get_all_guild_ids(&self) -> (ids: Vec<u64>)
        ensures
            ids@ == guild_ids(self@),
            ids@.no_duplicates(),
            forall|guild_id: u64| ids@.contains(guild_id) <==> has_guild(self@, guild_id),
    {
        let ghost all = keys(self@).map_values(|key: Key| key.0);
        let mut ids: Vec<u64> = Vec::new();
        let mut i: usize = 0;
        while i < self.graphs.len()
            invariant
                i <= self.graphs.len(),
                all == keys(self@).map_values(|key: Key| key.0),
                ids@ == distinct(all.take(i as int)),
            decreases self.graphs.len() - i,
        {
            push_distinct(&mut ids, self.graphs[i].guild_id);
            proof {
                let next = all.take(i + 1);
                assert(next.drop_last() =~= all.take(i as int));
                assert(next.last() == self@[i as int].0.0);
            }
            i = i + 1;
        }
        assert(all.take(self.graphs.len() as int) =~= all);
        proof {
            lemma_distinct(all);
            assert forall|guild_id: u64| ids@.contains(guild_id) <==> has_guild(self@, guild_id) by {
                if all.contains(guild_id) {
                    let i = choose|i: int| 0 <= i < all.len() && all[i] == guild_id;
                    assert(self@[i].0.0 == guild_id);
                }
                if has_guild(self@, guild_id) {
                    let i = choose|i: int|
                        0 <= i < self@.len() && (#[trigger] self@[i]).0.0 == guild_id;
                    assert(all[i] == guild_id);
                }
            }
        }
        ids
    }

    /// Makes sure that each of `channels` of guild `guild_id` has a graph.
    pub fn ensure_graphs(&mut self, guild_id: u64, channels: &Vec<Channel>)
        requires
            old(self).wf(),
        ensures
            final(self).wf(),
            final(self)@ == ensured_all(old(self)@, guild_id, channels@),
    {
        let ghost start = self@;
        let mut i: usize = 0;
        while i < channels.len()
            invariant
                i <= channels.len(),
                self.wf(),
                self@ == ensured_all(start, guild_id, channels@.take(i as int)),
            decreases channels.len() - i,
        {
            self.ensure_graph(guild_id, channels[i].id);
            proof {
                let next = channels@.take(i + 1);
                assert(next.drop_last() =~= channels@.take(i as int));
                assert(next.last() == channels@[i as int]);
            }
            i = i + 1;
        }
        assert(channels@.take(channels.len() as int) =~= channels@);
    }

    /// Takes in an interaction: infers the changes that it makes, makes
    /// them and hands them back.
    pub fn process_interaction(&mut self, interaction: &Interaction) -> (changes: Vec<
        RelationshipChange,
    >)
        requires
            old(self).wf(),
        ensures
            final(self).wf(),
            changes@ == inferred(interaction@),
            final(self)@ == applied(
                old(self)@,
                (interaction.guild, interaction.channel),
                inferred(interaction@),
            ),
    {
        let changes = self.infer(interaction);
        self.apply(interaction, &changes);
        changes
    }
}

/// Takes in an event of the gateway for the bot `self_id`, and says what
/// is left to do for it.  Graphs come and go with guilds and channels;
/// for a message or a reaction that makes an interaction the caller
/// looks up what is named, builds the interaction and hands it to
/// `process_interaction`.
pub fn handle_event(social: &mut SocialGraph, event: &Event, self_id: u64) -> (pending: Pending)
    requires
        old(social).wf(),
    ensures
        final(social).wf(),
        final(social)@ == after_event(old(social)@, *event),
        pending == pending_of(*event, self_id),
{
    match event {
        Event::GuildCreate(guild) => {
            social.ensure_graphs(guild.id, &guild.channels);
            Pending::Nothing
        },
        Event::GuildDelete { id } => {
            social.remove_guild(*id);
            Pending::Nothing
        },
        Event::ChannelCreate(channel) => {
            match (channel.guild_id, channel.kind) {
                (Some(guild_id), ChannelKind::GuildText) => {
                    social.ensure_graph(guild_id, channel.id);
                },
                _ => {},
            }
            Pending::Nothing
        },
        Event::ChannelDelete(channel) => {
            match channel.guild_id {
                Some(guild_id) => {
                    social.remove_channel(guild_id, channel.id);
                },
                None => {},
            }
            Pending::Nothing
        },
        Event::MessageCreate(message) => {
            let eligible = match message.kind {
                MessageKind::Regular => true,
                MessageKind::Reply => true,
                MessageKind::Other(_) => false,
            } && message.webhook_id.is_none() && message.author.id != self_id
                && !message.author.bot;
            if eligible {
                let reference = match message.reference {
                    Some(
                        MessageReference {
                            channel_id: Some(channel_id),
                            message_id: Some(message_id),
                        },
                    ) => Some((channel_id, message_id)),
                    _ => None,
                };
                Pending::Message { reference }
            } else {
                Pending::Nothing
            }
        },
        Event::ReactionAdd(reaction) => {
            if reaction.user_id != self_id {
                Pending::Reaction {
                    channel_id: reaction.channel_id,
                    message_id: reaction.message_id,
                }
            } else {
                Pending::Nothing
            }
        },
        _ => Pending::Nothing,
    }
}

/// A change as it is written down: when it happened, where, between whom and
/// why.
#[derive(Clone, Copy, Debug, PartialEq, Eq, Structural)]
pub struct EventRow {
    /// Milliseconds since the epoch.
    pub timestamp: u64,
    pub guild: u64,
    pub channel: u64,
    pub source: u64,
    pub target: u64,
    /// The number of the reason.
    pub reason: u8,
}

/// The number under which `reason` is written down.
pub open spec fn reason_code(reason: Reason) -> u8 {
    match reason {
        Reason::Mention => 0u8,
        Reason::Reply => 1u8,
        Reason::Reaction => 2u8,
    }
}

/// The rows that record `changes` made by an interaction at `timestamp`:
/// one for each change, in order.
pub open spec fn recorded(
    interaction: InteractionView,
    changes: Seq<RelationshipChange>,
    timestamp: u64,
) -> Seq<EventRow> {
    changes.map_values(
        |change: RelationshipChange|
            EventRow {
                timestamp,
                guild: interaction.guild,
                channel: interaction.channel,
                source: change.source,
                target: change.target,
                reason: reason_code(change.reason),
            },
    )
}

/// The rows that record `changes` made by `interaction` at `timestamp`, for
/// whoever keeps a record.
pub fn event_rows(interaction: &Interaction, changes: &Vec<RelationshipChange>, timestamp: u64) -> (rows:
    Vec<EventRow>)
    ensures
        rows@ == recorded(interaction@, changes@, timestamp),
{
    let mut rows: Vec<EventRow> = Vec::new();
    let mut i: usize = 0;
    while i < changes.len()
        invariant
            i <= changes.len(),
            rows@ == recorded(interaction@, changes@, timestamp).take(i as int),
        decreases changes.len() - i,
    {
        rows.push(
            EventRow {
                timestamp,
                guild: interaction.guild,
                channel: interaction.channel,
                source: changes[i].source,
                target: changes[i].target,
                reason: changes[i].reason.code(),
            },
        );
        i = i + 1;
        assert(rows@ =~= recorded(interaction@, changes@, timestamp).take(i as int));
    }
    assert(recorded(interaction@, changes@, timestamp).take(changes.len() as int) =~= recorded(
        interaction@,
        changes@,
        timestamp,
    ));
    rows
}

} // verus!
