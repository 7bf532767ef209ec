use social_graph::cache::{Cache, CachedMessage, Fetch, Lookup};
use social_graph::inference::{Interaction, InteractionType};
use social_graph::model::{
    Channel, ChannelKind, Event, Guild, Mention, Message, MessageKind, MessageReference,
    PartialMember, Reaction, User,
};
use social_graph::social::{
    event_rows, handle_event, EventRow, Pending, Reason, RelationshipChange, SocialGraph,
    DEFAULT_INCREMENT,
};
use social_graph::Error;

const G: u64 = 500;
const C: u64 = 600;
const U1: u64 = 1;
const U2: u64 = 2;
const U3: u64 = 3;

fn user(id: u64) -> User {
    User { id, name: format!("user{}", id), discriminator: 7, avatar: None, bot: false }
}

fn mention(id: u64) -> Mention {
    Mention {
        id,
        name: format!("user{}", id),
        discriminator: 7,
        avatar: None,
        bot: false,
        member: Some(PartialMember { nick: None, roles: vec![] }),
    }
}

fn message(id: u64, author: u64, mentions: &[u64]) -> Message {
    Message {
        id,
        channel_id: C,
        guild_id: Some(G),
        author: user(author),
        member: Some(PartialMember { nick: None, roles: vec![] }),
        mentions: mentions.iter().map(|id| mention(*id)).collect(),
        kind: MessageKind::Regular,
        reference: None,
        webhook_id: None,
        content: String::new(),
    }
}

fn interaction(source: u64, targets: &[u64], channel: u64, guild: u64) -> Interaction {
    Interaction {
        what: InteractionType::Message,
        source,
        targets: targets.to_vec(),
        channel,
        guild,
        reference: None,
    }
}

fn change(source: u64, target: u64, delta: u64) -> RelationshipChange {
    RelationshipChange { source, target, reason: Reason::Mention, delta }
}

fn channel(id: u64, guild_id: Option<u64>, kind: ChannelKind) -> Channel {
    Channel { id, guild_id, name: None, kind }
}

#[test]
fn mention_becomes_an_edge_of_weight_one() {
    let mut cache = Cache::new();
    let mut social = SocialGraph::new();
    let event = Event::MessageCreate(message(100, U1, &[U2]));
    cache.update(&event);
    assert_eq!(
        cache.get_message(C, 100),
        Lookup::Hit(CachedMessage { author_id: U1, kind: MessageKind::Regular })
    );
    assert_eq!(handle_event(&mut social, &event, 999), Pending::Message { reference: None });
    let made = Interaction::new_from_message(&message(100, U1, &[U2]), None).unwrap();
    assert_eq!(made, interaction(U1, &[U2], C, G));
    let changes = social.process_interaction(&made);
    assert_eq!(
        changes,
        vec![RelationshipChange { source: U1, target: U2, reason: Reason::Mention, delta: 1 }]
    );
    let graph = social.build_guild_graph(G).ok().unwrap();
    assert_eq!(graph.weight(U1, U2), 1);
    assert_eq!(graph.weight(U2, U1), 0);
    assert_eq!(graph.edges(), vec![((U1, U2), 1)]);
    assert_eq!(graph.nodes(), vec![U1, U2]);
}

#[test]
fn reaction_adds_an_edge_back_to_the_author() {
    let mut cache = Cache::new();
    let mut social = SocialGraph::new();
    let first = message(100, U1, &[U2]);
    cache.update(&Event::MessageCreate(first.clone()));
    let made = Interaction::new_from_message(&first, None).unwrap();
    social.process_interaction(&made);

    let reaction =
        Reaction { user_id: U2, channel_id: C, message_id: 100, guild_id: Some(G), member: None };
    let event = Event::ReactionAdd(reaction.clone());
    cache.update(&event);
    assert_eq!(
        handle_event(&mut social, &event, 999),
        Pending::Reaction { channel_id: C, message_id: 100 }
    );
    let target = match cache.get_message(C, 100) {
        Lookup::Hit(found) => found,
        Lookup::Miss(_) => panic!("the message was cached when it was created"),
    };
    let made = Interaction::new_from_reaction(&reaction, &target).unwrap();
    assert_eq!(
        made,
        Interaction {
            what: InteractionType::Reaction,
            source: U2,
            targets: vec![U1],
            channel: C,
            guild: G,
            reference: None,
        }
    );
    let changes = social.process_interaction(&made);
    assert_eq!(
        changes,
        vec![RelationshipChange { source: U2, target: U1, reason: Reason::Reaction, delta: 1 }]
    );
    let graph = social.build_guild_graph(G).ok().unwrap();
    assert_eq!(graph.weight(U2, U1), 1);
    assert_eq!(graph.weight(U1, U2), 1);
}

#[test]
fn unknown_guild_is_not_found_and_stays_unknown() {
    let mut social = SocialGraph::new();
    social.ensure_graph(G, C);
    assert_eq!(social.build_guild_graph(777).err(), Some(Error::NotFound));
    assert_eq!(social.build_guild_graph(777).err(), Some(Error::NotFound));
    assert_eq!(social.get_all_guild_ids(), vec![G]);
}

#[test]
fn reply_targets_the_author_of_the_answered_message() {
    let mut reply = message(101, U1, &[U2, U3, U2]);
    reply.kind = MessageKind::Reply;
    reply.reference = Some(MessageReference { channel_id: Some(C), message_id: Some(100) });
    let answered = CachedMessage { author_id: U3, kind: MessageKind::Regular };
    let made = Interaction::new_from_message(&reply, Some(&answered)).unwrap();
    assert_eq!(made.targets, vec![U2, U3]);
    assert_eq!(made.reference, Some(answered));
    let other = CachedMessage { author_id: 9, kind: MessageKind::Regular };
    let made = Interaction::new_from_message(&reply, Some(&other)).unwrap();
    assert_eq!(made.targets, vec![U2, U3, 9]);
    let social = SocialGraph::new();
    let changes = social.infer(&made);
    assert_eq!(changes.len(), 3);
    for (made, target) in changes.iter().zip([U2, U3, 9]) {
        assert_eq!(
            *made,
            RelationshipChange { source: U1, target, reason: Reason::Reply, delta: 1 }
        );
    }
}

#[test]
fn events_without_guild_make_no_interaction() {
    let mut direct = message(100, U1, &[U2]);
    direct.guild_id = None;
    assert_eq!(Interaction::new_from_message(&direct, None), Err(Error::MissingGuildContext));
    let reaction =
        Reaction { user_id: U2, channel_id: C, message_id: 100, guild_id: None, member: None };
    let target = CachedMessage { author_id: U1, kind: MessageKind::Regular };
    assert_eq!(Interaction::new_from_reaction(&reaction, &target), Err(Error::MissingGuildContext));
}

#[test]
fn infer_is_the_same_for_the_same_interaction() {
    let mut social = SocialGraph::new();
    let made = interaction(U1, &[U2, U3], C, G);
    let first = social.infer(&made);
    social.apply(&made, &first);
    let second = social.infer(&made);
    assert_eq!(first, second);
    assert_eq!(first, vec![change(U1, U2, DEFAULT_INCREMENT), change(U1, U3, DEFAULT_INCREMENT)]);
    assert_eq!(DEFAULT_INCREMENT, 1);
}

#[test]
fn apply_adds_each_time() {
    let mut social = SocialGraph::new();
    let made = interaction(U1, &[U2], C, G);
    for _ in 0..5 {
        social.apply(&made, &[change(U1, U2, 1)].to_vec());
    }
    assert_eq!(social.build_guild_graph(G).ok().unwrap().weight(U1, U2), 5);
    social.apply(&made, &vec![change(U1, U2, 10), change(U1, U2, 100), change(U2, U1, 3)]);
    let graph = social.build_guild_graph(G).ok().unwrap();
    assert_eq!(graph.weight(U1, U2), 115);
    assert_eq!(graph.weight(U2, U1), 3);
}

#[test]
fn apply_without_changes_does_nothing() {
    let mut social = SocialGraph::new();
    social.apply(&interaction(U1, &[], C, G), &vec![]);
    assert_eq!(social.get_all_guild_ids(), Vec::<u64>::new());
    assert_eq!(social.build_guild_graph(G).err(), Some(Error::NotFound));
}

#[test]
fn weights_stop_at_the_largest() {
    let mut social = SocialGraph::new();
    let made = interaction(U1, &[U2], C, G);
    social.apply(&made, &vec![change(U1, U2, u64::MAX - 1)]);
    social.apply(&made, &vec![change(U1, U2, 5)]);
    assert_eq!(social.build_guild_graph(G).ok().unwrap().weight(U1, U2), u64::MAX);
    social.apply(&interaction(U1, &[U2], C + 1, G), &vec![change(U1, U2, 5)]);
    assert_eq!(social.build_guild_graph(G).ok().unwrap().weight(U1, U2), u64::MAX);
}

#[test]
fn guild_graph_sums_over_channels() {
    let mut social = SocialGraph::new();
    social.apply(&interaction(U1, &[U2], C, G), &vec![change(U1, U2, 2)]);
    social.apply(&interaction(U1, &[U2], C + 1, G), &vec![change(U1, U2, 3), change(U3, U1, 1)]);
    social.apply(&interaction(U1, &[U2], C, G + 1), &vec![change(U1, U2, 50)]);
    let graph = social.build_guild_graph(G).ok().unwrap();
    assert_eq!(graph.weight(U1, U2), 5);
    assert_eq!(graph.weight(U3, U1), 1);
    assert_eq!(graph.edges(), vec![((U1, U2), 5), ((U3, U1), 1)]);
    assert_eq!(graph.nodes(), vec![U1, U2, U3]);
    assert_eq!(social.build_guild_graph(G + 1).ok().unwrap().weight(U1, U2), 50);
    let mut ids = social.get_all_guild_ids();
    ids.sort();
    assert_eq!(ids, vec![G, G + 1]);
}

#[test]
fn removing_channels_and_guilds_drops_their_graphs() {
    let mut social = SocialGraph::new();
    social.apply(&interaction(U1, &[U2], C, G), &vec![change(U1, U2, 2)]);
    social.apply(&interaction(U1, &[U2], C + 1, G), &vec![change(U1, U2, 3)]);
    social.apply(&interaction(U1, &[U2], C, G + 1), &vec![change(U1, U2, 50)]);
    social.remove_channel(G, C + 7);
    social.remove_channel(G, C);
    assert_eq!(social.build_guild_graph(G).ok().unwrap().weight(U1, U2), 3);
    social.remove_guild(G);
    social.remove_guild(G);
    assert_eq!(social.build_guild_graph(G).err(), Some(Error::NotFound));
    assert_eq!(social.get_all_guild_ids(), vec![G + 1]);
    social.remove_channel(G + 1, C);
    assert_eq!(social.get_all_guild_ids(), Vec::<u64>::new());
}

#[test]
fn graphs_come_and_go_with_guilds_and_channels() {
    let mut social = SocialGraph::new();
    let guild = Guild {
        id: G,
        name: "Guild".to_string(),
        icon: None,
        owner_id: 9,
        roles: vec![],
        channels: vec![
            channel(C, Some(G), ChannelKind::GuildText),
            channel(C + 1, Some(G), ChannelKind::GuildVoice),
        ],
    };
    assert_eq!(handle_event(&mut social, &Event::GuildCreate(guild), 999), Pending::Nothing);
    assert_eq!(social.get_all_guild_ids(), vec![G]);
    assert_eq!(social.build_guild_graph(G).ok().unwrap().edges(), vec![]);
    let text = channel(C + 2, Some(G + 1), ChannelKind::GuildText);
    handle_event(&mut social, &Event::ChannelCreate(text.clone()), 999);
    handle_event(&mut social, &Event::ChannelCreate(channel(C, Some(G + 2), ChannelKind::GuildVoice)), 999);
    handle_event(&mut social, &Event::ChannelCreate(channel(C, None, ChannelKind::GuildText)), 999);
    assert_eq!(social.get_all_guild_ids(), vec![G, G + 1]);
    handle_event(&mut social, &Event::ChannelDelete(text), 999);
    handle_event(&mut social, &Event::ChannelDelete(channel(C, None, ChannelKind::GuildText)), 999);
    assert_eq!(social.get_all_guild_ids(), vec![G]);
    handle_event(&mut social, &Event::GuildDelete { id: G }, 999);
    assert_eq!(social.get_all_guild_ids(), Vec::<u64>::new());
    assert_eq!(handle_event(&mut social, &Event::Other, 999), Pending::Nothing);
}

#[test]
fn only_messages_by_people_make_interactions() {
    let mut social = SocialGraph::new();
    let plain = message(100, U1, &[U2]);
    let pending = |social: &mut SocialGraph, message: &Message| {
        handle_event(social, &Event::MessageCreate(message.clone()), 999)
    };
    assert_eq!(pending(&mut social, &plain), Pending::Message { reference: None });

    let mut own = plain.clone();
    own.author.id = 999;
    assert_eq!(pending(&mut social, &own), Pending::Nothing);

    let mut bot = plain.clone();
    bot.author.bot = true;
    assert_eq!(pending(&mut social, &bot), Pending::Nothing);

    let mut hook = plain.clone();
    hook.webhook_id = Some(5);
    assert_eq!(pending(&mut social, &hook), Pending::Nothing);

    let mut join = plain.clone();
    join.kind = MessageKind::Other(7);
    assert_eq!(pending(&mut social, &join), Pending::Nothing);

    let mut reply = plain.clone();
    reply.kind = MessageKind::Reply;
    reply.reference = Some(MessageReference { channel_id: Some(C), message_id: Some(42) });
    assert_eq!(pending(&mut social, &reply), Pending::Message { reference: Some((C, 42)) });
    reply.reference = Some(MessageReference { channel_id: None, message_id: Some(42) });
    assert_eq!(pending(&mut social, &reply), Pending::Message { reference: None });

    let reaction =
        Reaction { user_id: 999, channel_id: C, message_id: 100, guild_id: Some(G), member: None };
    assert_eq!(handle_event(&mut social, &Event::ReactionAdd(reaction), 999), Pending::Nothing);
    assert_eq!(social.get_all_guild_ids(), Vec::<u64>::new());
}

#[test]
fn reasons_have_their_codes() {
    assert_eq!(Reason::Mention.code(), 0);
    assert_eq!(Reason::Reply.code(), 1);
    assert_eq!(Reason::Reaction.code(), 2);
}

#[test]
fn cold_message_lookup_names_the_channel() {
    let mut cache = Cache::new();
    assert_eq!(
        cache.get_message(C, 100),
        Lookup::Miss(Fetch::Message { channel_id: C, message_id: 100 })
    );
}

#[test]
fn graph_is_written_for_graphviz() {
    let mut social = SocialGraph::new();
    social.apply(&interaction(U1, &[U2], C, G), &vec![change(U1, U2, 2), change(U3, U1, 1)]);
    let graph = social.build_guild_graph(G).ok().unwrap();
    let labels = vec![
        (U1, "alice#0007".to_string()),
        (U2, "bob".to_string()),
        (U3, "carol".to_string()),
        (U2, "later labels do not count".to_string()),
    ];
    let text = graph.to_dot(&labels).unwrap();
    let expected = "digraph {\n    0 [ label = \"alice#0007\"]\n    1 [ label = \"bob\"]\n    2 [ label = \"carol\"]\n    0 -> 1 [ label = \"2\"]\n    2 -> 0 [ label = \"1\"]\n}\n";
    assert_eq!(text, expected);
}

#[test]
fn graph_with_an_unlabelled_node_is_not_written() {
    let mut social = SocialGraph::new();
    social.apply(&interaction(U1, &[U2], C, G), &vec![change(U1, U2, 2)]);
    let graph = social.build_guild_graph(G).ok().unwrap();
    assert_eq!(graph.to_dot(&vec![(U1, "alice".to_string())]), Err(Error::NotFound));
    assert_eq!(graph.to_dot(&vec![]), Err(Error::NotFound));
}

#[test]
fn empty_graph_is_written_without_nodes() {
    let mut social = SocialGraph::new();
    social.ensure_graph(G, C);
    let graph = social.build_guild_graph(G).ok().unwrap();
    assert_eq!(graph.to_dot(&vec![]).unwrap(), "digraph {\n}\n");
}

#[test]
fn changes_are_written_down_one_row_each() {
    let made = interaction(U1, &[U2, U3], C, G);
    let changes = vec![
        RelationshipChange { source: U1, target: U2, reason: Reason::Reply, delta: 1 },
        RelationshipChange { source: U1, target: U3, reason: Reason::Reaction, delta: 1 },
    ];
    let rows = event_rows(&made, &changes, 1_700_000_000_000);
    let row = |target: u64, reason: u8| EventRow {
        timestamp: 1_700_000_000_000,
        guild: G,
        channel: C,
        source: U1,
        target,
        reason,
    };
    assert_eq!(rows, vec![row(U2, 1), row(U3, 2)]);
    assert_eq!(event_rows(&made, &vec![], 5), vec![]);
}
