use social_graph::cache::{CachedChannel, CachedGuild, CachedMember, CachedUser};
use social_graph::inference::{Interaction, InteractionType, Participant};
use social_graph::model::ChannelKind;

fn participant(name: &str, discriminator: u16, nick: Option<&str>) -> Participant {
    Participant {
        user: CachedUser {
            id: 1,
            name: name.to_string(),
            discriminator,
            avatar: None,
            bot: false,
        },
        member: CachedMember { nick: nick.map(|nick| nick.to_string()), roles: vec![] },
    }
}

fn place() -> (CachedChannel, CachedGuild) {
    (
        CachedChannel { id: 600, name: "general".to_string(), kind: ChannelKind::GuildText },
        CachedGuild { id: 500, name: "Guild".to_string(), icon: None, roles: vec![], owner_id: 9 },
    )
}

fn interaction(what: InteractionType, targets: Vec<u64>) -> Interaction {
    Interaction { what, source: 1, targets, channel: 600, guild: 500, reference: None }
}

#[test]
fn display_name_shows_nick_name_and_tag() {
    assert_eq!(participant("alice", 7, Some("Al")).display_name(), "\"Al\" (alice#0007)");
    assert_eq!(participant("alice", 42, None).display_name(), "\"alice\" (alice#0042)");
    assert_eq!(participant("bob", 123, None).display_name(), "\"bob\" (bob#0123)");
    assert_eq!(participant("bob", 1234, None).display_name(), "\"bob\" (bob#1234)");
    assert_eq!(participant("bob", 0, None).display_name(), "\"bob\" (bob#0000)");
    assert_eq!(participant("bob", 65535, None).display_name(), "\"bob\" (bob#65535)");
}

#[test]
fn label_is_nick_or_name_and_tag() {
    assert_eq!(participant("alice", 7, Some("Al")).label(), "Al");
    assert_eq!(participant("alice", 7, None).label(), "alice#0007");
}

#[test]
fn message_is_described() {
    let (channel, guild) = place();
    let text = interaction(InteractionType::Message, vec![2, 3]).to_string(
        &participant("alice", 1, Some("Al")),
        &vec![participant("bob", 2, None), participant("carol", 3, Some("C"))],
        &channel,
        &guild,
    );
    assert_eq!(
        text,
        "new message from \"Al\" (alice#0001) in #general @ \"Guild\", mentions: [\"bob\" (bob#0002), \"C\" (carol#0003)]"
    );
}

#[test]
fn message_without_targets_is_described() {
    let (channel, guild) = place();
    let text = interaction(InteractionType::Message, vec![]).to_string(
        &participant("alice", 1, None),
        &vec![],
        &channel,
        &guild,
    );
    assert_eq!(text, "new message from \"alice\" (alice#0001) in #general @ \"Guild\", mentions: []");
}

#[test]
fn reaction_is_described() {
    let (channel, guild) = place();
    let text = interaction(InteractionType::Reaction, vec![2]).to_string(
        &participant("bob", 2, None),
        &vec![participant("alice", 1, Some("Al"))],
        &channel,
        &guild,
    );
    assert_eq!(
        text,
        "\"bob\" (bob#0002) reacted to a message by \"Al\" (alice#0001) in #general @ \"Guild\""
    );
}
