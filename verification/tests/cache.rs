use social_graph::cache::{
    Cache, CachedChannel, CachedGuild, CachedMember, CachedMessage, CachedRole, CachedUser, Fetch,
    Fetched, Lookup,
};
use social_graph::model::{
    Channel, ChannelKind, Event, Guild, ImageHash, Member, MemberUpdate, Mention, Message,
    MessageKind, MessageUpdate, PartialGuild, PartialMember, Reaction, Role, User,
};
use social_graph::Error;

fn user(id: u64, name: &str) -> User {
    User { id, name: name.to_string(), discriminator: 1, avatar: None, bot: false }
}

fn cached(id: u64, name: &str) -> CachedUser {
    CachedUser { id, name: name.to_string(), discriminator: 1, avatar: None, bot: false }
}

fn mention(id: u64, name: &str, member: Option<PartialMember>) -> Mention {
    Mention { id, name: name.to_string(), discriminator: 1, avatar: None, bot: false, member }
}

fn role(id: u64, name: &str) -> Role {
    Role { id, name: name.to_string(), color: 0xff0000, position: 3, permissions: 8 }
}

fn channel(id: u64, name: Option<&str>, kind: ChannelKind) -> Channel {
    Channel { id, guild_id: Some(1), name: name.map(|n| n.to_string()), kind }
}

fn message(id: u64, author: User, mentions: Vec<Mention>) -> Message {
    Message {
        id,
        channel_id: 20,
        guild_id: Some(1),
        author,
        member: Some(PartialMember { nick: Some("nick".to_string()), roles: vec![7] }),
        mentions,
        kind: MessageKind::Regular,
        reference: None,
        webhook_id: None,
        content: String::new(),
    }
}

#[test]
fn new_cache_is_empty() {
    let cache = Cache::new();
    let stats = cache.get_stats();
    assert_eq!(stats.users, 0);
    assert_eq!(stats.guilds, 0);
    assert_eq!(stats.roles, 0);
    assert_eq!(stats.members, 0);
    assert_eq!(stats.channels, 0);
    assert_eq!(stats.messages, 0);
}

#[test]
fn cold_lookup_asks_for_one_fetch_and_then_hits() {
    let mut cache = Cache::new();
    let mut fetches = 0;
    let first = match cache.get_user(3) {
        Lookup::Hit(found) => found,
        Lookup::Miss(fetch) => {
            assert_eq!(fetch, Fetch::User { user_id: 3 });
            fetches += 1;
            cache.user_fetched(Fetched::Found(user(3, "carol"))).unwrap()
        }
    };
    assert_eq!(fetches, 1);
    assert_eq!(first, cached(3, "carol"));
    let second = match cache.get_user(3) {
        Lookup::Hit(found) => found,
        Lookup::Miss(_) => {
            fetches += 1;
            cache.user_fetched(Fetched::Found(user(3, "carol"))).unwrap()
        }
    };
    assert_eq!(fetches, 1);
    assert_eq!(second, first);
}

#[test]
fn least_recently_used_user_is_evicted() {
    let mut cache = Cache::with_capacity(2);
    cache.put_user(&user(1, "u1"));
    cache.put_user(&user(2, "u2"));
    assert_eq!(cache.get_user(1), Lookup::Hit(cached(1, "u1")));
    cache.put_user(&user(3, "u3"));
    assert_eq!(cache.get_stats().users, 2);
    assert_eq!(cache.get_user(2), Lookup::Miss(Fetch::User { user_id: 2 }));
    assert_eq!(cache.get_user(1), Lookup::Hit(cached(1, "u1")));
    assert_eq!(cache.get_user(3), Lookup::Hit(cached(3, "u3")));
}

#[test]
fn one_key_more_than_capacity_evicts_the_first_stored() {
    let mut cache = Cache::with_capacity(3);
    for id in 1..=4 {
        cache.put_user(&user(id, "someone"));
    }
    assert_eq!(cache.get_stats().users, 3);
    assert_eq!(cache.get_user(1), Lookup::Miss(Fetch::User { user_id: 1 }));
    for id in 2..=4 {
        assert_eq!(cache.get_user(id), Lookup::Hit(cached(id, "someone")));
    }
}

#[test]
fn storing_again_replaces_the_record() {
    let mut cache = Cache::with_capacity(2);
    cache.put_user(&user(1, "old"));
    cache.put_user(&user(1, "new"));
    assert_eq!(cache.get_stats().users, 1);
    assert_eq!(cache.get_user(1), Lookup::Hit(cached(1, "new")));
}

#[test]
fn tables_do_not_share_their_budget() {
    let mut cache = Cache::with_capacity(1);
    cache.put_user(&user(1, "u1"));
    cache.put_role(&role(1, "r1"));
    cache.put_channel(&channel(1, Some("general"), ChannelKind::GuildText));
    let stats = cache.get_stats();
    assert_eq!((stats.users, stats.roles, stats.channels), (1, 1, 1));
    assert_eq!(cache.get_user(1), Lookup::Hit(cached(1, "u1")));
}

#[test]
fn message_backfills_author_and_mentions() {
    let mut cache = Cache::new();
    let member = PartialMember { nick: None, roles: vec![9, 10] };
    let stored = message(
        100,
        user(1, "alice"),
        vec![mention(2, "bob", Some(member)), mention(3, "carol", None)],
    );
    cache.put_message(&stored);
    assert_eq!(
        cache.get_message(20, 100),
        Lookup::Hit(CachedMessage { author_id: 1, kind: MessageKind::Regular })
    );
    assert_eq!(cache.get_user(1), Lookup::Hit(cached(1, "alice")));
    assert_eq!(cache.get_user(2), Lookup::Hit(cached(2, "bob")));
    assert_eq!(cache.get_user(3), Lookup::Hit(cached(3, "carol")));
    assert_eq!(
        cache.get_member(1, 1),
        Lookup::Hit(CachedMember { nick: Some("nick".to_string()), roles: vec![7] })
    );
    assert_eq!(cache.get_member(1, 2), Lookup::Hit(CachedMember { nick: None, roles: vec![9, 10] }));
    assert_eq!(cache.get_member(1, 3), Lookup::Miss(Fetch::Member { guild_id: 1, user_id: 3 }));
    let stats = cache.get_stats();
    assert_eq!((stats.users, stats.members, stats.messages), (3, 2, 1));
}

#[test]
fn message_without_guild_stores_no_member() {
    let mut cache = Cache::new();
    let mut stored = message(100, user(1, "alice"), vec![]);
    stored.guild_id = None;
    cache.put_message(&stored);
    assert_eq!(cache.get_stats().members, 0);
    assert_eq!(cache.get_stats().users, 1);
}

#[test]
fn more_users_than_capacity_cannot_all_stay() {
    let mut cache = Cache::with_capacity(2);
    let stored =
        message(100, user(1, "alice"), vec![mention(2, "bob", None), mention(3, "carol", None)]);
    cache.put_message(&stored);
    assert_eq!(cache.get_user(1), Lookup::Miss(Fetch::User { user_id: 1 }));
    assert_eq!(cache.get_user(3), Lookup::Hit(cached(3, "carol")));
}

#[test]
fn fetched_answers_map_to_errors() {
    let mut cache = Cache::new();
    assert_eq!(cache.user_fetched(Fetched::Missing), Err(Error::NotFound));
    assert_eq!(cache.user_fetched(Fetched::Failed), Err(Error::RemoteError));
    assert_eq!(cache.guild_fetched(Fetched::Missing), Err(Error::NotFound));
    assert_eq!(cache.guild_fetched(Fetched::Failed), Err(Error::RemoteError));
    assert_eq!(cache.member_fetched(1, Fetched::Missing), Err(Error::NotFound));
    assert_eq!(cache.member_fetched(1, Fetched::Failed), Err(Error::RemoteError));
    assert_eq!(cache.channel_fetched(Fetched::Missing), Err(Error::NotFound));
    assert_eq!(cache.channel_fetched(Fetched::Failed), Err(Error::RemoteError));
    assert_eq!(cache.message_fetched(Fetched::Missing), Err(Error::NotFound));
    assert_eq!(cache.message_fetched(Fetched::Failed), Err(Error::RemoteError));
    assert_eq!(cache.roles_fetched(1, Fetched::Missing), Err(Error::NotFound));
    assert_eq!(cache.roles_fetched(1, Fetched::Failed), Err(Error::RemoteError));
    assert_eq!(cache.get_stats().users, 0);
}

#[test]
fn fetched_roles_are_all_stored() {
    let mut cache = Cache::new();
    assert_eq!(cache.get_role(1, 6), Lookup::Miss(Fetch::Roles { guild_id: 1 }));
    let found = cache.roles_fetched(6, Fetched::Found(vec![role(5, "mod"), role(6, "admin")]));
    assert_eq!(
        found,
        Ok(CachedRole {
            id: 6,
            name: "admin".to_string(),
            color: 0xff0000,
            position: 3,
            permissions: 8
        })
    );
    assert_eq!(cache.get_stats().roles, 2);
    assert!(matches!(cache.get_role(1, 5), Lookup::Hit(_)));
    let absent = cache.roles_fetched(7, Fetched::Found(vec![role(5, "mod")]));
    assert_eq!(absent, Err(Error::NotFound));
}

#[test]
fn fetched_guild_brings_channels_and_roles() {
    let mut cache = Cache::new();
    let guild = Guild {
        id: 1,
        name: "Guild".to_string(),
        icon: Some(ImageHash { animated: true, bytes: 42 }),
        owner_id: 9,
        roles: vec![role(5, "mod"), role(6, "admin")],
        channels: vec![
            channel(20, Some("general"), ChannelKind::GuildText),
            channel(21, None, ChannelKind::GuildVoice),
        ],
    };
    assert_eq!(cache.get_guild(1), Lookup::Miss(Fetch::Guild { guild_id: 1 }));
    let found = cache.guild_fetched(Fetched::Found(guild)).unwrap();
    let expected = CachedGuild {
        id: 1,
        name: "Guild".to_string(),
        icon: Some(ImageHash { animated: true, bytes: 42 }),
        roles: vec![5, 6],
        owner_id: 9,
    };
    assert_eq!(found, expected);
    assert_eq!(cache.get_guild(1), Lookup::Hit(expected));
    let stats = cache.get_stats();
    assert_eq!((stats.guilds, stats.roles, stats.channels), (1, 2, 2));
    assert_eq!(
        cache.get_channel(21),
        Lookup::Hit(CachedChannel {
            id: 21,
            name: "GuildVoice:21".to_string(),
            kind: ChannelKind::GuildVoice
        })
    );
}

#[test]
fn channel_without_name_gets_kind_and_id() {
    let named = CachedChannel::from_channel(&channel(5, Some("general"), ChannelKind::GuildText));
    assert_eq!(named.name, "general");
    let plain = CachedChannel::from_channel(&channel(5, None, ChannelKind::GuildText));
    assert_eq!(plain.name, "GuildText:5");
    let unknown = CachedChannel::from_channel(&channel(77, None, ChannelKind::Unknown(200)));
    assert_eq!(unknown.name, "Unknown(200):77");
}

#[test]
fn fetched_member_brings_the_user() {
    let mut cache = Cache::new();
    let member = Member { user: user(4, "dave"), nick: Some("d".to_string()), roles: vec![1, 2] };
    let found = cache.member_fetched(1, Fetched::Found(member)).unwrap();
    assert_eq!(found, CachedMember { nick: Some("d".to_string()), roles: vec![1, 2] });
    assert_eq!(cache.get_user(4), Lookup::Hit(cached(4, "dave")));
    assert_eq!(cache.get_member(1, 4), Lookup::Hit(found));
    assert_eq!(cache.get_member(2, 4), Lookup::Miss(Fetch::Member { guild_id: 2, user_id: 4 }));
}

#[test]
fn fetched_message_is_stored_with_its_author() {
    let mut cache = Cache::new();
    assert_eq!(
        cache.get_message(20, 100),
        Lookup::Miss(Fetch::Message { channel_id: 20, message_id: 100 })
    );
    let found = cache.message_fetched(Fetched::Found(message(100, user(1, "alice"), vec![])));
    assert_eq!(found, Ok(CachedMessage { author_id: 1, kind: MessageKind::Regular }));
    assert_eq!(cache.get_user(1), Lookup::Hit(cached(1, "alice")));
}

#[test]
fn update_stores_text_channels_only() {
    let mut cache = Cache::new();
    cache.update(&Event::ChannelCreate(channel(1, Some("general"), ChannelKind::GuildText)));
    cache.update(&Event::ChannelCreate(channel(2, Some("voice"), ChannelKind::GuildVoice)));
    cache.update(&Event::ChannelUpdate(channel(3, Some("talk"), ChannelKind::GuildText)));
    cache.update(&Event::ChannelUpdate(channel(4, Some("cat"), ChannelKind::GuildCategory)));
    assert_eq!(cache.get_stats().channels, 2);
    assert!(matches!(cache.get_channel(1), Lookup::Hit(_)));
    assert!(matches!(cache.get_channel(2), Lookup::Miss(_)));
    assert!(matches!(cache.get_channel(3), Lookup::Hit(_)));
}

#[test]
fn update_removes_deleted_channels_and_guilds() {
    let mut cache = Cache::new();
    let text = channel(1, Some("general"), ChannelKind::GuildText);
    cache.update(&Event::ChannelCreate(text.clone()));
    cache.update(&Event::GuildUpdate(PartialGuild {
        id: 1,
        name: "Guild".to_string(),
        icon: None,
        owner_id: 9,
        roles: vec![role(5, "mod")],
    }));
    assert_eq!((cache.get_stats().channels, cache.get_stats().guilds), (1, 1));
    cache.update(&Event::ChannelDelete(text));
    cache.update(&Event::GuildDelete { id: 1 });
    cache.update(&Event::GuildDelete { id: 2 });
    assert_eq!((cache.get_stats().channels, cache.get_stats().guilds), (0, 0));
    assert_eq!(cache.get_stats().roles, 1);
}

#[test]
fn update_takes_in_members() {
    let mut cache = Cache::new();
    let dave = Member { user: user(4, "dave"), nick: None, roles: vec![] };
    let erin = Member { user: user(5, "erin"), nick: Some("e".to_string()), roles: vec![3] };
    cache.update(&Event::MemberAdd { guild_id: 1, member: dave.clone() });
    cache.update(&Event::MemberChunk { guild_id: 2, members: vec![dave, erin.clone()] });
    cache.update(&Event::MemberUpdate(MemberUpdate {
        guild_id: 1,
        user: user(4, "david"),
        nick: Some("dd".to_string()),
        roles: vec![8],
    }));
    let stats = cache.get_stats();
    assert_eq!((stats.users, stats.members), (2, 3));
    assert_eq!(cache.get_user(4), Lookup::Hit(cached(4, "david")));
    assert_eq!(
        cache.get_member(1, 4),
        Lookup::Hit(CachedMember { nick: Some("dd".to_string()), roles: vec![8] })
    );
    assert_eq!(cache.get_member(2, 4), Lookup::Hit(CachedMember { nick: None, roles: vec![] }));
    cache.update(&Event::ReactionAdd(Reaction {
        user_id: 5,
        channel_id: 20,
        message_id: 100,
        guild_id: Some(3),
        member: Some(erin.clone()),
    }));
    cache.update(&Event::ReactionAdd(Reaction {
        user_id: 5,
        channel_id: 20,
        message_id: 100,
        guild_id: None,
        member: Some(erin),
    }));
    assert_eq!(cache.get_stats().members, 4);
    assert!(matches!(cache.get_member(3, 5), Lookup::Hit(_)));
}

#[test]
fn update_takes_in_messages_and_edits() {
    let mut cache = Cache::new();
    cache.update(&Event::MessageCreate(message(100, user(1, "alice"), vec![])));
    cache.update(&Event::MessageUpdate(MessageUpdate {
        id: 101,
        guild_id: Some(1),
        author: Some(user(2, "bob")),
        member: Some(PartialMember { nick: Some("bobby".to_string()), roles: vec![4] }),
        mentions: Some(vec![mention(3, "carol", Some(PartialMember { nick: None, roles: vec![] }))]),
        kind: None,
    }));
    assert_eq!(cache.get_stats().messages, 1);
    assert_eq!(cache.get_stats().users, 3);
    assert_eq!(cache.get_stats().members, 3);
    assert_eq!(
        cache.get_member(1, 2),
        Lookup::Hit(CachedMember { nick: Some("bobby".to_string()), roles: vec![4] })
    );
    cache.update(&Event::MessageUpdate(MessageUpdate {
        id: 101,
        guild_id: None,
        author: Some(user(2, "bob")),
        member: Some(PartialMember { nick: None, roles: vec![] }),
        mentions: None,
        kind: Some(MessageKind::Reply),
    }));
    assert_eq!(cache.get_stats().members, 3);
    assert_eq!(
        cache.get_message(20, 101),
        Lookup::Hit(CachedMessage { author_id: 2, kind: MessageKind::Reply })
    );
    cache.update(&Event::MessageUpdate(MessageUpdate {
        id: 102,
        guild_id: Some(1),
        author: None,
        member: Some(PartialMember { nick: None, roles: vec![] }),
        mentions: None,
        kind: Some(MessageKind::Regular),
    }));
    assert_eq!(cache.get_stats().messages, 2);
    assert_eq!(cache.get_stats().members, 3);
}

#[test]
fn update_takes_in_roles_and_ignores_the_rest() {
    let mut cache = Cache::new();
    cache.update(&Event::RoleCreate { guild_id: 1, role: role(5, "mod") });
    cache.update(&Event::RoleUpdate { guild_id: 1, role: role(5, "moderator") });
    cache.update(&Event::Other);
    assert_eq!(cache.get_stats().roles, 1);
    match cache.get_role(1, 5) {
        Lookup::Hit(found) => assert_eq!(found.name, "moderator"),
        Lookup::Miss(_) => panic!("the role was stored"),
    }
}
