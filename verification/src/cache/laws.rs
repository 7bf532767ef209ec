//! What holds of the cache whatever it is fed.

use vstd::prelude::*;
use crate::cache::entity::{
    channel_record, guild_record, member_record, mention_record, message_record, role_record,
    user_record, RecordView,
};
use crate::cache::recency::{
    has_key, inserted, inserted_all, keys, lemma_has_key, lemma_inserted_all,
    lemma_inserted_well_formed, lemma_position, lemma_promoted_well_formed, lemma_recent,
    lemma_recent_distinct, lookup, position, promoted, recent, well_formed, Key,
};
use crate::cache::state::{
    entry_fits, global_key, lemma_discard, lemma_store, lemma_touch, member_key, CacheModel,
    Entries, Kind,
};
use crate::model::{Channel, Guild, Member, Mention, Message, Role, User};

verus! {

/// Fetch-through.  A key that is not in its table is a miss, the one fetch
/// that it costs.  Once the answer is stored it is found under its key, and
/// no lookup, of this key or another, changes what any key holds: a repeated
/// lookup is a hit with the same record, and asks for no further fetch.
pub proof fn law_fetch_through(model: CacheModel, kind: Kind, key: Key, value: RecordView, used: Key)
    requires
        model.wf(),
        entry_fits(kind, (key, value)),
    ensures
        !has_key(model.table(kind), key) ==> lookup(model.table(kind), key) is None,
        lookup(model.store(kind, key, value).table(kind), key) == Some(value),
        lookup(model.store(kind, key, value).touch(kind, used).table(kind), key) == Some(value),
        model.store(kind, key, value).touch(kind, used).wf(),
{
    lemma_store(model, kind, key, value);
    lemma_touch(model.store(kind, key, value), kind, used);
}

/// Independence.  Whatever is stored, looked up or removed in one table,
/// every other table stays as it is, and no table ever holds more than the
/// capacity.
pub proof fn law_tables_independent(
    model: CacheModel,
    kind: Kind,
    other: Kind,
    key: Key,
    value: RecordView,
)
    requires
        model.wf(),
        entry_fits(kind, (key, value)),
        other != kind,
    ensures
        model.store(kind, key, value).table(other) == model.table(other),
        model.touch(kind, key).table(other) == model.table(other),
        model.discard(kind, key).table(other) == model.table(other),
        model.store(kind, key, value).table(kind).len() <= model.capacity,
        model.touch(kind, key).table(kind).len() <= model.capacity,
        model.discard(kind, key).table(kind).len() <= model.capacity,
{
    lemma_store(model, kind, key, value);
    lemma_touch(model, kind, key);
    lemma_discard(model, kind, key);
    assert(well_formed(model.store(kind, key, value).table(kind), model.capacity));
    assert(well_formed(model.touch(kind, key).table(kind), model.capacity));
    assert(well_formed(model.discard(kind, key).table(kind), model.capacity));
}

/// A user that was fetched and stored is cached.
pub proof fn law_user_cached(model: CacheModel, user: User)
    requires
        model.wf(),
    ensures
        model.put_user(user).user(user.id) == Some(user_record(user)),
{
    lemma_store(model, Kind::User, global_key(user.id), RecordView::User(user_record(user)));
}

/// A role that was fetched and stored is cached.
pub proof fn law_role_cached(model: CacheModel, role: Role)
    requires
        model.wf(),
    ensures
        model.put_role(role).role(role.id) == Some(role_record(role)),
{
    lemma_store(model, Kind::Role, global_key(role.id), RecordView::Role(role_record(role)));
}

/// A channel that was fetched and stored is cached.
pub proof fn law_channel_cached(model: CacheModel, channel: Channel)
    requires
        model.wf(),
    ensures
        model.put_channel(channel).channel(channel.id) == Some(channel_record(channel)),
{
    lemma_store(
        model,
        Kind::Channel,
        global_key(channel.id),
        RecordView::Channel(channel_record(channel)),
    );
}

/// A guild that was fetched and stored is cached.
pub proof fn law_guild_cached(model: CacheModel, guild: Guild)
    requires
        model.wf(),
    ensures
        model.put_full_guild(guild).guild(guild.id) == Some(guild_record(guild)),
{
    let with_channels = model.put_channels(guild.channels@);
    lemma_put_channels(model, guild.channels@);
    lemma_put_roles(with_channels, guild.roles@);
    lemma_store(
        with_channels.put_roles(guild.roles@),
        Kind::Guild,
        global_key(guild.id),
        RecordView::Guild(guild_record(guild)),
    );
}

/// A membership that was fetched and stored is cached.
pub proof fn law_member_cached(model: CacheModel, guild_id: u64, member: Member)
    requires
        model.wf(),
    ensures
        model.put_full_member(guild_id, member).member(guild_id, member.user.id) == Some(
            member_record(member),
        ),
{
    lemma_store(
        model,
        Kind::User,
        global_key(member.user.id),
        RecordView::User(user_record(member.user)),
    );
    lemma_store(
        model.put_user(member.user),
        Kind::Member,
        member_key(guild_id, member.user.id),
        RecordView::Member(member_record(member)),
    );
}

/// A message that was fetched and stored is cached.
pub proof fn law_message_cached(model: CacheModel, message: Message)
    requires
        model.wf(),
    ensures
        model.put_message(message).message(message.id) == Some(message_record(message)),
{
    lemma_put_message(model, message);
    lemma_store(
        model.put_author(message).put_mentions(message.guild_id, message.mentions@),
        Kind::Message,
        global_key(message.id),
        RecordView::Message(message_record(message)),
    );
}

/// Eviction.  After as many pairs with distinct keys as the capacity and one
/// more are stored, with no lookup in between, the table holds all of them
/// but the first, the latest first: exactly the one stored first has left.
pub proof fn law_eviction_order<V>(entries: Seq<(Key, V)>, capacity: nat, pairs: Seq<(Key, V)>)
    requires
        well_formed(entries, capacity),
        keys(pairs).no_duplicates(),
        pairs.len() == capacity + 1,
    ensures
        inserted_all(entries, capacity, pairs) == pairs.drop_first().reverse(),
        !has_key(inserted_all(entries, capacity, pairs), pairs[0].0),
        forall|i: int|
            1 <= i < pairs.len() ==> lookup(
                inserted_all(entries, capacity, pairs),
                #[trigger] pairs[i].0,
            ) == Some(pairs[i].1),
{
    let first = pairs.drop_last();
    let last = pairs.last();
    assert(keys(first) =~= keys(pairs).drop_last());
    lemma_recent_distinct(first);
    lemma_inserted_all(entries, capacity, first);
    let full = inserted_all(entries, capacity, first);
    assert(full =~= first.reverse());
    assert(!has_key(full, last.0)) by {
        if has_key(full, last.0) {
            lemma_has_key(full, last.0);
            let at = position(full, last.0);
            let o = first.len() - 1 - at;
            assert(full[at] == first[o]);
            assert(keys(pairs)[o] == last.0);
            assert(keys(pairs)[pairs.len() - 1] == last.0);
        }
    }
    let after = inserted_all(entries, capacity, pairs);
    assert(after == inserted(full, capacity, last.0, last.1));
    let kept = pairs.drop_first().reverse();
    assert(after =~= kept);
    lemma_inserted_well_formed(full, capacity, last.0, last.1);
    assert(!has_key(after, pairs[0].0)) by {
        if has_key(after, pairs[0].0) {
            lemma_has_key(after, pairs[0].0);
            let at = position(after, pairs[0].0);
            let o = pairs.len() - 1 - at;
            assert(after[at] == pairs[o]);
            assert(keys(pairs)[o] == pairs[0].0);
            assert(keys(pairs)[0] == pairs[0].0);
        }
    }
    assert forall|i: int| 1 <= i < pairs.len() implies lookup(after, #[trigger] pairs[i].0) == Some(
        pairs[i].1,
    ) by {
        let at = pairs.len() - 1 - i;
        assert(after[at] == pairs[i]);
        lemma_position(after, at);
    }
}

/// A use protects.  The key that was looked up stands first, and where the
/// table holds two pairs or more it outlives the next insertion.
pub proof fn law_use_protects<V>(
    entries: Seq<(Key, V)>,
    capacity: nat,
    used: Key,
    key: Key,
    value: V,
)
    requires
        well_formed(entries, capacity),
        has_key(entries, used),
        capacity >= 2,
    ensures
        promoted(entries, used)[0].0 == used,
        has_key(inserted(promoted(entries, used), capacity, key, value), used),
{
    lemma_has_key(entries, used);
    lemma_promoted_well_formed(entries, capacity, used);
    let now = promoted(entries, used);
    assert(now[0] == entries[position(entries, used)]);
    let after = inserted(now, capacity, key, value);
    lemma_inserted_well_formed(now, capacity, key, value);
    if key == used {
        lemma_position(after, 0);
    } else {
        assert(after[1] == now[0]) by {
            if has_key(now, key) {
                lemma_has_key(now, key);
            }
        }
        lemma_position(after, 1);
    }
}

/// The user pairs that a message brings: its author's, then one for each
/// mention.
pub open spec fn message_users(message: Message) -> Entries {
    seq![(global_key(message.author.id), RecordView::User(user_record(message.author)))]
        + mention_users(message.mentions@)
}

/// The user pairs of a list of mentions.
pub open spec fn mention_users(mentions: Seq<Mention>) -> Entries {
    mentions.map_values(
        |mention: Mention| (global_key(mention.id), RecordView::User(mention_record(mention))),
    )
}

/// Storing a list of roles keeps the cache well formed.
pub proof fn lemma_put_roles(model: CacheModel, roles: Seq<Role>)
    requires
        model.wf(),
    ensures
        model.put_roles(roles).wf(),
    decreases roles.len(),
{
    if roles.len() > 0 {
        lemma_put_roles(model, roles.drop_last());
        let role = roles.last();
        lemma_store(
            model.put_roles(roles.drop_last()),
            Kind::Role,
            global_key(role.id),
            RecordView::Role(role_record(role)),
        );
    }
}

/// Storing a list of channels keeps the cache well formed.
pub proof fn lemma_put_channels(model: CacheModel, channels: Seq<Channel>)
    requires
        model.wf(),
    ensures
        model.put_channels(channels).wf(),
    decreases channels.len(),
{
    if channels.len() > 0 {
        lemma_put_channels(model, channels.drop_last());
        let channel = channels.last();
        lemma_store(
            model.put_channels(channels.drop_last()),
            Kind::Channel,
            global_key(channel.id),
            RecordView::Channel(channel_record(channel)),
        );
    }
}

/// Storing one mention keeps the cache well formed and writes one user pair.
pub proof fn lemma_put_mention(model: CacheModel, guild_id: Option<u64>, mention: Mention)
    requires
        model.wf(),
    ensures
        model.put_mention(guild_id, mention).wf(),
        model.put_mention(guild_id, mention).capacity == model.capacity,
        model.put_mention(guild_id, mention).users == inserted(
            model.users,
            model.capacity,
            global_key(mention.id),
            RecordView::User(mention_record(mention)),
        ),
{
    lemma_store(
        model,
        Kind::User,
        global_key(mention.id),
        RecordView::User(mention_record(mention)),
    );
    match (guild_id, mention.member) {
        (Some(guild_id), Some(member)) => {
            lemma_store(
                model.put_user_mention(mention),
                Kind::Member,
                member_key(guild_id, mention.id),
                RecordView::Member(crate::cache::entity::partial_member_record(member)),
            );
        },
        _ => {},
    }
}

/// Storing a list of mentions keeps the cache well formed and writes their
/// user pairs in order.
pub proof fn lemma_put_mentions(model: CacheModel, guild_id: Option<u64>, mentions: Seq<Mention>)
    requires
        model.wf(),
    ensures
        model.put_mentions(guild_id, mentions).wf(),
        model.put_mentions(guild_id, mentions).capacity == model.capacity,
        model.put_mentions(guild_id, mentions).users == inserted_all(
            model.users,
            model.capacity,
            mention_users(mentions),
        ),
    decreases mentions.len(),
{
    if mentions.len() > 0 {
        let shorter = mentions.drop_last();
        lemma_put_mentions(model, guild_id, shorter);
        lemma_put_mention(model.put_mentions(guild_id, shorter), guild_id, mentions.last());
        assert(mention_users(mentions).drop_last() =~= mention_users(shorter));
    }
}

/// Storing pairs after one pair is storing all of them in order.
pub proof fn lemma_inserted_all_after<V>(
    entries: Seq<(Key, V)>,
    capacity: nat,
    first: (Key, V),
    rest: Seq<(Key, V)>,
)
    ensures
        inserted_all(inserted(entries, capacity, first.0, first.1), capacity, rest) == inserted_all(
            entries,
            capacity,
            seq![first] + rest,
        ),
    decreases rest.len(),
{
    let all = seq![first] + rest;
    if rest.len() == 0 {
        assert(all.drop_last() =~= Seq::<(Key, V)>::empty());
        assert(inserted_all(entries, capacity, all.drop_last()) == entries);
    } else {
        lemma_inserted_all_after(entries, capacity, first, rest.drop_last());
        assert(all.drop_last() =~= seq![first] + rest.drop_last());
    }
}

/// Storing a message keeps the cache well formed and writes the user pairs
/// of its author and its mentions in order.
pub proof fn lemma_put_message(model: CacheModel, message: Message)
    requires
        model.wf(),
    ensures
        model.put_author(message).put_mentions(message.guild_id, message.mentions@).wf(),
        model.put_message(message).wf(),
        model.put_message(message).users == inserted_all(
            model.users,
            model.capacity,
            message_users(message),
        ),
{
    let author = (global_key(message.author.id), RecordView::User(user_record(message.author)));
    lemma_store(model, Kind::User, author.0, author.1);
    match (message.guild_id, message.member) {
        (Some(guild_id), Some(member)) => {
            lemma_store(
                model.put_user(message.author),
                Kind::Member,
                member_key(guild_id, message.author.id),
                RecordView::Member(crate::cache::entity::partial_member_record(member)),
            );
        },
        _ => {},
    }
    let with_author = model.put_author(message);
    assert(with_author.users == inserted(model.users, model.capacity, author.0, author.1));
    lemma_put_mentions(with_author, message.guild_id, message.mentions@);
    let with_mentions = with_author.put_mentions(message.guild_id, message.mentions@);
    lemma_store(
        with_mentions,
        Kind::Message,
        global_key(message.id),
        RecordView::Message(message_record(message)),
    );
    lemma_inserted_all_after(
        model.users,
        model.capacity,
        author,
        mention_users(message.mentions@),
    );
}

/// Backfill.  After a message is stored, its author and everyone it
/// mentions are cached users: no fetch is due for any of them.  This holds
/// where these users, each counted once, are no more than a table holds;
/// with more of them the first stored have left again.
pub proof fn law_message_backfill(model: CacheModel, message: Message, user_id: u64)
    requires
        model.wf(),
        recent(message_users(message)).len() <= model.capacity,
        user_id == message.author.id || exists|i: int|
            0 <= i < message.mentions@.len() && (#[trigger] message.mentions@[i]).id == user_id,
    ensures
        model.put_message(message).user(user_id) is Some,
{
    let pairs = message_users(message);
    let after = model.put_message(message);
    lemma_put_message(model, message);
    lemma_inserted_all(model.users, model.capacity, pairs);
    lemma_recent(pairs);
    let latest = recent(pairs);
    assert(after.table(Kind::User) == after.users);
    let at = if user_id == message.author.id {
        0
    } else {
        1 + choose|i: int|
            0 <= i < message.mentions@.len() && (#[trigger] message.mentions@[i]).id == user_id
    };
    assert(pairs[at].0 == global_key(user_id));
    let key = pairs[at].0;
    assert(has_key(latest, key));
    lemma_has_key(latest, key);
    let found = position(latest, key);
    assert(after.users[found] == latest[found]);
    lemma_position(after.users, found);
    assert(entry_fits(Kind::User, after.users[found]));
}

} // verus!
