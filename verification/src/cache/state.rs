//! The cache as a mathematical value, and what each write does to it.

use vstd::prelude::*;
use crate::cache::entity::{
    channel_record, guild_record, member_record, member_update_record, mention_record,
    message_record, partial_guild_record, partial_member_record, role_record, user_record,
    CachedChannelView, CachedGuildView, CachedMemberView, CachedMessage, CachedRoleView,
    CachedUserView, RecordView,
};
use crate::cache::recency::{
    has_key, inserted, lemma_has_key, lemma_inserted_well_formed, lemma_promoted_well_formed,
    lemma_removed_well_formed, lookup, position, promoted, removed, well_formed, Key,
};
use crate::model::{
    Channel, Event, Guild, Member, MemberUpdate, Mention, Message, MessageUpdate, PartialGuild,
    PartialMember, Reaction, Role, User,
};

verus! {

/// The pairs of one table, the most recently used first.
pub type Entries = Seq<(Key, RecordView)>;

/// The six kinds of entity, one table each.
#[derive(Clone, Copy, Debug, PartialEq, Eq, Structural)]
pub enum Kind {
    User,
    Guild,
    Role,
    Member,
    Channel,
    Message,
}

/// The key of an entity that belongs to no guild.
pub open spec fn global_key(id: u64) -> Key {
    (0u64, id)
}

/// The key of a user's profile in a guild.
pub open spec fn member_key(guild_id: u64, user_id: u64) -> Key {
    (guild_id, user_id)
}

/// Whether `entry` may stand in the table of `kind`: the record is of that
/// kind and is filed under its own id.
pub open spec fn entry_fits(kind: Kind, entry: (Key, RecordView)) -> bool {
    match kind {
        Kind::User => entry.1 matches RecordView::User(user) && entry.0 == global_key(user.id),
        Kind::Guild => entry.1 matches RecordView::Guild(guild) && entry.0 == global_key(guild.id),
        Kind::Role => entry.1 matches RecordView::Role(role) && entry.0 == global_key(role.id),
        Kind::Member => entry.1 is Member,
        Kind::Channel => entry.1 matches RecordView::Channel(channel) && entry.0 == global_key(
            channel.id,
        ),
        Kind::Message => entry.1 is Message && entry.0.0 == 0,
    }
}

/// Whether every pair of `entries` may stand in the table of `kind`.
pub open spec fn all_fit(kind: Kind, entries: Entries) -> bool {
    forall|i: int| 0 <= i < entries.len() ==> entry_fits(kind, #[trigger] entries[i])
}

/// The cache as a value: six tables of one capacity.
pub ghost struct CacheModel {
    pub capacity: nat,
    pub users: Entries,
    pub guilds: Entries,
    pub roles: Entries,
    pub members: Entries,
    pub channels: Entries,
    pub messages: Entries,
}

impl CacheModel {
    /// The cache with nothing in it.
    pub open spec fn empty(capacity: nat) -> CacheModel {
        CacheModel {
            capacity,
            users: Seq::empty(),
            guilds: Seq::empty(),
            roles: Seq::empty(),
            members: Seq::empty(),
            channels: Seq::empty(),
            messages: Seq::empty(),
        }
    }

    /// The empty cache is well formed.
    pub proof fn lemma_empty(capacity: nat)
        requires
            capacity > 0,
        ensures
            CacheModel::empty(capacity).wf(),
    {
        let model = CacheModel::empty(capacity);
        assert forall|kind: Kind|
            well_formed(#[trigger] model.table(kind), model.capacity) && all_fit(
                kind,
                model.table(kind),
            ) by {
            assert(model.table(kind) =~= Seq::<(Key, RecordView)>::empty());
            assert(crate::cache::recency::keys(model.table(kind)) =~= Seq::<Key>::empty());
        }
    }

    /// The table of `kind`.
    pub open spec fn table(self, kind: Kind) -> Entries {
        match kind {
            Kind::User => self.users,
            Kind::Guild => self.guilds,
            Kind::Role => self.roles,
            Kind::Member => self.members,
            Kind::Channel => self.channels,
            Kind::Message => self.messages,
        }
    }

    /// This cache with `entries` as its table of `kind`.
    pub open spec fn with_table(self, kind: Kind, entries: Entries) -> CacheModel {
        match kind {
            Kind::User => CacheModel { users: entries, ..self },
            Kind::Guild => CacheModel { guilds: entries, ..self },
            Kind::Role => CacheModel { roles: entries, ..self },
            Kind::Member => CacheModel { members: entries, ..self },
            Kind::Channel => CacheModel { channels: entries, ..self },
            Kind::Message => CacheModel { messages: entries, ..self },
        }
    }

    /// Every table is well formed and holds records of its own kind only.
    pub open spec fn wf(self) -> bool {
        forall|kind: Kind|
            #![trigger self.table(kind)]
            well_formed(self.table(kind), self.capacity) && all_fit(kind, self.table(kind))
    }

    /// After `value` is stored under `key` in the table of `kind`.
    pub open spec fn store(self, kind: Kind, key: Key, value: RecordView) -> CacheModel {
        self.with_table(kind, inserted(self.table(kind), self.capacity, key, value))
    }

    /// After a use of `key` in the table of `kind`.
    pub open spec fn touch(self, kind: Kind, key: Key) -> CacheModel {
        self.with_table(kind, promoted(self.table(kind), key))
    }

    /// After `key` is taken out of the table of `kind`.
    pub open spec fn discard(self, kind: Kind, key: Key) -> CacheModel {
        self.with_table(kind, removed(self.table(kind), key))
    }

    /// The cached user `id`.
    pub open spec fn user(self, id: u64) -> Option<CachedUserView> {
        match lookup(self.users, global_key(id)) {
            Some(RecordView::User(user)) => Some(user),
            _ => None,
        }
    }

    /// The cached guild `id`.
    pub open spec fn guild(self, id: u64) -> Option<CachedGuildView> {
        match lookup(self.guilds, global_key(id)) {
            Some(RecordView::Guild(guild)) => Some(guild),
            _ => None,
        }
    }

    /// The cached role `id`.
    pub open spec fn role(self, id: u64) -> Option<CachedRoleView> {
        match lookup(self.roles, global_key(id)) {
            Some(RecordView::Role(role)) => Some(role),
            _ => None,
        }
    }

    /// The cached profile of user `user_id` in guild `guild_id`.
    pub open spec fn member(self, guild_id: u64, user_id: u64) -> Option<CachedMemberView> {
        match lookup(self.members, member_key(guild_id, user_id)) {
            Some(RecordView::Member(member)) => Some(member),
            _ => None,
        }
    }

    /// The cached channel `id`.
    pub open spec fn channel(self, id: u64) -> Option<CachedChannelView> {
        match lookup(self.channels, global_key(id)) {
            Some(RecordView::Channel(channel)) => Some(channel),
            _ => None,
        }
    }

    /// The cached message `id`.
    pub open spec fn message(self, id: u64) -> Option<CachedMessage> {
        match lookup(self.messages, global_key(id)) {
            Some(RecordView::Message(message)) => Some(message),
            _ => None,
        }
    }

    /// After a user is stored.
    pub open spec fn put_user(self, user: User) -> CacheModel {
        self.store(Kind::User, global_key(user.id), RecordView::User(user_record(user)))
    }

    /// After the user of a mention is stored.
    pub open spec fn put_user_mention(self, mention: Mention) -> CacheModel {
        self.store(Kind::User, global_key(mention.id), RecordView::User(mention_record(mention)))
    }

    /// After a role is stored.
    pub open spec fn put_role(self, role: Role) -> CacheModel {
        self.store(Kind::Role, global_key(role.id), RecordView::Role(role_record(role)))
    }

    /// After each of `roles` is stored, in order.
    pub open spec fn put_roles(self, roles: Seq<Role>) -> CacheModel
        decreases roles.len(),
    {
        if roles.len() == 0 {
            self
        } else {
            self.put_roles(roles.drop_last()).put_role(roles.last())
        }
    }

    /// After a channel is stored.
    pub open spec fn put_channel(self, channel: Channel) -> CacheModel {
        self.store(
            Kind::Channel,
            global_key(channel.id),
            RecordView::Channel(channel_record(channel)),
        )
    }

    /// After each of `channels` is stored, in order.
    pub open spec fn put_channels(self, channels: Seq<Channel>) -> CacheModel
        decreases channels.len(),
    {
        if channels.len() == 0 {
            self
        } else {
            self.put_channels(channels.drop_last()).put_channel(channels.last())
        }
    }

    /// After a guild that came without channels is stored: its roles first,
    /// then the guild.
    pub open spec fn put_guild(self, guild: PartialGuild) -> CacheModel {
        self.put_roles(guild.roles@).store(
            Kind::Guild,
            global_key(guild.id),
            RecordView::Guild(partial_guild_record(guild)),
        )
    }

    /// After a guild is stored: its channels, its roles, then the guild.
    pub open spec fn put_full_guild(self, guild: Guild) -> CacheModel {
        self.put_channels(guild.channels@).put_roles(guild.roles@).store(
            Kind::Guild,
            global_key(guild.id),
            RecordView::Guild(guild_record(guild)),
        )
    }

    /// After the profile that came with a message is stored.
    pub open spec fn put_member(self, guild_id: u64, user_id: u64, member: PartialMember)
        -> CacheModel {
        self.store(
            Kind::Member,
            member_key(guild_id, user_id),
            RecordView::Member(partial_member_record(member)),
        )
    }

    /// After a membership is stored: the user, then the profile.
    pub open spec fn put_full_member(self, guild_id: u64, member: Member) -> CacheModel {
        self.put_user(member.user).store(
            Kind::Member,
            member_key(guild_id, member.user.id),
            RecordView::Member(member_record(member)),
        )
    }

    /// After each of `members` is stored, in order.
    pub open spec fn put_full_members(self, guild_id: u64, members: Seq<Member>) -> CacheModel
        decreases members.len(),
    {
        if members.len() == 0 {
            self
        } else {
            self.put_full_members(guild_id, members.drop_last()).put_full_member(
                guild_id,
                members.last(),
            )
        }
    }

    /// After a membership change is stored: the user, then the profile.
    pub open spec fn put_member_update(self, update: MemberUpdate) -> CacheModel {
        self.put_user(update.user).store(
            Kind::Member,
            member_key(update.guild_id, update.user.id),
            RecordView::Member(member_update_record(update)),
        )
    }

    /// After a mention is stored: the user and, where the guild is known and
    /// a profile is attached, the profile.
    pub open spec fn put_mention(self, guild_id: Option<u64>, mention: Mention) -> CacheModel {
        let with_user = self.put_user_mention(mention);
        match (guild_id, mention.member) {
            (Some(guild_id), Some(member)) => with_user.put_member(guild_id, mention.id, member),
            _ => with_user,
        }
    }

    /// After each of `mentions` is stored, in order.
    pub open spec fn put_mentions(self, guild_id: Option<u64>, mentions: Seq<Mention>)
        -> CacheModel
        decreases mentions.len(),
    {
        if mentions.len() == 0 {
            self
        } else {
            self.put_mentions(guild_id, mentions.drop_last()).put_mention(guild_id, mentions.last())
        }
    }

    /// After the author of a message is stored: the user and, where the
    /// guild is known and a profile is attached, the profile.
    pub open spec fn put_author(self, message: Message) -> CacheModel {
        let with_user = self.put_user(message.author);
        match (message.guild_id, message.member) {
            (Some(guild_id), Some(member)) => with_user.put_member(
                guild_id,
                message.author.id,
                member,
            ),
            _ => with_user,
        }
    }

    /// After a message is stored: its author, everyone it mentions, then the
    /// message.
    pub open spec fn put_message(self, message: Message) -> CacheModel {
        self.put_author(message).put_mentions(message.guild_id, message.mentions@).store(
            Kind::Message,
            global_key(message.id),
            RecordView::Message(message_record(message)),
        )
    }

    /// After an edit of a message is stored: whatever of author, the
    /// author's profile and mentions it carries, and the message where
    /// author and kind are both there.
    pub open spec fn put_message_update(self, update: MessageUpdate) -> CacheModel {
        let with_user = match update.author {
            Some(author) => self.put_user(author),
            None => self,
        };
        let with_author = match (update.guild_id, update.author, update.member) {
            (Some(guild_id), Some(author), Some(member)) => with_user.put_member(
                guild_id,
                author.id,
                member,
            ),
            _ => with_user,
        };
        let with_mentions = match update.mentions {
            Some(mentions) => with_author.put_mentions(update.guild_id, mentions@),
            None => with_author,
        };
        match (update.author, update.kind) {
            (Some(author), Some(kind)) => with_mentions.store(
                Kind::Message,
                global_key(update.id),
                RecordView::Message(CachedMessage { author_id: author.id, kind }),
            ),
            _ => with_mentions,
        }
    }

    /// After a reaction: the reacting member is stored where the reaction
    /// names its guild and carries the member.
    pub open spec fn put_reaction(self, reaction: Reaction) -> CacheModel {
        match (reaction.guild_id, reaction.member) {
            (Some(guild_id), Some(member)) => self.put_full_member(guild_id, member),
            _ => self,
        }
    }

    /// After an event of the gateway.
    pub open spec fn after(self, event: Event) -> CacheModel {
        match event {
            Event::ChannelCreate(channel) | Event::ChannelUpdate(channel) => {
                if channel.kind.text_capable() {
                    self.put_channel(channel)
                } else {
                    self
                }
            },
            Event::ChannelDelete(channel) => self.discard(Kind::Channel, global_key(channel.id)),
            Event::GuildCreate(guild) => self.put_full_guild(guild),
            Event::GuildUpdate(guild) => self.put_guild(guild),
            Event::GuildDelete { id } => self.discard(Kind::Guild, global_key(id)),
            Event::MemberAdd { guild_id, member } => self.put_full_member(guild_id, member),
            Event::MemberUpdate(update) => self.put_member_update(update),
            Event::MemberChunk { guild_id, members } => self.put_full_members(guild_id, members@),
            Event::MessageCreate(message) => self.put_message(message),
            Event::MessageUpdate(update) => self.put_message_update(update),
            Event::ReactionAdd(reaction) => self.put_reaction(reaction),
            Event::RoleCreate { guild_id, role } | Event::RoleUpdate { guild_id, role } => {
                self.put_role(role)
            },
            Event::Other => self,
        }
    }
}

/// Storing a fitting pair keeps the cache well formed, and the pair is then
/// found under its key.
pub proof fn lemma_store(model: CacheModel, kind: Kind, key: Key, value: RecordView)
    requires
        model.wf(),
        entry_fits(kind, (key, value)),
    ensures
        model.store(kind, key, value).wf(),
        lookup(model.store(kind, key, value).table(kind), key) == Some(value),
{
    let before = model.table(kind);
    let after = model.store(kind, key, value);
    lemma_inserted_well_formed(before, model.capacity, key, value);
    let entries = after.table(kind);
    assert(entries == inserted(before, model.capacity, key, value));
    assert forall|i: int| 0 <= i < entries.len() implies entry_fits(kind, #[trigger] entries[i]) by {
        if i > 0 {
            if has_key(before, key) {
                lemma_has_key(before, key);
                let at = position(before, key);
                let o = if i - 1 < at { i - 1 } else { i };
                assert(entries[i] == before[o]);
            } else {
                assert(entries[i] == before[i - 1]);
            }
        }
    }
    assert forall|other: Kind|
        well_formed(#[trigger] after.table(other), after.capacity) && all_fit(
            other,
            after.table(other),
        ) by {
        if other != kind {
            assert(after.table(other) == model.table(other));
        }
    }
}

/// A use keeps the cache well formed and every record where it was filed.
pub proof fn lemma_touch(model: CacheModel, kind: Kind, key: Key)
    requires
        model.wf(),
    ensures
        model.touch(kind, key).wf(),
        forall|k: Key| lookup(model.touch(kind, key).table(kind), k) == lookup(model.table(kind), k),
{
    let before = model.table(kind);
    let after = model.touch(kind, key);
    lemma_promoted_well_formed(before, model.capacity, key);
    let entries = after.table(kind);
    assert(entries == promoted(before, key));
    assert forall|i: int| 0 <= i < entries.len() implies entry_fits(kind, #[trigger] entries[i]) by {
        if has_key(before, key) {
            lemma_has_key(before, key);
            let at = position(before, key);
            if i > 0 {
                let o = if i - 1 < at { i - 1 } else { i };
                assert(entries[i] == before[o]);
            } else {
                assert(entries[i] == before[at]);
            }
        }
    }
    assert forall|other: Kind|
        well_formed(#[trigger] after.table(other), after.capacity) && all_fit(
            other,
            after.table(other),
        ) by {
        if other != kind {
            assert(after.table(other) == model.table(other));
        }
    }
}

/// A removal keeps the cache well formed and takes the key out.
pub proof fn lemma_discard(model: CacheModel, kind: Kind, key: Key)
    requires
        model.wf(),
    ensures
        model.discard(kind, key).wf(),
        lookup(model.discard(kind, key).table(kind), key) is None,
        forall|k: Key|
            k != key ==> lookup(model.discard(kind, key).table(kind), k) == lookup(
                model.table(kind),
                k,
            ),
{
    let before = model.table(kind);
    let after = model.discard(kind, key);
    lemma_removed_well_formed(before, model.capacity, key);
    let entries = after.table(kind);
    assert(entries == removed(before, key));
    assert forall|i: int| 0 <= i < entries.len() implies entry_fits(kind, #[trigger] entries[i]) by {
        if has_key(before, key) {
            lemma_has_key(before, key);
            let at = position(before, key);
            let o = if i < at { i } else { i + 1 };
            assert(entries[i] == before[o]);
        }
    }
    assert forall|other: Kind|
        well_formed(#[trigger] after.table(other), after.capacity) && all_fit(
            other,
            after.table(other),
        ) by {
        if other != kind {
            assert(after.table(other) == model.table(other));
        }
    }
}

} // verus!
