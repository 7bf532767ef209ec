//! The fetch-through entity cache.
//!
//! Six bounded tables, one per kind of entity, each in its own recency
//! order.  A lookup that misses tells the caller what to fetch; the caller
//! fetches it and hands the answer back, and the cache stores it together
//! with the entities that came along.

pub mod entity;
pub mod laws;
pub mod recency;
pub mod state;
pub mod table;

use vstd::prelude::*;
use vstd::string::StringExecFns;
use crate::error::Error;
use crate::model::{
    Channel, Event, Guild, Member, MemberUpdate, Mention, Message, MessageUpdate, PartialGuild,
    PartialMember, Role, User,
};
use crate::text::{decimal, push_decimal};
pub use entity::{
    CachedChannel, CachedGuild, CachedMember, CachedMessage, CachedRole, CachedUser, Record,
};
use entity::{
    channel_record, guild_record, member_record, message_record, role_record, user_record, view_of,
};
use recency::{has_key, lemma_has_key, lookup, position, Key};
use state::{
    entry_fits, global_key, lemma_discard, lemma_store, lemma_touch, member_key, CacheModel, Kind,
};
use table::Table;

verus! {

/// The number of records that each table of a cache made by `Cache::new`
/// holds at most.
pub const DEFAULT_CAPACITY: usize = 5000;

/// The number of records in each table, at one moment.
#[derive(Debug, Copy, Clone, PartialEq, Eq, Structural)]
pub struct CacheStats {
    pub users: usize,
    pub guilds: usize,
    pub roles: usize,
    pub members: usize,
    pub channels: usize,
    pub messages: usize,
}

/// The counts in words, as they are answered to a call for statistics.
pub open spec fn stats_text(stats: CacheStats) -> Seq<char> {
    "CacheStats { users: "@ + decimal(stats.users as nat) + ", guilds: "@ + decimal(
        stats.guilds as nat,
    ) + ", roles: "@ + decimal(stats.roles as nat) + ", members: "@ + decimal(stats.members as nat)
        + ", channels: "@ + decimal(stats.channels as nat) + ", messages: "@ + decimal(
        stats.messages as nat,
    ) + " }"@
}

impl CacheStats {
    /// The counts in words.
    pub fn describe(&self) -> (text: String)
        ensures
            text@ == stats_text(*self),
    {
        let mut text = String::new();
        text.append("CacheStats { users: ");
        push_decimal(&mut text, self.users as u64);
        text.append(", guilds: ");
        push_decimal(&mut text, self.guilds as u64);
        text.append(", roles: ");
        push_decimal(&mut text, self.roles as u64);
        text.append(", members: ");
        push_decimal(&mut text, self.members as u64);
        text.append(", channels: ");
        push_decimal(&mut text, self.channels as u64);
        text.append(", messages: ");
        push_decimal(&mut text, self.messages as u64);
        text.append(" }");
        assert(text@ =~= stats_text(*self));
        text
    }
}

/// What the caller has to fetch from the remote source after a miss.
#[derive(Debug, Copy, Clone, PartialEq, Eq, Structural)]
pub enum Fetch {
    User { user_id: u64 },
    Guild { guild_id: u64 },
    /// All roles of a guild: the source hands out no single role.
    Roles { guild_id: u64 },
    Member { guild_id: u64, user_id: u64 },
    Channel { channel_id: u64 },
    Message { channel_id: u64, message_id: u64 },
}

/// The outcome of a lookup.
#[derive(Debug, Clone, PartialEq, Eq)]
pub enum Lookup<T> {
    /// The record was cached; this is a copy of it.
    Hit(T),
    /// Nothing is cached under the key: one fetch is due.
    Miss(Fetch),
}

/// What the remote source answered to a fetch.
#[derive(Debug, Clone, PartialEq, Eq)]
pub enum Fetched<T> {
    Found(T),
    /// The source knows no such entity.
    Missing,
    /// The call itself failed.
    Failed,
}

/// The first of `roles` with the id `role_id`.
pub open spec fn find_role(roles: Seq<Role>, role_id: u64) -> Option<Role>
    decreases roles.len(),
{
    if roles.len() == 0 {
        None
    } else {
        match find_role(roles.drop_last(), role_id) {
            Some(role) => Some(role),
            None => if roles.last().id == role_id {
                Some(roles.last())
            } else {
                None
            },
        }
    }
}

/// A role found in a prefix of `roles` is the one found in all of them.
pub proof fn lemma_find_role_prefix(roles: Seq<Role>, role_id: u64, n: int)
    requires
        0 <= n <= roles.len(),
        find_role(roles.take(n), role_id) is Some,
    ensures
        find_role(roles, role_id) == find_role(roles.take(n), role_id),
    decreases roles.len() - n,
{
    if n == roles.len() {
        assert(roles.take(n) =~= roles);
    } else {
        let shorter = roles.drop_last();
        assert(shorter.take(n) =~= roles.take(n));
        lemma_find_role_prefix(shorter, role_id, n);
    }
}

/// Where the first of `roles` with the id `role_id` stands.
pub fn position_of_role(roles: &Vec<Role>, role_id: u64) -> (found: Option<usize>)
    ensures
        match found {
            Some(at) => at < roles.len() && find_role(roles@, role_id) == Some(roles@[at as int]),
            None => find_role(roles@, role_id) is None,
        },
{
    let mut i: usize = 0;
    while i < roles.len()
        invariant
            i <= roles.len(),
            find_role(roles@.take(i as int), role_id) is None,
        decreases roles.len() - i,
    {
        proof {
            let next = roles@.take(i + 1);
            assert(next.drop_last() =~= roles@.take(i as int));
            assert(next.last() == roles@[i as int]);
        }
        if roles[i].id == role_id {
            proof {
                lemma_find_role_prefix(roles@, role_id, i + 1);
            }
            return Some(i);
        }
        i = i + 1;
    }
    assert(roles@.take(roles.len() as int) =~= roles@);
    None
}

/// The cache: six tables of one capacity.  A cache is made empty and well
/// formed, and every operation keeps it so.
pub struct Cache {
    users: Table,
    guilds: Table,
    roles: Table,
    members: Table,
    channels: Table,
    messages: Table,
}

impl View for Cache {
    type V = CacheModel;

    closed spec fn view(&self) -> CacheModel {
        CacheModel {
            capacity: self.users.capacity(),
            users: self.users@,
            guilds: self.guilds@,
            roles: self.roles@,
            members: self.members@,
            channels: self.channels@,
            messages: self.messages@,
        }
    }
}

impl Cache {
    /// The six tables were made with one capacity.
    pub closed spec fn uniform(&self) -> bool {
        &&& self.guilds.capacity() == self.users.capacity()
        &&& self.roles.capacity() == self.users.capacity()
        &&& self.members.capacity() == self.users.capacity()
        &&& self.channels.capacity() == self.users.capacity()
        &&& self.messages.capacity() == self.users.capacity()
    }

    /// What holds of every cache between two calls.
    pub open spec fn wf(&self) -> bool {
        self@.wf() && self.uniform()
    }

    /// An empty cache whose tables hold `DEFAULT_CAPACITY` records each.
    pub fn new() -> (cache: Cache)
        ensures
            cache.wf(),
            cache@ == CacheModel::empty(DEFAULT_CAPACITY as nat),
    {
        Cache::with_capacity(DEFAULT_CAPACITY)
    }

    /// An empty cache whose tables hold `capacity` records each.
    pub fn with_capacity(capacity: usize) -> (cache: Cache)
        requires
            capacity > 0,
        ensures
            cache.wf(),
            cache@ == CacheModel::empty(capacity as nat),
    {
        let cache = Cache {
            users: Table::new(capacity),
            guilds: Table::new(capacity),
            roles: Table::new(capacity),
            members: Table::new(capacity),
            channels: Table::new(capacity),
            messages: Table::new(capacity),
        };
        proof {
            CacheModel::lemma_empty(capacity as nat);
        }
        cache
    }

    /// How many records each table holds.
    pub fn get_stats(&self) -> (stats: CacheStats)
        ensures
            stats.users == self@.users.len(),
            stats.guilds == self@.guilds.len(),
            stats.roles == self@.roles.len(),
            stats.members == self@.members.len(),
            stats.channels == self@.channels.len(),
            stats.messages == self@.messages.len(),
    {
        CacheStats {
            users: self.users.len(),
            guilds: self.guilds.len(),
            roles: self.roles.len(),
            members: self.members.len(),
            channels: self.channels.len(),
            messages: self.messages.len(),
        }
    }

    /// Stores `record` under `key` in the table of `kind`.
    fn store(&mut self, kind: Kind, key: Key, record: Record)
        requires
            old(self).wf(),
            entry_fits(kind, (key, record@)),
        ensures
            final(self).wf(),
            final(self)@ == old(self)@.store(kind, key, record@),
    {
        proof {
            lemma_store(self@, kind, key, record@);
        }
        match kind {
            Kind::User => self.users.put(key, record),
            Kind::Guild => self.guilds.put(key, record),
            Kind::Role => self.roles.put(key, record),
            Kind::Member => self.members.put(key, record),
            Kind::Channel => self.channels.put(key, record),
            Kind::Message => self.messages.put(key, record),
        }
    }

    /// A copy of the record under `key` in the table of `kind`; the lookup
    /// counts as a use.
    fn fetch(&mut self, kind: Kind, key: Key) -> (found: Option<Record>)
        requires
            old(self).wf(),
        ensures
            final(self).wf(),
            final(self)@ == old(self)@.touch(kind, key),
            view_of(found) == lookup(old(self)@.table(kind), key),
            found matches Some(record) ==> entry_fits(kind, (key, record@)),
    {
        proof {
            lemma_touch(self@, kind, key);
            let entries = self@.table(kind);
            if has_key(entries, key) {
                lemma_has_key(entries, key);
                assert(entry_fits(kind, entries[position(entries, key)]));
            }
        }
        match kind {
            Kind::User => self.users.get(key),
            Kind::Guild => self.guilds.get(key),
            Kind::Role => self.roles.get(key),
            Kind::Member => self.members.get(key),
            Kind::Channel => self.channels.get(key),
            Kind::Message => self.messages.get(key),
        }
    }

    /// Takes the record under `key` out of the table of `kind`.
    fn discard(&mut self, kind: Kind, key: Key)
        requires
            old(self).wf(),
        ensures
            final(self).wf(),
            final(self)@ == old(self)@.discard(kind, key),
    {
        proof {
            lemma_discard(self@, kind, key);
        }
        match kind {
            Kind::User => {
                let _ = self.users.remove(key);
            },
            Kind::Guild => {
                let _ = self.guilds.remove(key);
            },
            Kind::Role => {
                let _ = self.roles.remove(key);
            },
            Kind::Member => {
                let _ = self.members.remove(key);
            },
            Kind::Channel => {
                let _ = self.channels.remove(key);
            },
            Kind::Message => {
                let _ = self.messages.remove(key);
            },
        }
    }

    /// Stores a user.
    pub fn put_user(&mut self, user: &User)
        requires
            old(self).wf(),
        ensures
            final(self).wf(),
            final(self)@ == old(self)@.put_user(*user),
    {
        self.store(Kind::User, (0u64, user.id), Record::User(CachedUser::from_user(user)));
    }

    /// Stores the user of a mention.
    pub fn put_user_mention(&mut self, mention: &Mention)
        requires
            old(self).wf(),
        ensures
            final(self).wf(),
            final(self)@ == old(self)@.put_user_mention(*mention),
    {
        self.store(Kind::User, (0u64, mention.id), Record::User(CachedUser::from_mention(mention)));
    }

    /// Stores a role.
    pub fn put_role(&mut self, role: &Role)
        requires
            old(self).wf(),
        ensures
            final(self).wf(),
            final(self)@ == old(self)@.put_role(*role),
    {
        self.store(Kind::Role, (0u64, role.id), Record::Role(CachedRole::from_role(role)));
    }

    /// Stores each of `roles`, in order.
    pub fn put_roles(&mut self, roles: &Vec<Role>)
        requires
            old(self).wf(),
        ensures
            final(self).wf(),
            final(self)@ == old(self)@.put_roles(roles@),
    {
        let ghost start = self@;
        let mut i: usize = 0;
        while i < roles.len()
            invariant
                i <= roles.len(),
                self.wf(),
                self@ == start.put_roles(roles@.take(i as int)),
            decreases roles.len() - i,
        {
            self.put_role(&roles[i]);
            proof {
                let next = roles@.take(i + 1);
                assert(next.drop_last() =~= roles@.take(i as int));
                assert(next.last() == roles@[i as int]);
            }
            i = i + 1;
        }
        assert(roles@.take(roles.len() as int) =~= roles@);
    }

    /// Stores a channel.
    pub fn put_channel(&mut self, channel: &Channel)
        requires
            old(self).wf(),
        ensures
            final(self).wf(),
            final(self)@ == old(self)@.put_channel(*channel),
    {
        self.store(
            Kind::Channel,
            (0u64, channel.id),
            Record::Channel(CachedChannel::from_channel(channel)),
        );
    }

    /// Stores each of `channels`, in order.
    pub fn put_channels(&mut self, channels: &Vec<Channel>)
        requires
            old(self).wf(),
        ensures
            final(self).wf(),
            final(self)@ == old(self)@.put_channels(channels@),
    {
        let ghost start = self@;
        let mut i: usize = 0;
        while i < channels.len()
            invariant
                i <= channels.len(),
                self.wf(),
                self@ == start.put_channels(channels@.take(i as int)),
            decreases channels.len() - i,
        {
            self.put_channel(&channels[i]);
            proof {
                let next = channels@.take(i + 1);
                assert(next.drop_last() =~= channels@.take(i as int));
                assert(next.last() == channels@[i as int]);
            }
            i = i + 1;
        }
        assert(channels@.take(channels.len() as int) =~= channels@);
    }

    /// Stores a guild that came without its channels: its roles, then the
    /// guild.
    pub fn put_guild(&mut self, guild: &PartialGuild)
        requires
            old(self).wf(),
        ensures
            final(self).wf(),
            final(self)@ == old(self)@.put_guild(*guild),
    {
        self.put_roles(&guild.roles);
        self.store(
            Kind::Guild,
            (0u64, guild.id),
            Record::Guild(CachedGuild::from_partial_guild(guild)),
        );
    }

    /// Stores a guild: its channels, its roles, then the guild.
    pub fn put_full_guild(&mut self, guild: &Guild)
        requires
            old(self).wf(),
        ensures
            final(self).wf(),
            final(self)@ == old(self)@.put_full_guild(*guild),
    {
        self.put_channels(&guild.channels);
        self.put_roles(&guild.roles);
        self.store(Kind::Guild, (0u64, guild.id), Record::Guild(CachedGuild::from_guild(guild)));
    }

    /// Stores the profile of user `user_id` in guild `guild_id`.
    pub fn put_member(&mut self, guild_id: u64, user_id: u64, member: &PartialMember)
        requires
            old(self).wf(),
        ensures
            final(self).wf(),
            final(self)@ == old(self)@.put_member(guild_id, user_id, *member),
    {
        self.store(
            Kind::Member,
            (guild_id, user_id),
            Record::Member(CachedMember::from_partial_member(member)),
        );
    }

    /// Stores a membership of guild `guild_id`: the user, then the profile.
    pub fn put_full_member(&mut self, guild_id: u64, member: &Member)
        requires
            old(self).wf(),
        ensures
            final(self).wf(),
            final(self)@ == old(self)@.put_full_member(guild_id, *member),
    {
        self.put_user(&member.user);
        self.store(
            Kind::Member,
            (guild_id, member.user.id),
            Record::Member(CachedMember::from_member(member)),
        );
    }

    /// Stores each of `members` of guild `guild_id`, in order.
    pub fn put_full_members(&mut self, guild_id: u64, members: &Vec<Member>)
        requires
            old(self).wf(),
        ensures
            final(self).wf(),
            final(self)@ == old(self)@.put_full_members(guild_id, members@),
    {
        let ghost start = self@;
        let mut i: usize = 0;
        while i < members.len()
            invariant
                i <= members.len(),
                self.wf(),
                self@ == start.put_full_members(guild_id, members@.take(i as int)),
            decreases members.len() - i,
        {
            self.put_full_member(guild_id, &members[i]);
            proof {
                let next = members@.take(i + 1);
                assert(next.drop_last() =~= members@.take(i as int));
                assert(next.last() == members@[i as int]);
            }
            i = i + 1;
        }
        assert(members@.take(members.len() as int) =~= members@);
    }

    /// Stores a membership change: the user, then the profile.
    pub fn put_member_update(&mut self, update: &MemberUpdate)
        requires
            old(self).wf(),
        ensures
            final(self).wf(),
            final(self)@ == old(self)@.put_member_update(*update),
    {
        self.put_user(&update.user);
        self.store(
            Kind::Member,
            (update.guild_id, update.user.id),
            Record::Member(CachedMember::from_member_update(update)),
        );
    }

    /// Stores a mention: the user and, where the guild is known and a
    /// profile is attached, the profile.
    pub fn put_mention(&mut self, guild_id: Option<u64>, mention: &Mention)
        requires
            old(self).wf(),
        ensures
            final(self).wf(),
            final(self)@ == old(self)@.put_mention(guild_id, *mention),
    {
        self.put_user_mention(mention);
        match (guild_id, &mention.member) {
            (Some(guild_id), Some(member)) => {
                self.put_member(guild_id, mention.id, member);
            },
            _ => {},
        }
    }

    /// Stores each of `mentions`, in order.
    pub fn put_mentions(&mut self, guild_id: Option<u64>, mentions: &Vec<Mention>)
        requires
            old(self).wf(),
        ensures
            final(self).wf(),
            final(self)@ == old(self)@.put_mentions(guild_id, mentions@),
    {
        let ghost start = self@;
        let mut i: usize = 0;
        while i < mentions.len()
            invariant
                i <= mentions.len(),
                self.wf(),
                self@ == start.put_mentions(guild_id, mentions@.take(i as int)),
            decreases mentions.len() - i,
        {
            self.put_mention(guild_id, &mentions[i]);
            proof {
                let next = mentions@.take(i + 1);
                assert(next.drop_last() =~= mentions@.take(i as int));
                assert(next.last() == mentions@[i as int]);
            }
            i = i + 1;
        }
        assert(mentions@.take(mentions.len() as int) =~= mentions@);
    }

    /// Stores a message, and with it its author and everyone it mentions.
    pub fn put_message(&mut self, message: &Message)
        requires
            old(self).wf(),
        ensures
            final(self).wf(),
            final(self)@ == old(self)@.put_message(*message),
    {
        self.put_user(&message.author);
        match (message.guild_id, &message.member) {
            (Some(guild_id), Some(member)) => {
                self.put_member(guild_id, message.author.id, member);
            },
            _ => {},
        }
        self.put_mentions(message.guild_id, &message.mentions);
        self.store(
            Kind::Message,
            (0u64, message.id),
            Record::Message(CachedMessage::from_message(message)),
        );
    }

    /// Stores what an edit of a message carries.
    pub fn put_message_update(&mut self, update: &MessageUpdate)
        requires
            old(self).wf(),
        ensures
            final(self).wf(),
            final(self)@ == old(self)@.put_message_update(*update),
    {
        match &update.author {
            Some(author) => {
                self.put_user(author);
            },
            None => {},
        }
        match (update.guild_id, &update.author, &update.member) {
            (Some(guild_id), Some(author), Some(member)) => {
                self.put_member(guild_id, author.id, member);
            },
            _ => {},
        }
        match &update.mentions {
            Some(mentions) => {
                self.put_mentions(update.guild_id, mentions);
            },
            None => {},
        }
        match (&update.author, update.kind) {
            (Some(author), Some(kind)) => {
                self.store(
                    Kind::Message,
                    (0u64, update.id),
                    Record::Message(CachedMessage { author_id: author.id, kind }),
                );
            },
            _ => {},
        }
    }

    /// Looks a user up.  A hit counts as a use of the record.
    pub fn get_user(&mut self, user_id: u64) -> (found: Lookup<CachedUser>)
        requires
            old(self).wf(),
        ensures
            final(self).wf(),
            final(self)@ == old(self)@.touch(Kind::User, global_key(user_id)),
            match found {
                Lookup::Hit(user) => old(self)@.user(user_id) == Some(user@),
                Lookup::Miss(fetch) => old(self)@.user(user_id) is None && fetch == (Fetch::User {
                    user_id,
                }),
            },
    {
        match self.fetch(Kind::User, (0u64, user_id)) {
            Some(Record::User(user)) => Lookup::Hit(user),
            _ => Lookup::Miss(Fetch::User { user_id }),
        }
    }

    /// Takes in the answer to `Fetch::User`: the user is stored and a copy
    /// of the record handed back.
    pub fn user_fetched(&mut self, fetched: Fetched<User>) -> (result: Result<CachedUser, Error>)
        requires
            old(self).wf(),
        ensures
            final(self).wf(),
            match fetched {
                Fetched::Found(user) => final(self)@ == old(self)@.put_user(user) && view_of(
                    result.ok(),
                ) == Some(user_record(user)),
                Fetched::Missing => final(self)@ == old(self)@ && result == Err::<CachedUser, Error>(
                    Error::NotFound,
                ),
                Fetched::Failed => final(self)@ == old(self)@ && result == Err::<CachedUser, Error>(
                    Error::RemoteError,
                ),
            },
    {
        match fetched {
            Fetched::Found(user) => {
                self.put_user(&user);
                Ok(CachedUser::from_user(&user))
            },
            Fetched::Missing => Err(Error::NotFound),
            Fetched::Failed => Err(Error::RemoteError),
        }
    }

    /// Looks a guild up.  A hit counts as a use of the record.
    pub fn get_guild(&mut self, guild_id: u64) -> (found: Lookup<CachedGuild>)
        requires
            old(self).wf(),
        ensures
            final(self).wf(),
            final(self)@ == old(self)@.touch(Kind::Guild, global_key(guild_id)),
            match found {
                Lookup::Hit(guild) => old(self)@.guild(guild_id) == Some(guild@),
                Lookup::Miss(fetch) => old(self)@.guild(guild_id) is None && fetch == (Fetch::Guild {
                    guild_id,
                }),
            },
    {
        match self.fetch(Kind::Guild, (0u64, guild_id)) {
            Some(Record::Guild(guild)) => Lookup::Hit(guild),
            _ => Lookup::Miss(Fetch::Guild { guild_id }),
        }
    }

    /// Takes in the answer to `Fetch::Guild`: the guild is stored with its
    /// channels and roles, and a copy of the record handed back.
    pub fn guild_fetched(&mut self, fetched: Fetched<Guild>) -> (result: Result<CachedGuild, Error>)
        requires
            old(self).wf(),
        ensures
            final(self).wf(),
            match fetched {
                Fetched::Found(guild) => final(self)@ == old(self)@.put_full_guild(guild)
                    && view_of(result.ok()) == Some(guild_record(guild)),
                Fetched::Missing => final(self)@ == old(self)@ && result == Err::<
                    CachedGuild,
                    Error,
                >(Error::NotFound),
                Fetched::Failed => final(self)@ == old(self)@ && result == Err::<
                    CachedGuild,
                    Error,
                >(Error::RemoteError),
            },
    {
        match fetched {
            Fetched::Found(guild) => {
                self.put_full_guild(&guild);
                Ok(CachedGuild::from_guild(&guild))
            },
            Fetched::Missing => Err(Error::NotFound),
            Fetched::Failed => Err(Error::RemoteError),
        }
    }

    /// Looks a role up.  A hit counts as a use of the record; after a miss
    /// all roles of guild `guild_id` are to be fetched.
    pub fn get_role(&mut self, guild_id: u64, role_id: u64) -> (found: Lookup<CachedRole>)
        requires
            old(self).wf(),
        ensures
            final(self).wf(),
            final(self)@ == old(self)@.touch(Kind::Role, global_key(role_id)),
            match found {
                Lookup::Hit(role) => old(self)@.role(role_id) == Some(role@),
                Lookup::Miss(fetch) => old(self)@.role(role_id) is None && fetch == (Fetch::Roles {
                    guild_id,
                }),
            },
    {
        match self.fetch(Kind::Role, (0u64, role_id)) {
            Some(Record::Role(role)) => Lookup::Hit(role),
            _ => Lookup::Miss(Fetch::Roles { guild_id }),
        }
    }

    /// Takes in the answer to `Fetch::Roles`: every role is stored, and a
    /// copy of the record of role `role_id` handed back if it is among them.
    pub fn roles_fetched(&mut self, role_id: u64, fetched: Fetched<Vec<Role>>) -> (result: Result<
        CachedRole,
        Error,
    >)
        requires
            old(self).wf(),
        ensures
            final(self).wf(),
            match fetched {
                Fetched::Found(roles) => final(self)@ == old(self)@.put_roles(roles@)
                    && match find_role(roles@, role_id) {
                    Some(role) => view_of(result.ok()) == Some(role_record(role)),
                    None => result == Err::<CachedRole, Error>(Error::NotFound),
                },
                Fetched::Missing => final(self)@ == old(self)@ && result == Err::<CachedRole, Error>(
                    Error::NotFound,
                ),
                Fetched::Failed => final(self)@ == old(self)@ && result == Err::<CachedRole, Error>(
                    Error::RemoteError,
                ),
            },
    {
        match fetched {
            Fetched::Found(roles) => {
                self.put_roles(&roles);
                match position_of_role(&roles, role_id) {
                    Some(at) => Ok(CachedRole::from_role(&roles[at])),
                    None => Err(Error::NotFound),
                }
            },
            Fetched::Missing => Err(Error::NotFound),
            Fetched::Failed => Err(Error::RemoteError),
        }
    }

    /// Looks up the profile of user `user_id` in guild `guild_id`.  A hit
    /// counts as a use of the record.
    pub fn get_member(&mut self, guild_id: u64, user_id: u64) -> (found: Lookup<CachedMember>)
        requires
            old(self).wf(),
        ensures
            final(self).wf(),
            final(self)@ == old(self)@.touch(Kind::Member, member_key(guild_id, user_id)),
            match found {
                Lookup::Hit(member) => old(self)@.member(guild_id, user_id) == Some(member@),
                Lookup::Miss(fetch) => old(self)@.member(guild_id, user_id) is None && fetch == (
                Fetch::Member { guild_id, user_id }),
            },
    {
        match self.fetch(Kind::Member, (guild_id, user_id)) {
            Some(Record::Member(member)) => Lookup::Hit(member),
            _ => Lookup::Miss(Fetch::Member { guild_id, user_id }),
        }
    }

    /// Takes in the answer to `Fetch::Member` for guild `guild_id`: the user
    /// and the profile are stored, and a copy of the profile handed back.
    pub fn member_fetched(&mut self, guild_id: u64, fetched: Fetched<Member>) -> (result: Result<
        CachedMember,
        Error,
    >)
        requires
            old(self).wf(),
        ensures
            final(self).wf(),
            match fetched {
                Fetched::Found(member) => final(self)@ == old(self)@.put_full_member(
                    guild_id,
                    member,
                ) && view_of(result.ok()) == Some(member_record(member)),
                Fetched::Missing => final(self)@ == old(self)@ && result == Err::<
                    CachedMember,
                    Error,
                >(Error::NotFound),
                Fetched::Failed => final(self)@ == old(self)@ && result == Err::<
                    CachedMember,
                    Error,
                >(Error::RemoteError),
            },
    {
        match fetched {
            Fetched::Found(member) => {
                self.put_full_member(guild_id, &member);
                Ok(CachedMember::from_member(&member))
            },
            Fetched::Missing => Err(Error::NotFound),
            Fetched::Failed => Err(Error::RemoteError),
        }
    }

    /// Looks a channel up.  A hit counts as a use of the record.
    pub fn get_channel(&mut self, channel_id: u64) -> (found: Lookup<CachedChannel>)
        requires
            old(self).wf(),
        ensures
            final(self).wf(),
            final(self)@ == old(self)@.touch(Kind::Channel, global_key(channel_id)),
            match found {
                Lookup::Hit(channel) => old(self)@.channel(channel_id) == Some(channel@),
                Lookup::Miss(fetch) => old(self)@.channel(channel_id) is None && fetch == (
                Fetch::Channel { channel_id }),
            },
    {
        match self.fetch(Kind::Channel, (0u64, channel_id)) {
            Some(Record::Channel(channel)) => Lookup::Hit(channel),
            _ => Lookup::Miss(Fetch::Channel { channel_id }),
        }
    }

    /// Takes in the answer to `Fetch::Channel`: the channel is stored and a
    /// copy of the record handed back.
    pub fn channel_fetched(&mut self, fetched: Fetched<Channel>) -> (result: Result<
        CachedChannel,
        Error,
    >)
        requires
            old(self).wf(),
        ensures
            final(self).wf(),
            match fetched {
                Fetched::Found(channel) => final(self)@ == old(self)@.put_channel(channel)
                    && view_of(result.ok()) == Some(channel_record(channel)),
                Fetched::Missing => final(self)@ == old(self)@ && result == Err::<
                    CachedChannel,
                    Error,
                >(Error::NotFound),
                Fetched::Failed => final(self)@ == old(self)@ && result == Err::<
                    CachedChannel,
                    Error,
                >(Error::RemoteError),
            },
    {
        match fetched {
            Fetched::Found(channel) => {
                self.put_channel(&channel);
                Ok(CachedChannel::from_channel(&channel))
            },
            Fetched::Missing => Err(Error::NotFound),
            Fetched::Failed => Err(Error::RemoteError),
        }
    }

    /// Looks a message up.  A hit counts as a use of the record; after a
    /// miss the message is to be fetched from channel `channel_id`.
    pub fn get_message(&mut self, channel_id: u64, message_id: u64) -> (found: Lookup<
        CachedMessage,
    >)
        requires
            old(self).wf(),
        ensures
            final(self).wf(),
            final(self)@ == old(self)@.touch(Kind::Message, global_key(message_id)),
            match found {
                Lookup::Hit(message) => old(self)@.message(message_id) == Some(message),
                Lookup::Miss(fetch) => old(self)@.message(message_id) is None && fetch == (
                Fetch::Message { channel_id, message_id }),
            },
    {
        match self.fetch(Kind::Message, (0u64, message_id)) {
            Some(Record::Message(message)) => Lookup::Hit(message),
            _ => Lookup::Miss(Fetch::Message { channel_id, message_id }),
        }
    }

    /// Takes in the answer to `Fetch::Message`: the message is stored with
    /// its author and everyone it mentions, and its record handed back.
    pub fn message_fetched(&mut self, fetched: Fetched<Message>) -> (result: Result<
        CachedMessage,
        Error,
    >)
        requires
            old(self).wf(),
        ensures
            final(self).wf(),
            match fetched {
                Fetched::Found(message) => final(self)@ == old(self)@.put_message(message)
                    && result == Ok::<CachedMessage, Error>(message_record(message)),
                Fetched::Missing => final(self)@ == old(self)@ && result == Err::<
                    CachedMessage,
                    Error,
                >(Error::NotFound),
                Fetched::Failed => final(self)@ == old(self)@ && result == Err::<
                    CachedMessage,
                    Error,
                >(Error::RemoteError),
            },
    {
        match fetched {
            Fetched::Found(message) => {
                self.put_message(&message);
                Ok(CachedMessage::from_message(&message))
            },
            Fetched::Missing => Err(Error::NotFound),
            Fetched::Failed => Err(Error::RemoteError),
        }
    }

    /// Forgets a channel.  Nothing happens if it is not cached.
    pub fn remove_channel(&mut self, channel_id: u64)
        requires
            old(self).wf(),
        ensures
            final(self).wf(),
            final(self)@ == old(self)@.discard(Kind::Channel, global_key(channel_id)),
    {
        self.discard(Kind::Channel, (0u64, channel_id));
    }

    /// Forgets a guild.  Nothing happens if it is not cached.
    pub fn remove_guild(&mut self, guild_id: u64)
        requires
            old(self).wf(),
        ensures
            final(self).wf(),
            final(self)@ == old(self)@.discard(Kind::Guild, global_key(guild_id)),
    {
        self.discard(Kind::Guild, (0u64, guild_id));
    }

    /// Takes in an event of the gateway.
    pub fn update(&mut self, event: &Event)
        requires
            old(self).wf(),
        ensures
            final(self).wf(),
            final(self)@ == old(self)@.after(*event),
    {
        match event {
            Event::ChannelCreate(channel) => {
                if channel.kind.is_text_capable() {
                    self.put_channel(channel);
                }
            },
            Event::ChannelUpdate(channel) => {
                if channel.kind.is_text_capable() {
                    self.put_channel(channel);
                }
            },
            Event::ChannelDelete(channel) => self.remove_channel(channel.id),
            Event::GuildCreate(guild) => self.put_full_guild(guild),
            Event::GuildUpdate(guild) => self.put_guild(guild),
            Event::GuildDelete { id } => self.remove_guild(*id),
            Event::MemberAdd { guild_id, member } => self.put_full_member(*guild_id, member),
            Event::MemberUpdate(update) => self.put_member_update(update),
            Event::MemberChunk { guild_id, members } => self.put_full_members(*guild_id, members),
            Event::MessageCreate(message) => self.put_message(message),
            Event::MessageUpdate(update) => self.put_message_update(update),
            Event::ReactionAdd(reaction) => {
                match (reaction.guild_id, &reaction.member) {
                    (Some(guild_id), Some(member)) => {
                        self.put_full_member(guild_id, member);
                    },
                    _ => {},
                }
            },
            Event::RoleCreate { guild_id: _, role } => self.put_role(role),
            Event::RoleUpdate { guild_id: _, role } => self.put_role(role),
            Event::Other => {},
        }
    }
}

} // verus!
