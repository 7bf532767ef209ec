//! The records that the cache holds, one type per kind of entity.
//!
//! A record is a value: it refers to other entities by id only.

use vstd::prelude::*;
use vstd::string::StringExecFns;
use crate::model::{
    Channel, ChannelKind, Guild, ImageHash, Member, MemberUpdate, Mention, Message, MessageKind,
    PartialGuild, PartialMember, Role, User,
};
use crate::text::{decimal, push_decimal};

verus! {

/// A user, keyed by its id.
#[derive(Clone, Debug, PartialEq, Eq)]
pub struct CachedUser {
    pub id: u64,
    pub name: String,
    pub discriminator: u16,
    pub avatar: Option<ImageHash>,
    pub bot: bool,
}

/// A guild, keyed by its id.
#[derive(Clone, Debug, PartialEq, Eq)]
pub struct CachedGuild {
    pub id: u64,
    pub name: String,
    pub icon: Option<ImageHash>,
    pub roles: Vec<u64>,
    pub owner_id: u64,
}

/// A role, keyed by its id.
#[derive(Clone, Debug, PartialEq, Eq)]
pub struct CachedRole {
    pub id: u64,
    pub name: String,
    pub color: u32,
    pub position: i64,
    pub permissions: u64,
}

/// A user's profile in one guild, keyed by guild id and user id.
#[derive(Clone, Debug, PartialEq, Eq)]
pub struct CachedMember {
    pub nick: Option<String>,
    pub roles: Vec<u64>,
}

/// A channel, keyed by its id.
#[derive(Clone, Debug, PartialEq, Eq)]
pub struct CachedChannel {
    pub id: u64,
    pub name: String,
    pub kind: ChannelKind,
}

/// What is kept of a message, keyed by its id: enough to attribute a later
/// reaction to the author.
#[derive(Clone, Copy, Debug, PartialEq, Eq, Structural)]
pub struct CachedMessage {
    pub author_id: u64,
    pub kind: MessageKind,
}

pub ghost struct CachedUserView {
    pub id: u64,
    pub name: Seq<char>,
    pub discriminator: u16,
    pub avatar: Option<ImageHash>,
    pub bot: bool,
}

pub ghost struct CachedGuildView {
    pub id: u64,
    pub name: Seq<char>,
    pub icon: Option<ImageHash>,
    pub roles: Seq<u64>,
    pub owner_id: u64,
}

pub ghost struct CachedRoleView {
    pub id: u64,
    pub name: Seq<char>,
    pub color: u32,
    pub position: i64,
    pub permissions: u64,
}

pub ghost struct CachedMemberView {
    pub nick: Option<Seq<char>>,
    pub roles: Seq<u64>,
}

pub ghost struct CachedChannelView {
    pub id: u64,
    pub name: Seq<char>,
    pub kind: ChannelKind,
}

impl View for CachedUser {
    type V = CachedUserView;

    open spec fn view(&self) -> CachedUserView {
        CachedUserView {
            id: self.id,
            name: self.name@,
            discriminator: self.discriminator,
            avatar: self.avatar,
            bot: self.bot,
        }
    }
}

impl View for CachedGuild {
    type V = CachedGuildView;

    open spec fn view(&self) -> CachedGuildView {
        CachedGuildView {
            id: self.id,
            name: self.name@,
            icon: self.icon,
            roles: self.roles@,
            owner_id: self.owner_id,
        }
    }
}

impl View for CachedRole {
    type V = CachedRoleView;

    open spec fn view(&self) -> CachedRoleView {
        CachedRoleView {
            id: self.id,
            name: self.name@,
            color: self.color,
            position: self.position,
            permissions: self.permissions,
        }
    }
}

impl View for CachedMember {
    type V = CachedMemberView;

    open spec fn view(&self) -> CachedMemberView {
        CachedMemberView { nick: text_of(self.nick), roles: self.roles@ }
    }
}

impl View for CachedChannel {
    type V = CachedChannelView;

    open spec fn view(&self) -> CachedChannelView {
        CachedChannelView { id: self.id, name: self.name@, kind: self.kind }
    }
}

impl View for CachedMessage {
    type V = CachedMessage;

    open spec fn view(&self) -> CachedMessage {
        *self
    }
}

/// The characters of an optional string.
pub open spec fn text_of(s: Option<String>) -> Option<Seq<char>> {
    match s {
        Some(s) => Some(s@),
        None => None,
    }
}

/// The ids of a list of roles, in order.
pub open spec fn role_ids(roles: Seq<Role>) -> Seq<u64> {
    roles.map_values(|role: Role| role.id)
}

/// The record kept of a user.
pub open spec fn user_record(user: User) -> CachedUserView {
    CachedUserView {
        id: user.id,
        name: user.name@,
        discriminator: user.discriminator,
        avatar: user.avatar,
        bot: user.bot,
    }
}

/// The user record kept of a mention.
pub open spec fn mention_record(mention: Mention) -> CachedUserView {
    CachedUserView {
        id: mention.id,
        name: mention.name@,
        discriminator: mention.discriminator,
        avatar: mention.avatar,
        bot: mention.bot,
    }
}

/// The record kept of a guild.
pub open spec fn guild_record(guild: Guild) -> CachedGuildView {
    CachedGuildView {
        id: guild.id,
        name: guild.name@,
        icon: guild.icon,
        roles: role_ids(guild.roles@),
        owner_id: guild.owner_id,
    }
}

/// The record kept of a guild that came without its channels.
pub open spec fn partial_guild_record(guild: PartialGuild) -> CachedGuildView {
    CachedGuildView {
        id: guild.id,
        name: guild.name@,
        icon: guild.icon,
        roles: role_ids(guild.roles@),
        owner_id: guild.owner_id,
    }
}

/// The record kept of a role.
pub open spec fn role_record(role: Role) -> CachedRoleView {
    CachedRoleView {
        id: role.id,
        name: role.name@,
        color: role.color,
        position: role.position,
        permissions: role.permissions,
    }
}

/// The record kept of a membership.
pub open spec fn member_record(member: Member) -> CachedMemberView {
    CachedMemberView { nick: text_of(member.nick), roles: member.roles@ }
}

/// The record kept of a membership attached to a message.
pub open spec fn partial_member_record(member: PartialMember) -> CachedMemberView {
    CachedMemberView { nick: text_of(member.nick), roles: member.roles@ }
}

/// The record kept of a membership change.
pub open spec fn member_update_record(update: MemberUpdate) -> CachedMemberView {
    CachedMemberView { nick: text_of(update.nick), roles: update.roles@ }
}

/// The name under which a channel is kept: its own, or `<kind>:<id>`.
pub open spec fn channel_name(channel: Channel) -> Seq<char> {
    match channel.name {
        Some(name) => name@,
        None => channel.kind.name_text() + ":"@ + decimal(channel.id as nat),
    }
}

/// The record kept of a channel.
pub open spec fn channel_record(channel: Channel) -> CachedChannelView {
    CachedChannelView { id: channel.id, name: channel_name(channel), kind: channel.kind }
}

/// The record kept of a message.
pub open spec fn message_record(message: Message) -> CachedMessage {
    CachedMessage { author_id: message.author.id, kind: message.kind }
}

/// A copy of a list of ids.
pub fn copy_ids(ids: &Vec<u64>) -> (copy: Vec<u64>)
    ensures
        copy@ == ids@,
{
    let mut copy: Vec<u64> = Vec::new();
    let mut i: usize = 0;
    while i < ids.len()
        invariant
            i <= ids.len(),
            copy@ == ids@.take(i as int),
        decreases ids.len() - i,
    {
        copy.push(ids[i]);
        i = i + 1;
        assert(copy@ =~= ids@.take(i as int));
    }
    assert(ids@.take(ids.len() as int) =~= ids@);
    copy
}

/// A copy of an optional string.
pub fn copy_text(text: &Option<String>) -> (copy: Option<String>)
    ensures
        text_of(copy) == text_of(*text),
{
    match text {
        Some(s) => Some(s.clone()),
        None => None,
    }
}

/// The ids of `roles`, in order.
pub fn collect_role_ids(roles: &Vec<Role>) -> (ids: Vec<u64>)
    ensures
        ids@ == role_ids(roles@),
{
    let mut ids: Vec<u64> = Vec::new();
    let mut i: usize = 0;
    while i < roles.len()
        invariant
            i <= roles.len(),
            ids@ == role_ids(roles@.take(i as int)),
        decreases roles.len() - i,
    {
        ids.push(roles[i].id);
        i = i + 1;
        assert(ids@ =~= role_ids(roles@.take(i as int)));
    }
    assert(roles@.take(roles.len() as int) =~= roles@);
    ids
}

impl CachedUser {
    pub fn from_user(user: &User) -> (record: CachedUser)
        ensures
            record@ == user_record(*user),
    {
        CachedUser {
            id: user.id,
            name: user.name.clone(),
            discriminator: user.discriminator,
            avatar: user.avatar,
            bot: user.bot,
        }
    }

    pub fn from_mention(mention: &Mention) -> (record: CachedUser)
        ensures
            record@ == mention_record(*mention),
    {
        CachedUser {
            id: mention.id,
            name: mention.name.clone(),
            discriminator: mention.discriminator,
            avatar: mention.avatar,
            bot: mention.bot,
        }
    }
}

impl CachedGuild {
    pub fn from_guild(guild: &Guild) -> (record: CachedGuild)
        ensures
            record@ == guild_record(*guild),
    {
        CachedGuild {
            id: guild.id,
            name: guild.name.clone(),
            icon: guild.icon,
            roles: collect_role_ids(&guild.roles),
            owner_id: guild.owner_id,
        }
    }

    pub fn from_partial_guild(guild: &PartialGuild) -> (record: CachedGuild)
        ensures
            record@ == partial_guild_record(*guild),
    {
        CachedGuild {
            id: guild.id,
            name: guild.name.clone(),
            icon: guild.icon,
            roles: collect_role_ids(&guild.roles),
            owner_id: guild.owner_id,
        }
    }
}

impl CachedRole {
    pub fn from_role(role: &Role) -> (record: CachedRole)
        ensures
            record@ == role_record(*role),
    {
        CachedRole {
            id: role.id,
            name: role.name.clone(),
            color: role.color,
            position: role.position,
            permissions: role.permissions,
        }
    }
}

impl CachedMember {
    pub fn from_member(member: &Member) -> (record: CachedMember)
        ensures
            record@ == member_record(*member),
    {
        CachedMember { nick: copy_text(&member.nick), roles: copy_ids(&member.roles) }
    }

    pub fn from_partial_member(member: &PartialMember) -> (record: CachedMember)
        ensures
            record@ == partial_member_record(*member),
    {
        CachedMember { nick: copy_text(&member.nick), roles: copy_ids(&member.roles) }
    }

    pub fn from_member_update(update: &MemberUpdate) -> (record: CachedMember)
        ensures
            record@ == member_update_record(*update),
    {
        CachedMember { nick: copy_text(&update.nick), roles: copy_ids(&update.roles) }
    }
}

impl CachedChannel {
    pub fn from_channel(channel: &Channel) -> (record: CachedChannel)
        ensures
            record@ == channel_record(*channel),
    {
        let name = match &channel.name {
            Some(name) => name.clone(),
            None => {
                let mut name = channel.kind.name();
                name.append(":");
                push_decimal(&mut name, channel.id);
                name
            },
        };
        CachedChannel { id: channel.id, name, kind: channel.kind }
    }
}

impl CachedMessage {
    pub fn from_message(message: &Message) -> (record: CachedMessage)
        ensures
            record@ == message_record(*message),
    {
        CachedMessage { author_id: message.author.id, kind: message.kind }
    }
}

} // verus!

verus! {

/// A record of any kind: what a table holds.
#[derive(Clone, Debug, PartialEq, Eq)]
pub enum Record {
    User(CachedUser),
    Guild(CachedGuild),
    Role(CachedRole),
    Member(CachedMember),
    Channel(CachedChannel),
    Message(CachedMessage),
}

pub ghost enum RecordView {
    User(CachedUserView),
    Guild(CachedGuildView),
    Role(CachedRoleView),
    Member(CachedMemberView),
    Channel(CachedChannelView),
    Message(CachedMessage),
}

impl View for Record {
    type V = RecordView;

    open spec fn view(&self) -> RecordView {
        match *self {
            Record::User(user) => RecordView::User(user@),
            Record::Guild(guild) => RecordView::Guild(guild@),
            Record::Role(role) => RecordView::Role(role@),
            Record::Member(member) => RecordView::Member(member@),
            Record::Channel(channel) => RecordView::Channel(channel@),
            Record::Message(message) => RecordView::Message(message),
        }
    }
}

/// The view of a value that may be missing.
pub open spec fn view_of<T: View>(value: Option<T>) -> Option<T::V> {
    match value {
        Some(value) => Some(value@),
        None => None,
    }
}

impl CachedUser {
    /// A copy of this record.
    pub fn duplicate(&self) -> (copy: CachedUser)
        ensures
            copy@ == self@,
    {
        CachedUser {
            id: self.id,
            name: self.name.clone(),
            discriminator: self.discriminator,
            avatar: self.avatar,
            bot: self.bot,
        }
    }
}

impl CachedGuild {
    /// A copy of this record.
    pub fn duplicate(&self) -> (copy: CachedGuild)
        ensures
            copy@ == self@,
    {
        CachedGuild {
            id: self.id,
            name: self.name.clone(),
            icon: self.icon,
            roles: copy_ids(&self.roles),
            owner_id: self.owner_id,
        }
    }
}

impl CachedRole {
    /// A copy of this record.
    pub fn duplicate(&self) -> (copy: CachedRole)
        ensures
            copy@ == self@,
    {
        CachedRole {
            id: self.id,
            name: self.name.clone(),
            color: self.color,
            position: self.position,
            permissions: self.permissions,
        }
    }
}

impl CachedMember {
    /// A copy of this record.
    pub fn duplicate(&self) -> (copy: CachedMember)
        ensures
            copy@ == self@,
    {
        CachedMember { nick: copy_text(&self.nick), roles: copy_ids(&self.roles) }
    }
}

impl CachedChannel {
    /// A copy of this record.
    pub fn duplicate(&self) -> (copy: CachedChannel)
        ensures
            copy@ == self@,
    {
        CachedChannel { id: self.id, name: self.name.clone(), kind: self.kind }
    }
}

impl Record {
    /// A copy of this record.
    pub fn duplicate(&self) -> (copy: Record)
        ensures
            copy@ == self@,
    {
        match self {
            Record::User(user) => Record::User(user.duplicate()),
            Record::Guild(guild) => Record::Guild(guild.duplicate()),
            Record::Role(role) => Record::Role(role.duplicate()),
            Record::Member(member) => Record::Member(member.duplicate()),
            Record::Channel(channel) => Record::Channel(channel.duplicate()),
            Record::Message(message) => Record::Message(*message),
        }
    }
}

} // verus!
