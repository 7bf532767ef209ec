//! The platform's entities and events, as far as the library reads them.
//!
//! These are plain records.  Whoever receives the events from the gateway
//! fills them in; ids are the platform's 64-bit snowflakes.

use vstd::prelude::*;
use vstd::string::StringExecFns;
use crate::text::{decimal, push_decimal};

verus! {

/// Hash of an avatar or icon image.
#[derive(Clone, Copy, Debug, PartialEq, Eq, Structural)]
pub struct ImageHash {
    pub animated: bool,
    pub bytes: u128,
}

/// Kind of a channel.
#[derive(Clone, Copy, Debug, PartialEq, Eq, Structural)]
pub enum ChannelKind {
    GuildText,
    Private,
    GuildVoice,
    Group,
    GuildCategory,
    GuildAnnouncement,
    AnnouncementThread,
    PublicThread,
    PrivateThread,
    GuildStageVoice,
    GuildDirectory,
    GuildForum,
    GuildMedia,
    Unknown(u8),
}

/// Kind of a message: the two kinds that carry interactions, and the rest
/// by their platform number.
#[derive(Clone, Copy, Debug, PartialEq, Eq, Structural)]
pub enum MessageKind {
    Regular,
    Reply,
    Other(u8),
}

/// A user account, global to the platform.
#[derive(Clone, Debug, PartialEq, Eq)]
pub struct User {
    pub id: u64,
    pub name: String,
    pub discriminator: u16,
    pub avatar: Option<ImageHash>,
    pub bot: bool,
}

/// The guild-scoped part of a membership, as attached to messages.
#[derive(Clone, Debug, PartialEq, Eq)]
pub struct PartialMember {
    pub nick: Option<String>,
    pub roles: Vec<u64>,
}

/// A full membership: the user together with its guild-scoped profile.
#[derive(Clone, Debug, PartialEq, Eq)]
pub struct Member {
    pub user: User,
    pub nick: Option<String>,
    pub roles: Vec<u64>,
}

/// A change to a membership.
#[derive(Clone, Debug, PartialEq, Eq)]
pub struct MemberUpdate {
    pub guild_id: u64,
    pub user: User,
    pub nick: Option<String>,
    pub roles: Vec<u64>,
}

/// A user mentioned in a message.
#[derive(Clone, Debug, PartialEq, Eq)]
pub struct Mention {
    pub id: u64,
    pub name: String,
    pub discriminator: u16,
    pub avatar: Option<ImageHash>,
    pub bot: bool,
    pub member: Option<PartialMember>,
}

/// A role of a guild.
#[derive(Clone, Debug, PartialEq, Eq)]
pub struct Role {
    pub id: u64,
    pub name: String,
    pub color: u32,
    pub position: i64,
    pub permissions: u64,
}

/// A channel.
#[derive(Clone, Debug, PartialEq, Eq)]
pub struct Channel {
    pub id: u64,
    pub guild_id: Option<u64>,
    pub name: Option<String>,
    pub kind: ChannelKind,
}

/// A guild as the gateway announces it: with its channels and roles.
#[derive(Clone, Debug, PartialEq, Eq)]
pub struct Guild {
    pub id: u64,
    pub name: String,
    pub icon: Option<ImageHash>,
    pub owner_id: u64,
    pub roles: Vec<Role>,
    pub channels: Vec<Channel>,
}

/// A guild without its channels.
#[derive(Clone, Debug, PartialEq, Eq)]
pub struct PartialGuild {
    pub id: u64,
    pub name: String,
    pub icon: Option<ImageHash>,
    pub owner_id: u64,
    pub roles: Vec<Role>,
}

/// Pointer from a reply to the message it answers.
#[derive(Clone, Copy, Debug, PartialEq, Eq, Structural)]
pub struct MessageReference {
    pub channel_id: Option<u64>,
    pub message_id: Option<u64>,
}

/// A message as it is created.
#[derive(Clone, Debug, PartialEq, Eq)]
pub struct Message {
    pub id: u64,
    pub channel_id: u64,
    pub guild_id: Option<u64>,
    pub author: User,
    pub member: Option<PartialMember>,
    pub mentions: Vec<Mention>,
    pub kind: MessageKind,
    pub reference: Option<MessageReference>,
    pub webhook_id: Option<u64>,
    pub content: String,
}

/// An edit of a message: every part but the id may be missing.
#[derive(Clone, Debug, PartialEq, Eq)]
pub struct MessageUpdate {
    pub id: u64,
    pub guild_id: Option<u64>,
    pub author: Option<User>,
    pub member: Option<PartialMember>,
    pub mentions: Option<Vec<Mention>>,
    pub kind: Option<MessageKind>,
}

/// A reaction added to a message.
#[derive(Clone, Debug, PartialEq, Eq)]
pub struct Reaction {
    pub user_id: u64,
    pub channel_id: u64,
    pub message_id: u64,
    pub guild_id: Option<u64>,
    pub member: Option<Member>,
}

/// An event of the gateway.
#[derive(Clone, Debug, PartialEq, Eq)]
pub enum Event {
    ChannelCreate(Channel),
    ChannelUpdate(Channel),
    ChannelDelete(Channel),
    GuildCreate(Guild),
    GuildUpdate(PartialGuild),
    GuildDelete { id: u64 },
    MemberAdd { guild_id: u64, member: Member },
    MemberUpdate(MemberUpdate),
    MemberChunk { guild_id: u64, members: Vec<Member> },
    MessageCreate(Message),
    MessageUpdate(MessageUpdate),
    ReactionAdd(Reaction),
    RoleCreate { guild_id: u64, role: Role },
    RoleUpdate { guild_id: u64, role: Role },
    /// Any event that neither the cache nor the graph reads.
    Other,
}

impl ChannelKind {
    /// The kind's name as it appears in synthesized channel names.
    pub open spec fn name_text(self) -> Seq<char> {
        match self {
            ChannelKind::GuildText => "GuildText"@,
            ChannelKind::Private => "Private"@,
            ChannelKind::GuildVoice => "GuildVoice"@,
            ChannelKind::Group => "Group"@,
            ChannelKind::GuildCategory => "GuildCategory"@,
            ChannelKind::GuildAnnouncement => "GuildAnnouncement"@,
            ChannelKind::AnnouncementThread => "AnnouncementThread"@,
            ChannelKind::PublicThread => "PublicThread"@,
            ChannelKind::PrivateThread => "PrivateThread"@,
            ChannelKind::GuildStageVoice => "GuildStageVoice"@,
            ChannelKind::GuildDirectory => "GuildDirectory"@,
            ChannelKind::GuildForum => "GuildForum"@,
            ChannelKind::GuildMedia => "GuildMedia"@,
            ChannelKind::Unknown(n) => "Unknown("@ + decimal(n as nat) + ")"@,
        }
    }

    /// The kind's name as it appears in synthesized channel names.
    pub fn name(&self) -> (text: String)
        ensures
            text@ == self.name_text(),
    {
        let mut text = String::new();
        match self {
            ChannelKind::GuildText => text.append("GuildText"),
            ChannelKind::Private => text.append("Private"),
            ChannelKind::GuildVoice => text.append("GuildVoice"),
            ChannelKind::Group => text.append("Group"),
            ChannelKind::GuildCategory => text.append("GuildCategory"),
            ChannelKind::GuildAnnouncement => text.append("GuildAnnouncement"),
            ChannelKind::AnnouncementThread => text.append("AnnouncementThread"),
            ChannelKind::PublicThread => text.append("PublicThread"),
            ChannelKind::PrivateThread => text.append("PrivateThread"),
            ChannelKind::GuildStageVoice => text.append("GuildStageVoice"),
            ChannelKind::GuildDirectory => text.append("GuildDirectory"),
            ChannelKind::GuildForum => text.append("GuildForum"),
            ChannelKind::GuildMedia => text.append("GuildMedia"),
            ChannelKind::Unknown(n) => {
                text.append("Unknown(");
                push_decimal(&mut text, *n as u64);
                text.append(")");
            },
        }
        assert(text@ =~= self.name_text());
        text
    }

    /// Whether user messages can be posted to a channel of this kind.
    pub open spec fn text_capable(self) -> bool {
        self == ChannelKind::GuildText
    }

    /// Whether user messages can be posted to a channel of this kind.
    pub fn is_text_capable(&self) -> (yes: bool)
        ensures
            yes == self.text_capable(),
    {
        match self {
            ChannelKind::GuildText => true,
            _ => false,
        }
    }
}

} // verus!
