//! Interactions: who addressed whom, where.

use vstd::prelude::*;
use vstd::string::StringExecFns;
use crate::cache::entity::{CachedChannel, CachedGuild, CachedMember, CachedMessage, CachedUser};
use crate::error::Error;
use crate::model::{Mention, Message, Reaction};
use crate::text::{decimal4, joined, push_decimal4, push_joined, views};

verus! {

/// What brought an interaction about.
#[derive(Clone, Copy, Debug, PartialEq, Eq, Structural)]
pub enum InteractionType {
    Message,
    Reaction,
}

/// One user addressing others in a channel of a guild.
#[derive(Clone, Debug, PartialEq, Eq)]
pub struct Interaction {
    pub what: InteractionType,
    pub source: u64,
    /// The users addressed, each once, in the order in which they first
    /// appear.
    pub targets: Vec<u64>,
    pub channel: u64,
    pub guild: u64,
    /// For a reply, the message that it answers.
    pub reference: Option<CachedMessage>,
}

/// The interaction as a value.
pub ghost struct InteractionView {
    pub what: InteractionType,
    pub source: u64,
    pub targets: Seq<u64>,
    pub channel: u64,
    pub guild: u64,
    pub reference: Option<CachedMessage>,
}

impl View for Interaction {
    type V = InteractionView;

    open spec fn view(&self) -> InteractionView {
        InteractionView {
            what: self.what,
            source: self.source,
            targets: self.targets@,
            channel: self.channel,
            guild: self.guild,
            reference: self.reference,
        }
    }
}

/// A user as it is shown: the account together with its profile in the
/// guild.
#[derive(Clone, Debug, PartialEq, Eq)]
pub struct Participant {
    pub user: CachedUser,
    pub member: CachedMember,
}

/// How a user is called in its guild: by its nickname or else by its name.
pub open spec fn called(participant: Participant) -> Seq<char> {
    match participant.member.nick {
        Some(nick) => nick@,
        None => participant.user.name@,
    }
}

/// The name and tag of an account: `name#0042`.
pub open spec fn tag(user: CachedUser) -> Seq<char> {
    user.name@ + "#"@ + decimal4(user.discriminator as nat)
}

/// How a user is labelled in the picture of a graph: by its nickname or
/// else by its name and tag.
pub open spec fn label(participant: Participant) -> Seq<char> {
    match participant.member.nick {
        Some(nick) => nick@,
        None => tag(participant.user),
    }
}

/// How a user is shown in the text of an interaction: `"nick" (name#0042)`.
pub open spec fn display_name(participant: Participant) -> Seq<char> {
    "\""@ + called(participant) + "\" ("@ + tag(participant.user) + ")"@
}

/// How each of `participants` is shown, in order.
pub open spec fn display_names(participants: Seq<Participant>) -> Seq<Seq<char>> {
    participants.map_values(|participant: Participant| display_name(participant))
}

/// The text of an interaction of kind `what`, from the names of those who
/// take part and of where it takes place.
pub open spec fn described(
    what: InteractionType,
    source: Seq<char>,
    targets: Seq<char>,
    channel: Seq<char>,
    guild: Seq<char>,
) -> Seq<char> {
    match what {
        InteractionType::Message => "new message from "@ + source + " in #"@ + channel + " @ \""@
            + guild + "\", mentions: ["@ + targets + "]"@,
        InteractionType::Reaction => source + " reacted to a message by "@ + targets + " in #"@
            + channel + " @ \""@ + guild + "\""@,
    }
}

/// Appends the name and tag of an account to `out`.
pub fn push_tag(out: &mut String, user: &CachedUser)
    ensures
        final(out)@ == old(out)@ + tag(*user),
{
    out.append(user.name.as_str());
    out.append("#");
    push_decimal4(out, user.discriminator);
    assert(out@ =~= old(out)@ + tag(*user));
}

impl Participant {
    /// How the user is labelled in the picture of a graph.
    pub fn label(&self) -> (text: String)
        ensures
            text@ == label(*self),
    {
        let mut text = String::new();
        match &self.member.nick {
            Some(nick) => text.append(nick.as_str()),
            None => push_tag(&mut text, &self.user),
        }
        assert(text@ =~= label(*self));
        text
    }

    /// How the user is shown in the text of an interaction.
    pub fn display_name(&self) -> (text: String)
        ensures
            text@ == display_name(*self),
    {
        let mut text = String::new();
        text.append("\"");
        match &self.member.nick {
            Some(nick) => text.append(nick.as_str()),
            None => text.append(self.user.name.as_str()),
        }
        text.append("\" (");
        push_tag(&mut text, &self.user);
        text.append(")");
        assert(text@ =~= display_name(*self));
        text
    }
}

/// The ids of `ids`, each once, in the order in which they first appear.
pub open spec fn distinct(ids: Seq<u64>) -> Seq<u64>
    decreases ids.len(),
{
    if ids.len() == 0 {
        Seq::empty()
    } else {
        let before = distinct(ids.drop_last());
        if before.contains(ids.last()) {
            before
        } else {
            before.push(ids.last())
        }
    }
}

/// `distinct` keeps every id, adds none and repeats none.
pub proof fn lemma_distinct(ids: Seq<u64>)
    ensures
        distinct(ids).no_duplicates(),
        distinct(ids).len() <= ids.len(),
        forall|id: u64| distinct(ids).contains(id) <==> ids.contains(id),
    decreases ids.len(),
{
    if ids.len() > 0 {
        let shorter = ids.drop_last();
        let before = distinct(shorter);
        let now = distinct(ids);
        lemma_distinct(shorter);
        assert forall|id: u64| now.contains(id) <==> ids.contains(id) by {
            if ids.contains(id) {
                let i = choose|i: int| 0 <= i < ids.len() && ids[i] == id;
                if i < shorter.len() {
                    assert(shorter[i] == id);
                    assert(shorter.contains(id));
                    assert(before.contains(id));
                    let j = choose|j: int| 0 <= j < before.len() && before[j] == id;
                    assert(now[j] == id);
                } else if !before.contains(id) {
                    assert(now[now.len() - 1] == id);
                }
            }
            if now.contains(id) {
                let j = choose|j: int| 0 <= j < now.len() && now[j] == id;
                if j < before.len() {
                    assert(before[j] == id);
                    assert(before.contains(id));
                    assert(shorter.contains(id));
                    let i = choose|i: int| 0 <= i < shorter.len() && shorter[i] == id;
                    assert(ids[i] == id);
                } else {
                    assert(ids[ids.len() - 1] == id);
                }
            }
        }
    }
}

/// The ids of the users that `mentions` name, in order.
pub open spec fn mention_ids(mentions: Seq<Mention>) -> Seq<u64> {
    mentions.map_values(|mention: Mention| mention.id)
}

/// The users that a message addresses: those it mentions and, where it
/// answers a message, the author of that message.
pub open spec fn message_targets(message: Message, referenced: Option<CachedMessage>) -> Seq<u64> {
    distinct(
        match referenced {
            Some(referenced) => mention_ids(message.mentions@).push(referenced.author_id),
            None => mention_ids(message.mentions@),
        },
    )
}

/// Whether `ids` holds `id`.
pub fn contains_id(ids: &Vec<u64>, id: u64) -> (found: bool)
    ensures
        found == ids@.contains(id),
{
    let mut i: usize = 0;
    while i < ids.len()
        invariant
            i <= ids.len(),
            !ids@.take(i as int).contains(id),
        decreases ids.len() - i,
    {
        if ids[i] == id {
            assert(ids@[i as int] == id);
            return true;
        }
        i = i + 1;
        assert(!ids@.take(i as int).contains(id)) by {
            if ids@.take(i as int).contains(id) {
                let j = choose|j: int| 0 <= j < i && ids@.take(i as int)[j] == id;
                if j < i - 1 {
                    assert(ids@.take(i - 1)[j] == id);
                }
            }
        }
    }
    assert(ids@.take(ids.len() as int) =~= ids@);
    false
}

/// Adds `id` to `ids` unless it is there.
pub fn push_distinct(ids: &mut Vec<u64>, id: u64)
    ensures
        final(ids)@ == if old(ids)@.contains(id) {
            old(ids)@
        } else {
            old(ids)@.push(id)
        },
{
    if !contains_id(ids, id) {
        ids.push(id);
    }
}

impl Interaction {
    /// The interaction that a message makes.  `referenced_message` is the
    /// message that it answers, if it answers one.
    ///
    /// The caller hands in eligible messages only: written by a person, not
    /// a bot or a webhook, and regular or a reply.
    pub fn new_from_message(message: &Message, referenced_message: Option<&CachedMessage>) -> (result:
        Result<Interaction, Error>)
        ensures
            match message.guild_id {
                None => result == Err::<Interaction, Error>(Error::MissingGuildContext),
                Some(guild_id) => result matches Ok(interaction) && interaction@ == (
                InteractionView {
                    what: InteractionType::Message,
                    source: message.author.id,
                    targets: message_targets(
                        *message,
                        match referenced_message {
                            Some(referenced) => Some(*referenced),
                            None => None,
                        },
                    ),
                    channel: message.channel_id,
                    guild: guild_id,
                    reference: match referenced_message {
                        Some(referenced) => Some(*referenced),
                        None => None,
                    },
                }),
            },
    {
        let guild = match message.guild_id {
            Some(guild_id) => guild_id,
            None => {
                return Err(Error::MissingGuildContext);
            },
        };
        let mut targets: Vec<u64> = Vec::new();
        let mut i: usize = 0;
        while i < message.mentions.len()
            invariant
                i <= message.mentions.len(),
                targets@ == distinct(mention_ids(message.mentions@).take(i as int)),
            decreases message.mentions.len() - i,
        {
            push_distinct(&mut targets, message.mentions[i].id);
            proof {
                let next = mention_ids(message.mentions@).take(i + 1);
                assert(next.drop_last() =~= mention_ids(message.mentions@).take(i as int));
                assert(next.last() == message.mentions@[i as int].id);
            }
            i = i + 1;
        }
        assert(mention_ids(message.mentions@).take(message.mentions.len() as int) =~= mention_ids(
            message.mentions@,
        ));
        let reference = match referenced_message {
            Some(referenced) => {
                push_distinct(&mut targets, referenced.author_id);
                proof {
                    let all = mention_ids(message.mentions@).push(referenced.author_id);
                    assert(all.drop_last() =~= mention_ids(message.mentions@));
                }
                Some(*referenced)
            },
            None => None,
        };
        Ok(
            Interaction {
                what: InteractionType::Message,
                source: message.author.id,
                targets,
                channel: message.channel_id,
                guild,
                reference,
            },
        )
    }

    /// The interaction in words, for the log.  `source` and `targets` are the
    /// users that take part, `channel` and `guild` where it takes place, as
    /// the caller resolved them.
    pub fn to_string(
        &self,
        source: &Participant,
        targets: &Vec<Participant>,
        channel: &CachedChannel,
        guild: &CachedGuild,
    ) -> (text: String)
        ensures
            text@ == described(
                self.what,
                display_name(*source),
                joined(display_names(targets@), ", "@),
                channel.name@,
                guild.name@,
            ),
    {
        let source_name = source.display_name();
        let mut target_names: Vec<String> = Vec::new();
        let mut i: usize = 0;
        while i < targets.len()
            invariant
                i <= targets.len(),
                target_names@.len() == i,
                views(target_names@) == display_names(targets@).take(i as int),
            decreases targets.len() - i,
        {
            let ghost names = target_names@;
            let name = targets[i].display_name();
            target_names.push(name);
            i = i + 1;
            proof {
                let expected = display_names(targets@).take(i as int);
                assert forall|j: int| 0 <= j < i implies views(target_names@)[j] == expected[j] by {
                    if j < i - 1 {
                        assert(target_names@[j] == names[j]);
                        assert(views(names)[j] == names[j]@);
                    }
                }
                assert(views(target_names@) =~= expected);
            }
        }
        assert(display_names(targets@).take(targets.len() as int) =~= display_names(targets@));
        let mut text = String::new();
        match self.what {
            InteractionType::Message => {
                text.append("new message from ");
                text.append(source_name.as_str());
                text.append(" in #");
                text.append(channel.name.as_str());
                text.append(" @ \"");
                text.append(guild.name.as_str());
                text.append("\", mentions: [");
                push_joined(&mut text, &target_names, ", ");
                text.append("]");
            },
            InteractionType::Reaction => {
                text.append(source_name.as_str());
                text.append(" reacted to a message by ");
                push_joined(&mut text, &target_names, ", ");
                text.append(" in #");
                text.append(channel.name.as_str());
                text.append(" @ \"");
                text.append(guild.name.as_str());
                text.append("\"");
            },
        }
        assert(text@ =~= described(
            self.what,
            display_name(*source),
            joined(display_names(targets@), ", "@),
            channel.name@,
            guild.name@,
        ));
        text
    }

    /// The interaction that a reaction makes: the reacting user addresses
    /// the author of `target_message`, the message reacted to.
    pub fn new_from_reaction(reaction: &Reaction, target_message: &CachedMessage) -> (result: Result<
        Interaction,
        Error,
    >)
        ensures
            match reaction.guild_id {
                None => result == Err::<Interaction, Error>(Error::MissingGuildContext),
                Some(guild_id) => result matches Ok(interaction) && interaction@ == (
                InteractionView {
                    what: InteractionType::Reaction,
                    source: reaction.user_id,
                    targets: seq![target_message.author_id],
                    channel: reaction.channel_id,
                    guild: guild_id,
                    reference: None,
                }),
            },
    {
        let guild = match reaction.guild_id {
            Some(guild_id) => guild_id,
            None => {
                return Err(Error::MissingGuildContext);
            },
        };
        let mut targets: Vec<u64> = Vec::new();
        targets.push(target_message.author_id);
        assert(targets@ =~= seq![target_message.author_id]);
        Ok(
            Interaction {
                what: InteractionType::Reaction,
                source: reaction.user_id,
                targets,
                channel: reaction.channel_id,
                guild,
                reference: None,
            },
        )
    }
}

} // verus!
