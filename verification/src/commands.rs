//! The commands that the bot takes from messages which mention it first.

use vstd::prelude::*;
use vstd::string::StringExecFns;
use twilight_command_parser::{CommandParserConfig, Parser};
use crate::cache::entity::CachedGuild;
use crate::error::Error;
use crate::inference::contains_id;
use crate::model::{Event, Message, User};
use crate::text::{decimal, joined, parse_number, parsed_number, push_decimal, push_joined, views};

verus! {

/// What is answered when a command fails, whatever went wrong.
pub const FAILURE_REPLY: &'static str = "Sorry, there was an error handling that command";

/// What a message asks the bot to do.
#[derive(Clone, Copy, Debug, PartialEq, Eq, Structural)]
pub enum Command {
    /// Answer with what the bot is and how to invite it.
    Help,
    /// Draw the graph of the guild that the message was sent to.
    Graph { guild_id: u64 },
    /// Answer with the number of records in each table of the cache.
    Stats,
    /// Draw the graph of a guild and attach its text as well.
    Dump { guild_id: u64 },
    /// List the guilds that have a graph, by id and name.
    ListGuilds,
    /// Do nothing and answer nothing.
    Nothing,
}

/// What `twilight_command_parser` finds in `content`: the name of the
/// command and its arguments, for a parser that was given `prefixes` and
/// then `commands`, each with `case_sensitive`, in order.
pub uninterp spec fn parsed_command(
    prefixes: Seq<Seq<char>>,
    commands: Seq<Seq<char>>,
    case_sensitive: bool,
    content: Seq<char>,
) -> Option<(Seq<char>, Seq<Seq<char>>)>;

/// The characters of what the parser found.
pub open spec fn command_view(found: Option<(String, Vec<String>)>) -> Option<
    (Seq<char>, Seq<Seq<char>>),
> {
    match found {
        Some((name, arguments)) => Some((name@, views(arguments@))),
        None => None,
    }
}

/// `Parser::parse` of `twilight_command_parser`, on a parser configured
/// with `prefixes` and `commands`: the command that `content` begins with
/// after one of the prefixes, and its arguments; nothing where it begins
/// with no prefix or names no command.
#[verifier::external_body]
fn parse_command(
    prefixes: &Vec<String>,
    commands: &Vec<String>,
    case_sensitive: bool,
    content: &str,
) -> (found: Option<(String, Vec<String>)>)
    ensures
        command_view(found) == parsed_command(
            views(prefixes@),
            views(commands@),
            case_sensitive,
            content@,
        ),
{
    let mut config = CommandParserConfig::new();
    for prefix in prefixes {
        config.add_prefix(prefix.clone());
    }
    for command in commands {
        config.add_command(command.clone(), case_sensitive);
    }
    Parser::new(config).parse(content).map(
        |found| (found.name.to_string(), found.arguments.map(|argument| argument.to_string()).collect()),
    )
}

/// The two ways in which a message mentions the user `self_id` first.
pub open spec fn mention_prefixes(self_id: u64) -> Seq<Seq<char>> {
    seq!["<@"@ + decimal(self_id as nat) + "> "@, "<@!"@ + decimal(self_id as nat) + "> "@]
}

/// The names of the commands.
pub open spec fn command_names() -> Seq<Seq<char>> {
    seq!["help"@, "invite"@, "graph"@, "stats"@, "dump"@]
}

/// What a command by its name and arguments asks for, in a message and for
/// a bot with the owners `owners`.
pub open spec fn selected(
    name: Seq<char>,
    arguments: Seq<Seq<char>>,
    message: Message,
    owners: Seq<u64>,
) -> Result<Command, Error> {
    if name == "help"@ || name == "invite"@ {
        Ok(Command::Help)
    } else if name == "graph"@ {
        match message.guild_id {
            Some(guild_id) => Ok(Command::Graph { guild_id }),
            None => Err(Error::MissingGuildContext),
        }
    } else if name == "stats"@ {
        Ok(Command::Stats)
    } else if name == "dump"@ {
        if !owners.contains(message.author.id) {
            Ok(Command::Nothing)
        } else if arguments.len() == 0 {
            Ok(Command::ListGuilds)
        } else {
            match parsed_number(arguments[0]) {
                Some(guild_id) => Ok(Command::Dump { guild_id }),
                None => Err(Error::NotFound),
            }
        }
    } else {
        Ok(Command::Nothing)
    }
}

/// What a message asks for: nothing to handle where a bot wrote it or where
/// it holds no command.
pub open spec fn handled(message: Message, self_id: u64, owners: Seq<u64>) -> Option<
    Result<Command, Error>,
> {
    if message.author.bot {
        None
    } else {
        match parsed_command(mention_prefixes(self_id), command_names(), false, message.content@) {
            Some((name, arguments)) => Some(selected(name, arguments, message, owners)),
            None => None,
        }
    }
}

/// Whether `name` is the word `word`.
fn is_word(name: &String, word: &str) -> (same: bool)
    ensures
        same == (name@ == word@),
{
    *name == word.to_owned()
}

/// The two ways in which a message mentions the user `self_id` first.
pub fn prefixes_for(self_id: u64) -> (prefixes: Vec<String>)
    ensures
        views(prefixes@) == mention_prefixes(self_id),
{
    let mut plain = String::new();
    plain.append("<@");
    push_decimal(&mut plain, self_id);
    plain.append("> ");
    let mut nick = String::new();
    nick.append("<@!");
    push_decimal(&mut nick, self_id);
    nick.append("> ");
    let mut prefixes: Vec<String> = Vec::new();
    prefixes.push(plain);
    prefixes.push(nick);
    assert(views(prefixes@) =~= mention_prefixes(self_id));
    prefixes
}

/// The names of the commands.
pub fn names() -> (names: Vec<String>)
    ensures
        views(names@) == command_names(),
{
    let mut names: Vec<String> = Vec::new();
    names.push("help".to_owned());
    names.push("invite".to_owned());
    names.push("graph".to_owned());
    names.push("stats".to_owned());
    names.push("dump".to_owned());
    assert(views(names@) =~= command_names());
    names
}

/// What the command `name` with `arguments` asks for.  Everyone may ask
/// for help, a graph or the statistics; a dump is for the owners, and is
/// passed over in silence for anyone else.
pub fn select(name: &String, arguments: &Vec<String>, message: &Message, owners: &Vec<u64>) -> (command:
    Result<Command, Error>)
    ensures
        command == selected(name@, views(arguments@), *message, owners@),
{
    if is_word(name, "help") || is_word(name, "invite") {
        Ok(Command::Help)
    } else if is_word(name, "graph") {
        match message.guild_id {
            Some(guild_id) => Ok(Command::Graph { guild_id }),
            None => Err(Error::MissingGuildContext),
        }
    } else if is_word(name, "stats") {
        Ok(Command::Stats)
    } else if is_word(name, "dump") {
        if !contains_id(owners, message.author.id) {
            Ok(Command::Nothing)
        } else if arguments.len() == 0 {
            Ok(Command::ListGuilds)
        } else {
            assert(views(arguments@)[0] == arguments@[0]@);
            match parse_number(arguments[0].as_str()) {
                Some(guild_id) => Ok(Command::Dump { guild_id }),
                None => Err(Error::NotFound),
            }
        }
    } else {
        Ok(Command::Nothing)
    }
}

/// What a message asks the bot `self_id` to do: nothing to handle where a
/// bot wrote it or where it does not begin with a mention of the bot and a
/// command; else the command, or the error that is to be answered with
/// `FAILURE_REPLY`.
pub fn handle_message(message: &Message, self_id: u64, owners: &Vec<u64>) -> (outcome: Option<
    Result<Command, Error>,
>)
    ensures
        outcome == handled(*message, self_id, owners@),
{
    if message.author.bot {
        return None;
    }
    let prefixes = prefixes_for(self_id);
    let commands = names();
    match parse_command(&prefixes, &commands, false, message.content.as_str()) {
        Some((name, arguments)) => Some(select(&name, &arguments, message, owners)),
        None => None,
    }
}

/// What an event asks the bot `self_id` to do: what its message asks for
/// where it is a new message, and nothing to handle else.
pub fn handle_event(event: &Event, self_id: u64, owners: &Vec<u64>) -> (outcome: Option<
    Result<Command, Error>,
>)
    ensures
        outcome == match *event {
            Event::MessageCreate(message) => handled(message, self_id, owners@),
            _ => None,
        },
{
    match event {
        Event::MessageCreate(message) => handle_message(message, self_id, owners),
        _ => None,
    }
}

/// What a run of the renderer comes to: the picture that it wrote where it
/// ended well, an error where it did not.
pub fn render_outcome(succeeded: bool, output: Vec<u8>) -> (result: Result<Vec<u8>, Error>)
    ensures
        result == if succeeded {
            Ok::<Vec<u8>, Error>(output)
        } else {
            Err::<Vec<u8>, Error>(Error::RenderError)
        },
{
    if succeeded {
        Ok(output)
    } else {
        Err(Error::RenderError)
    }
}

/// The parts of the answer to a call for help.
#[derive(Clone, Debug, PartialEq, Eq)]
pub struct HelpReply {
    pub description: String,
    pub commands: String,
    pub invite_url: String,
    pub invitation: String,
    pub footer: String,
}

/// What the bot says of itself.
pub open spec fn help_description(bot_name: Seq<char>) -> Seq<char> {
    "I'm a Discord Bot that infers relationships between users and draws pretty graphs.\nI'll only respond to messages that directly mention me, like `@"@
        + bot_name + " help`."@
}

/// The list of commands in the answer to a call for help.
pub open spec fn help_commands() -> Seq<char> {
    "` help  `\u{2000}This message.\n` graph `\u{2000}Get a preview-quality graph image."@
}

/// Where to invite the bot `bot_id` from.
pub open spec fn invite_url(bot_id: u64) -> Seq<char> {
    "https://discord.com/api/oauth2/authorize?client_id="@ + decimal(bot_id as nat)
        + "&permissions=117824&scope=bot"@
}

/// The invitation in the answer to a call for help.
pub open spec fn invitation(bot_id: u64) -> Seq<char> {
    "[Click here]("@ + invite_url(bot_id) + ") to invite the bot to join your server."@
}

/// The last line of the answer to a call for help by `author`.
pub open spec fn help_footer(author: User) -> Seq<char> {
    "Sent in response to a command from "@ + author.name@ + "#"@ + crate::text::decimal4(
        author.discriminator as nat,
    )
}

/// The answer to a call for help by `author`, for the bot `bot_id` that is
/// called `bot_name`.
pub fn help_reply(bot_name: &str, bot_id: u64, author: &User) -> (reply: HelpReply)
    ensures
        reply.description@ == help_description(bot_name@),
        reply.commands@ == help_commands(),
        reply.invite_url@ == invite_url(bot_id),
        reply.invitation@ == invitation(bot_id),
        reply.footer@ == help_footer(*author),
{
    let mut description = String::new();
    description.append(
        "I'm a Discord Bot that infers relationships between users and draws pretty graphs.\nI'll only respond to messages that directly mention me, like `@",
    );
    description.append(bot_name);
    description.append(" help`.");
    assert(description@ =~= help_description(bot_name@));

    let commands =
        "` help  `\u{2000}This message.\n` graph `\u{2000}Get a preview-quality graph image.".to_owned();

    let mut invite_url = String::new();
    invite_url.append("https://discord.com/api/oauth2/authorize?client_id=");
    push_decimal(&mut invite_url, bot_id);
    invite_url.append("&permissions=117824&scope=bot");
    assert(invite_url@ =~= self::invite_url(bot_id));

    let mut invitation = String::new();
    invitation.append("[Click here](");
    invitation.append(invite_url.as_str());
    invitation.append(") to invite the bot to join your server.");
    assert(invitation@ =~= self::invitation(bot_id));

    let mut footer = String::new();
    footer.append("Sent in response to a command from ");
    footer.append(author.name.as_str());
    footer.append("#");
    crate::text::push_decimal4(&mut footer, author.discriminator);
    assert(footer@ =~= help_footer(*author));

    HelpReply { description, commands, invite_url, invitation, footer }
}

/// One line of the list of guilds: the id and the name.
pub open spec fn guild_line(guild: CachedGuild) -> Seq<char> {
    decimal(guild.id as nat) + " - "@ + guild.name@
}

/// The lines of the list of guilds.
pub open spec fn guild_lines(guilds: Seq<CachedGuild>) -> Seq<Seq<char>> {
    guilds.map_values(|guild: CachedGuild| guild_line(guild))
}

/// The list of guilds: a heading, then a line for each guild.
pub open spec fn guild_list(guilds: Seq<CachedGuild>) -> Seq<char> {
    "Guilds:\n"@ + joined(guild_lines(guilds), "\n"@)
}

/// The list of `guilds` as it is answered to an owner who asks for a dump
/// without naming a guild.
pub fn guild_listing(guilds: &Vec<CachedGuild>) -> (text: String)
    ensures
        text@ == guild_list(guilds@),
{
    let mut lines: Vec<String> = Vec::new();
    let mut i: usize = 0;
    while i < guilds.len()
        invariant
            i <= guilds.len(),
            lines@.len() == i,
            views(lines@) == guild_lines(guilds@).take(i as int),
        decreases guilds.len() - i,
    {
        let ghost before = lines@;
        let mut line = String::new();
        push_decimal(&mut line, guilds[i].id);
        line.append(" - ");
        line.append(guilds[i].name.as_str());
        assert(line@ =~= guild_line(guilds@[i as int]));
        lines.push(line);
        i = i + 1;
        proof {
            let expected = guild_lines(guilds@).take(i as int);
            assert forall|j: int| 0 <= j < i implies views(lines@)[j] == expected[j] by {
                if j < i - 1 {
                    assert(lines@[j] == before[j]);
                    assert(views(before)[j] == before[j]@);
                }
            }
            assert(views(lines@) =~= expected);
        }
    }
    assert(guild_lines(guilds@).take(guilds.len() as int) =~= guild_lines(guilds@));
    let mut text = String::new();
    text.append("Guilds:\n");
    push_joined(&mut text, &lines, "\n");
    text
}

} // verus!
