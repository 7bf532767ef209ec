use social_graph::cache::{Cache, CachedGuild};
use social_graph::commands::{
    guild_listing, handle_event, handle_message, help_reply, names, prefixes_for, render_outcome,
    select, Command, FAILURE_REPLY,
};
use social_graph::model::{Event, Message, MessageKind, User};
use social_graph::social::SocialGraph;
use social_graph::text::parse_number;
use social_graph::Error;

const BOT: u64 = 999;
const OWNER: u64 = 1;

fn message(author: u64, content: &str) -> Message {
    Message {
        id: 100,
        channel_id: 600,
        guild_id: Some(500),
        author: User {
            id: author,
            name: "alice".to_string(),
            discriminator: 7,
            avatar: None,
            bot: false,
        },
        member: None,
        mentions: vec![],
        kind: MessageKind::Regular,
        reference: None,
        webhook_id: None,
        content: content.to_string(),
    }
}

fn outcome(author: u64, content: &str) -> Option<Result<Command, Error>> {
    handle_message(&message(author, content), BOT, &vec![OWNER])
}

#[test]
fn commands_need_a_mention_first() {
    assert_eq!(outcome(2, "help"), None);
    assert_eq!(outcome(2, "hello <@999> help"), None);
    assert_eq!(outcome(2, "<@998> help"), None);
    assert_eq!(outcome(2, "<@999> dance"), None);
    assert_eq!(outcome(2, ""), None);
    assert_eq!(outcome(2, "<@999> help"), Some(Ok(Command::Help)));
    assert_eq!(outcome(2, "<@!999> help"), Some(Ok(Command::Help)));
}

#[test]
fn everyone_may_ask_for_help_graph_and_stats() {
    assert_eq!(outcome(2, "<@999> help"), Some(Ok(Command::Help)));
    assert_eq!(outcome(2, "<@999> invite"), Some(Ok(Command::Help)));
    assert_eq!(outcome(2, "<@999> HELP"), Some(Ok(Command::Help)));
    assert_eq!(outcome(2, "<@999> graph"), Some(Ok(Command::Graph { guild_id: 500 })));
    assert_eq!(outcome(2, "<@999> stats"), Some(Ok(Command::Stats)));
}

#[test]
fn bots_are_not_answered() {
    let mut by_bot = message(2, "<@999> help");
    by_bot.author.bot = true;
    assert_eq!(handle_message(&by_bot, BOT, &vec![OWNER]), None);
}

#[test]
fn graph_needs_a_guild() {
    let mut direct = message(2, "<@999> graph");
    direct.guild_id = None;
    assert_eq!(handle_message(&direct, BOT, &vec![OWNER]), Some(Err(Error::MissingGuildContext)));
}

#[test]
fn dump_is_for_owners() {
    assert_eq!(outcome(2, "<@999> dump"), Some(Ok(Command::Nothing)));
    assert_eq!(outcome(2, "<@999> dump 500"), Some(Ok(Command::Nothing)));
    assert_eq!(outcome(OWNER, "<@999> dump"), Some(Ok(Command::ListGuilds)));
    assert_eq!(outcome(OWNER, "<@999> dump 500"), Some(Ok(Command::Dump { guild_id: 500 })));
    assert_eq!(outcome(OWNER, "<@999> dump 500 600"), Some(Ok(Command::Dump { guild_id: 500 })));
    assert_eq!(outcome(OWNER, "<@999> dump five"), Some(Err(Error::NotFound)));
    assert_eq!(outcome(OWNER, "<@999> dump -5"), Some(Err(Error::NotFound)));
}

#[test]
fn select_takes_the_parsed_command() {
    let asked = message(OWNER, "");
    let owners = vec![OWNER];
    let no_arguments: Vec<String> = vec![];
    assert_eq!(select(&"help".to_string(), &no_arguments, &asked, &owners), Ok(Command::Help));
    assert_eq!(select(&"invite".to_string(), &no_arguments, &asked, &owners), Ok(Command::Help));
    assert_eq!(select(&"stats".to_string(), &no_arguments, &asked, &owners), Ok(Command::Stats));
    assert_eq!(select(&"other".to_string(), &no_arguments, &asked, &owners), Ok(Command::Nothing));
    assert_eq!(
        select(&"dump".to_string(), &vec!["18446744073709551615".to_string()], &asked, &owners),
        Ok(Command::Dump { guild_id: u64::MAX })
    );
    assert_eq!(
        select(&"dump".to_string(), &vec!["18446744073709551616".to_string()], &asked, &owners),
        Err(Error::NotFound)
    );
    assert_eq!(select(&"dump".to_string(), &no_arguments, &asked, &vec![]), Ok(Command::Nothing));
}

#[test]
fn prefixes_and_names_are_what_the_parser_gets() {
    assert_eq!(prefixes_for(999), vec!["<@999> ".to_string(), "<@!999> ".to_string()]);
    assert_eq!(names(), vec!["help", "invite", "graph", "stats", "dump"]);
}

#[test]
fn numbers_are_parsed_as_the_standard_library_does() {
    for text in [
        "0", "7", "007", "+7", "42", "18446744073709551615", "18446744073709551616", "", "+", "-1",
        "1 ", " 1", "1_000", "12a", "a12", "++1", "1+", "９", "99999999999999999999999",
    ] {
        assert_eq!(parse_number(text), text.parse::<u64>().ok(), "{:?}", text);
    }
}

#[test]
fn help_is_put_in_words() {
    let author =
        User { id: 2, name: "alice".to_string(), discriminator: 7, avatar: None, bot: false };
    let reply = help_reply("Grapher", 999, &author);
    assert_eq!(
        reply.description,
        "I'm a Discord Bot that infers relationships between users and draws pretty graphs.\nI'll only respond to messages that directly mention me, like `@Grapher help`."
    );
    assert_eq!(
        reply.commands,
        "` help  `\u{2000}This message.\n` graph `\u{2000}Get a preview-quality graph image."
    );
    assert_eq!(
        reply.invite_url,
        "https://discord.com/api/oauth2/authorize?client_id=999&permissions=117824&scope=bot"
    );
    assert_eq!(
        reply.invitation,
        "[Click here](https://discord.com/api/oauth2/authorize?client_id=999&permissions=117824&scope=bot) to invite the bot to join your server."
    );
    assert_eq!(reply.footer, "Sent in response to a command from alice#0007");
}

#[test]
fn guilds_are_listed_by_id_and_name() {
    let guild = |id: u64, name: &str| CachedGuild {
        id,
        name: name.to_string(),
        icon: None,
        roles: vec![],
        owner_id: 9,
    };
    assert_eq!(guild_listing(&vec![]), "Guilds:\n");
    assert_eq!(guild_listing(&vec![guild(500, "First")]), "Guilds:\n500 - First");
    assert_eq!(
        guild_listing(&vec![guild(500, "First"), guild(501, "Second")]),
        "Guilds:\n500 - First\n501 - Second"
    );
}

#[test]
fn stats_are_put_in_words() {
    let mut cache = Cache::new();
    assert_eq!(
        cache.get_stats().describe(),
        "CacheStats { users: 0, guilds: 0, roles: 0, members: 0, channels: 0, messages: 0 }"
    );
    assert_eq!(cache.get_stats().describe(), format!("{:?}", cache.get_stats()));
    cache.put_user(&User {
        id: 2,
        name: "alice".to_string(),
        discriminator: 7,
        avatar: None,
        bot: false,
    });
    assert_eq!(cache.get_stats().describe(), format!("{:?}", cache.get_stats()));
}

#[test]
fn failure_is_answered_in_general_terms() {
    assert_eq!(FAILURE_REPLY, "Sorry, there was an error handling that command");
}

#[test]
fn renderer_failure_is_a_render_error() {
    assert_eq!(render_outcome(true, vec![1, 2, 3]), Ok(vec![1, 2, 3]));
    assert_eq!(render_outcome(false, vec![1, 2, 3]), Err(Error::RenderError));
}

#[test]
fn only_new_messages_hold_commands() {
    let asked = message(2, "<@999> stats");
    let owners = vec![OWNER];
    assert_eq!(
        handle_event(&Event::MessageCreate(asked), BOT, &owners),
        Some(Ok(Command::Stats))
    );
    assert_eq!(handle_event(&Event::GuildDelete { id: 500 }, BOT, &owners), None);
    assert_eq!(handle_event(&Event::Other, BOT, &owners), None);
}

#[test]
fn errors_have_their_words() {
    assert_eq!(Error::NotFound.message(), "entity not found");
    assert_eq!(Error::RemoteError.message(), "remote call failed");
    assert_eq!(Error::MissingGuildContext.message(), "event has no guild context");
    assert_eq!(Error::RenderError.message(), "graph rendering failed");
    assert_eq!(Error::PersistenceError.message(), "persistence sink failed");
}

#[test]
fn dump_of_an_unknown_guild_fails_and_makes_no_graph() {
    let mut social = SocialGraph::new();
    social.ensure_graph(500, 600);
    let asked = outcome(OWNER, "<@999> dump 777");
    assert_eq!(asked, Some(Ok(Command::Dump { guild_id: 777 })));
    assert_eq!(social.build_guild_graph(777).err(), Some(Error::NotFound));
    assert_eq!(social.get_all_guild_ids(), vec![500]);
}
