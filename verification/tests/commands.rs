use rss_chat::actor::{MessageOrigin, ServerStateMessage};
use rss_chat::commands::{
    created_reply, failure_reply, list_reply, parse_commands, react_to_message, removed_reply,
    response_reply, BotRequest, MessageCommand, MessageParseError, Reaction, Reply, HELP_MESSAGE,
    SYSTEM,
};
use rss_chat::socket::UserMessage;

fn from(sender: &str, body: &str) -> UserMessage {
    UserMessage {
        send_time: 1_700_000_000_000,
        sender: sender.to_string(),
        message: body.to_string(),
        reply_to: None,
        id: 0,
    }
}

fn query(bot: Option<&str>, text: &str) -> Option<Result<MessageCommand, MessageParseError>> {
    Some(Ok(MessageCommand::AIQuery { bot: bot.map(|b| b.to_string()), query: text.to_string() }))
}

fn invalid() -> Option<Result<MessageCommand, MessageParseError>> {
    Some(Err(MessageParseError::InvalidCommand))
}

#[test]
fn help_is_recognised() {
    assert_eq!(parse_commands("%help"), Some(Ok(MessageCommand::Help)));
    assert_eq!(parse_commands("%help me please"), Some(Ok(MessageCommand::Help)));
    assert_eq!(parse_commands("%  help"), Some(Ok(MessageCommand::Help)));
}

#[test]
fn plain_chat_is_no_command() {
    assert_eq!(parse_commands("hello %help"), None);
    assert_eq!(parse_commands(""), None);
    assert_eq!(parse_commands(" %help"), None);
    assert_eq!(parse_commands("100% sure"), None);
}

#[test]
fn unknown_command_is_an_error() {
    assert_eq!(parse_commands("%bogus"), invalid());
    assert_eq!(parse_commands("%helpme"), invalid());
    assert_eq!(parse_commands("%AI hello"), invalid());
}

#[test]
fn sigil_alone_is_an_error() {
    assert_eq!(parse_commands("%"), invalid());
    assert_eq!(parse_commands("%   "), invalid());
    assert_eq!(parse_commands("%\t\n"), invalid());
}

#[test]
fn ai_takes_the_rest_as_the_query() {
    assert_eq!(parse_commands("%ai what time is it"), query(None, "what time is it"));
    assert_eq!(parse_commands("%ai  two spaces"), query(None, " two spaces"));
    assert_eq!(parse_commands("%ai trailing  "), query(None, "trailing  "));
}

#[test]
fn ai_without_text_is_an_error() {
    assert_eq!(parse_commands("%ai"), invalid());
    assert_eq!(parse_commands("%ai "), invalid());
    assert_eq!(parse_commands("%ai \t\n"), invalid());
    assert_eq!(parse_commands("% ai"), invalid());
    assert_eq!(parse_commands("%ai x"), query(None, "x"));
}

#[test]
fn ai_after_a_wide_space_keeps_whole_characters() {
    assert_eq!(parse_commands("%ai\u{3000}h\u{e9}llo"), query(None, "h\u{e9}llo"));
    assert_eq!(parse_commands("%ai\u{a0}x"), query(None, "x"));
}

#[test]
fn ask_names_the_bot() {
    assert_eq!(
        parse_commands("%ask greg how are you"),
        query(Some("greg"), "how are you")
    );
    assert_eq!(
        parse_commands("%ask   greg    how   are you "),
        query(Some("greg"), "how   are you ")
    );
    assert_eq!(parse_commands("%ask gr\u{e9}g \u{e7}a va"), query(Some("gr\u{e9}g"), "\u{e7}a va"));
}

#[test]
fn ask_needs_two_words_after_the_bot() {
    assert_eq!(parse_commands("%ask"), invalid());
    assert_eq!(parse_commands("%ask greg"), invalid());
    assert_eq!(parse_commands("%ask greg hello"), invalid());
    assert_eq!(parse_commands("%ask greg hello there"), query(Some("greg"), "hello there"));
}

#[test]
fn newbot_with_a_language() {
    assert_eq!(
        parse_commands("%newbot pierre lang=fr speak like a poet"),
        Some(Ok(MessageCommand::AICreate {
            name: "pierre".to_string(),
            lang: Some("fr".to_string()),
            config: "speak like a poet".to_string(),
        }))
    );
    assert_eq!(
        parse_commands("%newbot pierre lang= poet"),
        Some(Ok(MessageCommand::AICreate {
            name: "pierre".to_string(),
            lang: Some(String::new()),
            config: "poet".to_string(),
        }))
    );
}

#[test]
fn newbot_without_a_language() {
    assert_eq!(
        parse_commands("%newbot bob be very kind"),
        Some(Ok(MessageCommand::AICreate {
            name: "bob".to_string(),
            lang: None,
            config: "be very kind".to_string(),
        }))
    );
    assert_eq!(
        parse_commands("%newbot bob language=en first"),
        Some(Ok(MessageCommand::AICreate {
            name: "bob".to_string(),
            lang: None,
            config: "language=en first".to_string(),
        }))
    );
}

#[test]
fn newbot_needs_two_words_after_the_name() {
    assert_eq!(parse_commands("%newbot"), invalid());
    assert_eq!(parse_commands("%newbot bob"), invalid());
    assert_eq!(parse_commands("%newbot bob kind"), invalid());
    assert_eq!(parse_commands("%newbot bob lang=en"), invalid());
}

#[test]
fn listbots_is_recognised() {
    assert_eq!(parse_commands("%listbots"), Some(Ok(MessageCommand::AIList)));
    assert_eq!(parse_commands("%listbots now"), Some(Ok(MessageCommand::AIList)));
}

#[test]
fn removebot_takes_the_rest_as_the_name() {
    assert_eq!(
        parse_commands("%removebot foo"),
        Some(Ok(MessageCommand::AIRemove { bot: "foo".to_string() }))
    );
    assert_eq!(
        parse_commands("%removebot two words"),
        Some(Ok(MessageCommand::AIRemove { bot: "two words".to_string() }))
    );
}

#[test]
fn removebot_without_a_name_is_an_error() {
    assert_eq!(parse_commands("%removebot"), invalid());
    assert_eq!(parse_commands("%removebot "), invalid());
    assert_eq!(parse_commands("%removebot   \n"), invalid());
}

#[test]
fn a_command_without_its_argument_is_answered_with_the_error() {
    for body in ["%removebot", "%ai", "%ask", "%newbot"] {
        assert_eq!(
            react_to_message(&from("alice", body)),
            Reaction::Answer(Reply {
                sender: "System".to_string(),
                text: "Invalid command:\nInvalid command or command syntax entered".to_string(),
            })
        );
    }
}

#[test]
fn the_error_has_its_text() {
    assert_eq!(
        MessageParseError::InvalidCommand.to_string(),
        "Invalid command or command syntax entered"
    );
}

#[test]
fn plain_chat_calls_for_nothing() {
    assert_eq!(react_to_message(&from("alice", "hello")), Reaction::Ignore);
}

#[test]
fn help_is_answered_by_the_system() {
    assert_eq!(
        react_to_message(&from("alice", "%help")),
        Reaction::Answer(Reply { sender: "System".to_string(), text: HELP_MESSAGE.to_string() })
    );
    assert!(HELP_MESSAGE.starts_with("Valid commands:\n- %ai <message>"));
    assert!(HELP_MESSAGE.ends_with("- %help - show this message"));
    assert_eq!(SYSTEM, "System");
}

#[test]
fn ai_query_goes_to_the_default_bot() {
    assert_eq!(
        react_to_message(&from("alice", "%ai what time is it")),
        Reaction::Ask(BotRequest::Respond {
            query: "what time is it".to_string(),
            requester: "alice".to_string(),
            bot: None,
        })
    );
}

#[test]
fn ask_goes_to_the_named_bot() {
    assert_eq!(
        react_to_message(&from("bob", "%ask greg tell me more")),
        Reaction::Ask(BotRequest::Respond {
            query: "tell me more".to_string(),
            requester: "bob".to_string(),
            bot: Some("greg".to_string()),
        })
    );
}

#[test]
fn newbot_is_owned_by_the_sender() {
    assert_eq!(
        react_to_message(&from("carol", "%newbot pierre lang=fr be brief")),
        Reaction::Ask(BotRequest::Add {
            name: "pierre".to_string(),
            owner: "carol".to_string(),
            config: "be brief".to_string(),
            lang: Some("fr".to_string()),
        })
    );
}

#[test]
fn listbots_asks_for_the_list() {
    assert_eq!(react_to_message(&from("alice", "%listbots")), Reaction::Ask(BotRequest::List));
}

#[test]
fn removebot_denied_says_no_such_bot() {
    assert_eq!(
        react_to_message(&from("mallory", "%removebot foo")),
        Reaction::Ask(BotRequest::Remove { name: "foo".to_string() })
    );
    assert_eq!(
        removed_reply(false),
        Reply { sender: "System".to_string(), text: "No such bot exists".to_string() }
    );
    assert_eq!(
        removed_reply(true),
        Reply { sender: "System".to_string(), text: "Bot removed".to_string() }
    );
}

#[test]
fn bogus_command_is_answered_with_the_error() {
    assert_eq!(
        react_to_message(&from("alice", "%bogus")),
        Reaction::Answer(Reply {
            sender: "System".to_string(),
            text: "Invalid command:\nInvalid command or command syntax entered".to_string(),
        })
    );
}

#[test]
fn a_bot_answers_in_its_own_name() {
    assert_eq!(
        response_reply("greg", "It is noon.".to_string()),
        Reply { sender: "greg (Bot)".to_string(), text: "It is noon.".to_string() }
    );
}

#[test]
fn a_failure_is_told_by_the_system() {
    assert_eq!(
        failure_reply("rate limited"),
        Reply {
            sender: "System".to_string(),
            text: "Bot could not respond:\nrate limited".to_string(),
        }
    );
}

#[test]
fn the_list_has_one_line_for_each_bot() {
    assert_eq!(
        list_reply(&vec!["greg".to_string(), "pierre".to_string()]),
        Reply { sender: "System".to_string(), text: "Bots online:\n- greg\n- pierre".to_string() }
    );
    assert_eq!(
        list_reply(&vec!["greg".to_string()]),
        Reply { sender: "System".to_string(), text: "Bots online:\n- greg".to_string() }
    );
    assert_eq!(
        list_reply(&Vec::new()),
        Reply { sender: "System".to_string(), text: "Bots online:\n".to_string() }
    );
}

#[test]
fn a_new_bot_is_confirmed() {
    assert_eq!(
        created_reply("pierre"),
        Reply { sender: "System".to_string(), text: "Bot pierre created".to_string() }
    );
}

#[test]
fn a_reply_enters_the_chat_as_the_servers_own() {
    let request = removed_reply(true).into_request(42);
    assert_eq!(
        request,
        ServerStateMessage::NewMessage {
            message: UserMessage {
                send_time: 42,
                sender: "System".to_string(),
                message: "Bot removed".to_string(),
                reply_to: None,
                id: 0,
            },
            origin: MessageOrigin::Synthetic,
        }
    );
}
