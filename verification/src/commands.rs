//! The in-band command grammar: message bodies that start with `%`.

use vstd::prelude::*;
use vstd::string::StringExecFns;
use crate::actor::{MessageOrigin, ServerStateMessage, ServerStateMessageView};
use crate::names::names_of;
use crate::socket::{view_of, UserMessage, UserMessageView};
use crate::text::{
    chars_of, drop_separator, first_word, lemma_scan_suffix, next_word, range_equals,
    skip_whitespace, skip_whitespace_from, skip_word, skip_word_from, starts_with, string_of_range,
};

verus! {

/// A command recognised in a message body.
#[derive(Debug, PartialEq, Eq)]
#[allow(inconsistent_fields)]
pub enum MessageCommand {
    /// Ask a bot; `bot` is `None` for the default bot.
    AIQuery { bot: Option<String>, query: String },
    /// Register a bot owned by the requester.
    AICreate { name: String, lang: Option<String>, config: String },
    /// Remove a bot by name.
    AIRemove { bot: String },
    /// List the bots.
    AIList,
    /// Show the usage text.
    Help,
}

/// The mathematical value of a `MessageCommand`.
#[allow(inconsistent_fields)]
pub enum MessageCommandView {
    AIQuery { bot: Option<Seq<char>>, query: Seq<char> },
    AICreate { name: Seq<char>, lang: Option<Seq<char>>, config: Seq<char> },
    AIRemove { bot: Seq<char> },
    AIList,
    Help,
}

impl View for MessageCommand {
    type V = MessageCommandView;

    open spec fn view(&self) -> MessageCommandView {
        match *self {
            MessageCommand::AIQuery { bot, query } => MessageCommandView::AIQuery {
                bot: view_of(bot),
                query: query@,
            },
            MessageCommand::AICreate { name, lang, config } => MessageCommandView::AICreate {
                name: name@,
                lang: view_of(lang),
                config: config@,
            },
            MessageCommand::AIRemove { bot } => MessageCommandView::AIRemove { bot: bot@ },
            MessageCommand::AIList => MessageCommandView::AIList,
            MessageCommand::Help => MessageCommandView::Help,
        }
    }
}

/// Why a message that starts with `%` is no command.
#[derive(Debug, Clone, Copy, PartialEq, Eq, Structural)]
pub enum MessageParseError {
    /// The command word is unknown, or its arguments are too few.
    InvalidCommand,
}

/// The text shown to the user for an error.
pub open spec fn error_text(error: MessageParseError) -> Seq<char> {
    match error {
        MessageParseError::InvalidCommand => "Invalid command or command syntax entered"@,
    }
}

impl MessageParseError {
    /// The text shown to the user for this error.
    pub fn to_string(&self) -> (s: String)
        ensures
            s@ == error_text(*self),
    {
        "Invalid command or command syntax entered".to_owned()
    }
}

/// The mathematical value of the result of parsing a command.
pub open spec fn result_view(r: Result<MessageCommand, MessageParseError>) -> Result<
    MessageCommandView,
    MessageParseError,
> {
    match r {
        Ok(c) => Ok(c@),
        Err(e) => Err(e),
    }
}

/// The mathematical value of the result of `parse_commands`.
pub open spec fn outcome_view(o: Option<Result<MessageCommand, MessageParseError>>) -> Option<
    Result<MessageCommandView, MessageParseError>,
> {
    match o {
        Some(r) => Some(result_view(r)),
        None => None,
    }
}

/// `word` without the prefix `prefix`, if it begins with it.
pub open spec fn strip_prefix(word: Seq<char>, prefix: Seq<char>) -> Option<Seq<char>> {
    if starts_with(word, prefix) {
        Some(word.skip(prefix.len() as int))
    } else {
        None
    }
}

/// What a message body means as a command.
///
/// A body that does not start with `%` is plain chat: `None`. Otherwise the
/// text after the `%` is read as words separated by whitespace, and the first
/// word chooses the command:
///
/// - `ai`, with at least one word after it: the query is what follows the
///   command word and one separating character;
/// - `ask`, with at least two words after the bot's name: the second word names
///   the bot, the query runs from the third word to the end;
/// - `help`;
/// - `newbot`, with at least two words after the name: the second word is the
///   name; if the third word starts with `lang=`, the rest of that word is the
///   language and the instructions run from the fourth word to the end,
///   otherwise they run from the third word;
/// - `listbots`;
/// - `removebot`, with at least one word after it: the name is what follows
///   the command word and one separating character.
///
/// Anything else is an error: an unknown command word, and a command word
/// without the words that it needs.
pub open spec fn parsed(message: Seq<char>) -> Option<
    Result<MessageCommandView, MessageParseError>,
> {
    if message.len() == 0 || message[0] != '%' {
        None
    } else {
        let r0 = skip_whitespace(message.skip(1));
        let command = first_word(r0);
        let r1 = next_word(r0);
        let r2 = next_word(r1);
        let r3 = next_word(r2);
        let lang = strip_prefix(first_word(r2), "lang="@);
        Some(
            if r0.len() == 0 {
                Err(MessageParseError::InvalidCommand)
            } else if command == "ai"@ && r1.len() > 0 {
                Ok(
                    MessageCommandView::AIQuery {
                        bot: None,
                        query: drop_separator(skip_word(r0)),
                    },
                )
            } else if command == "ask"@ && r3.len() > 0 {
                Ok(MessageCommandView::AIQuery { bot: Some(first_word(r1)), query: r2 })
            } else if command == "help"@ {
                Ok(MessageCommandView::Help)
            } else if command == "newbot"@ && r3.len() > 0 {
                Ok(
                    MessageCommandView::AICreate {
                        name: first_word(r1),
                        lang,
                        config: if lang is Some {
                            r3
                        } else {
                            r2
                        },
                    },
                )
            } else if command == "listbots"@ {
                Ok(MessageCommandView::AIList)
            } else if command == "removebot"@ && r1.len() > 0 {
                Ok(MessageCommandView::AIRemove { bot: drop_separator(skip_word(r0)) })
            } else {
                Err(MessageParseError::InvalidCommand)
            },
        )
    }
}

/// The text of `v` after position `end` and one separating character.
fn after_separator(v: &Vec<char>, end: usize) -> (s: String)
    requires
        end <= v.len(),
    ensures
        s@ == drop_separator(v@.skip(end as int)),
{
    let from: usize = if end < v.len() {
        end + 1
    } else {
        end
    };
    let s = string_of_range(v, from, v.len());
    assert(v@.subrange(from as int, v.len() as int) =~= drop_separator(v@.skip(end as int)));
    s
}

/// Reads a message body as a command.
///
/// Returns `None` for plain chat, the command for a well-formed one, and
/// `InvalidCommand` for any other body that starts with `%`.
pub fn parse_commands(message: &str) -> (r: Option<Result<MessageCommand, MessageParseError>>)
    ensures
        outcome_view(r) == parsed(message@),
{
    let v = chars_of(message);
    if v.len() == 0 || v[0] != '%' {
        return None;
    }
    let n = v.len();
    let from0 = skip_whitespace_from(&v, 1);
    let to0 = skip_word_from(&v, from0);
    let from1 = skip_whitespace_from(&v, to0);
    let to1 = skip_word_from(&v, from1);
    let from2 = skip_whitespace_from(&v, to1);
    let to2 = skip_word_from(&v, from2);
    let from3 = skip_whitespace_from(&v, to2);
    proof {
        lemma_scan_suffix(v@, 1);
        lemma_scan_suffix(v@, from0 as int);
        lemma_scan_suffix(v@, to0 as int);
        lemma_scan_suffix(v@, from1 as int);
        lemma_scan_suffix(v@, to1 as int);
        lemma_scan_suffix(v@, from2 as int);
        lemma_scan_suffix(v@, to2 as int);
        let r0 = skip_whitespace(v@.skip(1));
        assert(r0 == v@.skip(from0 as int));
        assert(first_word(r0) == v@.subrange(from0 as int, to0 as int));
        assert(skip_word(r0) == v@.skip(to0 as int));
        let r1 = next_word(r0);
        assert(r1 == v@.skip(from1 as int));
        assert(first_word(r1) == v@.subrange(from1 as int, to1 as int));
        let r2 = next_word(r1);
        assert(r2 == v@.skip(from2 as int));
        assert(first_word(r2) == v@.subrange(from2 as int, to2 as int));
        let r3 = next_word(r2);
        assert(r3 == v@.skip(from3 as int));
    }
    if from0 == n {
        return Some(Err(MessageParseError::InvalidCommand));
    }
    let argued = from1 < n;
    let enough = from3 < n;
    if range_equals(&v, from0, to0, &chars_of("ai")) && argued {
        let query = after_separator(&v, to0);
        Some(Ok(MessageCommand::AIQuery { bot: None, query }))
    } else if range_equals(&v, from0, to0, &chars_of("ask")) && enough {
        let bot = string_of_range(&v, from1, to1);
        let query = string_of_range(&v, from2, n);
        Some(Ok(MessageCommand::AIQuery { bot: Some(bot), query }))
    } else if range_equals(&v, from0, to0, &chars_of("help")) {
        Some(Ok(MessageCommand::Help))
    } else if range_equals(&v, from0, to0, &chars_of("newbot")) && enough {
        let name = string_of_range(&v, from1, to1);
        let prefix = chars_of("lang=");
        let k = prefix.len();
        if to2 - from2 >= k && range_equals(&v, from2, from2 + k, &prefix) {
            assert(v@.subrange(from2 as int, to2 as int).take(k as int) =~= v@.subrange(
                from2 as int,
                from2 + k,
            ));
            assert(v@.subrange(from2 as int, to2 as int).skip(k as int) =~= v@.subrange(
                from2 + k,
                to2 as int,
            ));
            let lang = string_of_range(&v, from2 + k, to2);
            let config = string_of_range(&v, from3, n);
            Some(Ok(MessageCommand::AICreate { name, lang: Some(lang), config }))
        } else {
            assert(to2 - from2 >= k ==> v@.subrange(from2 as int, to2 as int).take(k as int)
                =~= v@.subrange(from2 as int, from2 + k));
            let config = string_of_range(&v, from2, n);
            Some(Ok(MessageCommand::AICreate { name, lang: None, config }))
        }
    } else if range_equals(&v, from0, to0, &chars_of("listbots")) {
        Some(Ok(MessageCommand::AIList))
    } else if range_equals(&v, from0, to0, &chars_of("removebot")) && argued {
        let bot = after_separator(&v, to0);
        Some(Ok(MessageCommand::AIRemove { bot }))
    } else {
        Some(Err(MessageParseError::InvalidCommand))
    }
}

/// The usage text that `%help` shows.
pub const HELP_MESSAGE: &'static str = "Valid commands:
- %ai <message> - ask a question to the default bot (greg)
- %ask <bot> <message> - ask a question to a bot by name
- %newbot <name> [lang=<language>] <instructions> - create a new
bot that follows custom instructions
- %listbots - list bots by name
- %removebot <bot> - remove a bot (you can only remove a bot you created)
- %help - show this message";

/// The sender of the messages that the server writes itself.
pub const SYSTEM: &'static str = "System";

/// What the dispatcher asks of the bot service.
#[derive(Debug, PartialEq, Eq)]
#[allow(inconsistent_fields)]
pub enum BotRequest {
    /// Answer `query`, asked by `requester`, as the named bot or, for `None`,
    /// as the default bot.
    Respond { query: String, requester: String, bot: Option<String> },
    /// List the bots.
    List,
    /// Register a bot owned by `owner`.
    Add { name: String, owner: String, config: String, lang: Option<String> },
    /// Remove the bot named `name`, if the service lets the requester.
    Remove { name: String },
}

/// The mathematical value of a `BotRequest`.
#[allow(inconsistent_fields)]
pub enum BotRequestView {
    Respond { query: Seq<char>, requester: Seq<char>, bot: Option<Seq<char>> },
    List,
    Add { name: Seq<char>, owner: Seq<char>, config: Seq<char>, lang: Option<Seq<char>> },
    Remove { name: Seq<char> },
}

impl View for BotRequest {
    type V = BotRequestView;

    open spec fn view(&self) -> BotRequestView {
        match *self {
            BotRequest::Respond { query, requester, bot } => BotRequestView::Respond {
                query: query@,
                requester: requester@,
                bot: view_of(bot),
            },
            BotRequest::List => BotRequestView::List,
            BotRequest::Add { name, owner, config, lang } => BotRequestView::Add {
                name: name@,
                owner: owner@,
                config: config@,
                lang: view_of(lang),
            },
            BotRequest::Remove { name } => BotRequestView::Remove { name: name@ },
        }
    }
}

/// A message that the server writes: the answer to a command.
#[derive(Debug, PartialEq, Eq)]
pub struct Reply {
    pub sender: String,
    pub text: String,
}

/// The mathematical value of a `Reply`.
pub struct ReplyView {
    pub sender: Seq<char>,
    pub text: Seq<char>,
}

impl View for Reply {
    type V = ReplyView;

    open spec fn view(&self) -> ReplyView {
        ReplyView { sender: self.sender@, text: self.text@ }
    }
}

/// What a message calls for.
#[derive(Debug, PartialEq, Eq)]
pub enum Reaction {
    /// Plain chat: nothing.
    Ignore,
    /// An answer that needs no one else.
    Answer(Reply),
    /// A request to the bot service, whose answer becomes the reply.
    Ask(BotRequest),
}

/// The mathematical value of a `Reaction`.
pub enum ReactionView {
    Ignore,
    Answer(ReplyView),
    Ask(BotRequestView),
}

impl View for Reaction {
    type V = ReactionView;

    open spec fn view(&self) -> ReactionView {
        match *self {
            Reaction::Ignore => ReactionView::Ignore,
            Reaction::Answer(reply) => ReactionView::Answer(reply@),
            Reaction::Ask(request) => ReactionView::Ask(request@),
        }
    }
}

/// A reply in the server's own name.
pub open spec fn system_reply(text: Seq<char>) -> ReplyView {
    ReplyView { sender: SYSTEM@, text }
}

/// What a message from `sender` with the body `body` calls for: nothing for
/// plain chat, the usage text for `%help`, the error's text for a malformed
/// command, and for every other command the matching request to the bot
/// service, made in the sender's name.
pub open spec fn reaction(sender: Seq<char>, body: Seq<char>) -> ReactionView {
    match parsed(body) {
        None => ReactionView::Ignore,
        Some(Err(error)) => ReactionView::Answer(
            system_reply("Invalid command:\n"@ + error_text(error)),
        ),
        Some(Ok(MessageCommandView::Help)) => ReactionView::Answer(system_reply(HELP_MESSAGE@)),
        Some(Ok(MessageCommandView::AIQuery { bot, query })) => ReactionView::Ask(
            BotRequestView::Respond { query, requester: sender, bot },
        ),
        Some(Ok(MessageCommandView::AIList)) => ReactionView::Ask(BotRequestView::List),
        Some(Ok(MessageCommandView::AICreate { name, lang, config })) => ReactionView::Ask(
            BotRequestView::Add { name, owner: sender, config, lang },
        ),
        Some(Ok(MessageCommandView::AIRemove { bot })) => ReactionView::Ask(
            BotRequestView::Remove { name: bot },
        ),
    }
}

/// A reply in the server's own name.
fn reply_as_system(text: String) -> (reply: Reply)
    ensures
        reply@ == system_reply(text@),
{
    Reply { sender: SYSTEM.to_owned(), text }
}

/// Says what a message calls for. The message is read as a command; it is
/// the message as the client sent it, never one that the server wrote.
pub fn react_to_message(message: &UserMessage) -> (r: Reaction)
    ensures
        r@ == reaction(message@.sender, message@.message),
{
    match parse_commands(message.message.as_str()) {
        None => Reaction::Ignore,
        Some(Err(error)) => {
            let text = "Invalid command:\n".to_owned().concat(error.to_string().as_str());
            Reaction::Answer(reply_as_system(text))
        },
        Some(Ok(MessageCommand::Help)) => Reaction::Answer(
            reply_as_system(HELP_MESSAGE.to_owned()),
        ),
        Some(Ok(MessageCommand::AIQuery { bot, query })) => Reaction::Ask(
            BotRequest::Respond { query, requester: message.sender.clone(), bot },
        ),
        Some(Ok(MessageCommand::AIList)) => Reaction::Ask(BotRequest::List),
        Some(Ok(MessageCommand::AICreate { name, lang, config })) => Reaction::Ask(
            BotRequest::Add { name, owner: message.sender.clone(), config, lang },
        ),
        Some(Ok(MessageCommand::AIRemove { bot })) => Reaction::Ask(
            BotRequest::Remove { name: bot },
        ),
    }
}

/// The reply to a bot's answer: the answer, in the bot's name with ` (Bot)`
/// after it.
pub open spec fn response_reply_of(bot_name: Seq<char>, response: Seq<char>) -> ReplyView {
    ReplyView { sender: bot_name + " (Bot)"@, text: response }
}

/// The reply to a bot's answer.
pub fn response_reply(bot_name: &str, response: String) -> (reply: Reply)
    ensures
        reply@ == response_reply_of(bot_name@, response@),
{
    Reply { sender: bot_name.to_owned().concat(" (Bot)"), text: response }
}

/// The reply when the bot service failed: the error's text, in the server's
/// name.
pub open spec fn failure_reply_of(error: Seq<char>) -> ReplyView {
    system_reply("Bot could not respond:\n"@ + error)
}

/// The reply when the bot service failed with `error`.
pub fn failure_reply(error: &str) -> (reply: Reply)
    ensures
        reply@ == failure_reply_of(error@),
{
    reply_as_system("Bot could not respond:\n".to_owned().concat(error))
}

/// The names as a list, one line each, each after a dash and a space.
pub open spec fn bullet_list(names: Seq<Seq<char>>) -> Seq<char>
    decreases names.len(),
{
    if names.len() == 0 {
        Seq::empty()
    } else if names.len() == 1 {
        "- "@ + names[0]
    } else {
        bullet_list(names.drop_last()) + "\n"@ + "- "@ + names.last()
    }
}

/// The reply to `%listbots`: the names of the bots as a list.
pub open spec fn list_reply_of(names: Seq<Seq<char>>) -> ReplyView {
    system_reply("Bots online:\n"@ + bullet_list(names))
}

/// The reply to `%listbots`, given the names of the bots.
pub fn list_reply(names: &Vec<String>) -> (reply: Reply)
    ensures
        reply@ == list_reply_of(names_of(names@)),
{
    let mut list = String::new();
    let mut i: usize = 0;
    while i < names.len()
        invariant
            i <= names.len(),
            list@ == bullet_list(names_of(names@).take(i as int)),
        decreases names.len() - i,
    {
        proof {
            let all = names_of(names@);
            assert(all.take(i + 1).drop_last() =~= all.take(i as int));
            assert(all.take(i + 1).last() == names[i as int]@);
            assert(all.take(1)[0] == all[0]);
        }
        if i > 0 {
            list.append("\n");
        }
        list.append("- ");
        list.append(names[i].as_str());
        proof {
            if i == 0 {
                assert(Seq::<char>::empty() + "- "@ + names[0]@ =~= "- "@ + names[0]@);
            }
        }
        i += 1;
    }
    assert(names_of(names@).take(i as int) =~= names_of(names@));
    reply_as_system("Bots online:\n".to_owned().concat(list.as_str()))
}

/// The reply once a bot was registered.
pub open spec fn created_reply_of(name: Seq<char>) -> ReplyView {
    system_reply("Bot "@ + name + " created"@)
}

/// The reply once the bot `name` was registered.
pub fn created_reply(name: &str) -> (reply: Reply)
    ensures
        reply@ == created_reply_of(name@),
{
    reply_as_system("Bot ".to_owned().concat(name).concat(" created"))
}

/// The reply to `%removebot`: whether a bot was removed.
pub open spec fn removed_reply_of(removed: bool) -> ReplyView {
    system_reply(
        if removed {
            "Bot removed"@
        } else {
            "No such bot exists"@
        },
    )
}

/// The reply to `%removebot`, given whether the service removed a bot.
pub fn removed_reply(removed: bool) -> (reply: Reply)
    ensures
        reply@ == removed_reply_of(removed),
{
    if removed {
        reply_as_system("Bot removed".to_owned())
    } else {
        reply_as_system("No such bot exists".to_owned())
    }
}

impl Reply {
    /// The request that puts this reply into the chat, written at
    /// `send_time`. It is marked as the server's own, so that it is numbered,
    /// rendered and broadcast like any message but never read as a command.
    pub fn into_request(self, send_time: i64) -> (request: ServerStateMessage)
        ensures
            request@ == (ServerStateMessageView::NewMessage {
                message: UserMessageView {
                    send_time,
                    sender: self@.sender,
                    message: self@.text,
                    reply_to: None,
                    id: 0,
                },
                origin: MessageOrigin::Synthetic,
            }),
    {
        ServerStateMessage::NewMessage {
            message: UserMessage {
                send_time,
                sender: self.sender,
                message: self.text,
                reply_to: None,
                id: 0,
            },
            origin: MessageOrigin::Synthetic,
        }
    }
}

} // verus!
