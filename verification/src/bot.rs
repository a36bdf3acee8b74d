//! The bot's reaction to what the EventSub connection delivers: which
//! messages carry the session id, which chat messages are commands for the
//! bot, and whether the bot keeps running.
use vstd::prelude::*;
use crate::commands::same_text;

verus! {

/// The view of an optional string.
pub open spec fn opt_view(o: Option<String>) -> Option<Seq<char>> {
    match o {
        Some(s) => Some(s@),
        None => None,
    }
}

/// The fields of a chat-message event that the bot reads: each is present
/// when the event holds it as a string.
#[derive(Clone, Debug, PartialEq, Eq)]
pub struct ChatEvent {
    /// The event holds the keys `message`, `chatter_user_name` and
    /// `chatter_user_id`, whatever their values.
    pub keys_present: bool,
    /// `message.text`
    pub text: Option<String>,
    /// `chatter_user_name`
    pub chatter_user_name: Option<String>,
    /// `chatter_user_id`
    pub chatter_user_id: Option<String>,
}

/// The fields of an EventSub message that the bot reads.
#[derive(Clone, Debug, PartialEq, Eq)]
pub struct EventSubMessage {
    /// `metadata.message_type`, when it is a string.
    pub message_type: Option<String>,
    /// `payload.event`, when it is an object.
    pub event: Option<ChatEvent>,
    /// `payload.session.id`, when it is a string.
    pub session_id: Option<String>,
}

/// How the bot reacts to an EventSub message.
#[derive(Clone, Debug, PartialEq, Eq)]
pub enum Reaction {
    /// Not a chat notification: nothing to do.
    Ignore,
    /// A chat notification whose event lacks one of the keys `message`,
    /// `chatter_user_name` and `chatter_user_id`.
    MalformedEvent,
    /// A chat notification without the sender's id: it is reported and
    /// skipped.
    MissingUserId,
    /// A chat message, to be shown; when `dispatch` holds it is a command
    /// for the bot.
    Chat { user: String, text: String, dispatch: bool },
}

/// The text `s` begins with `!`.
pub open spec fn is_command_text(s: Seq<char>) -> bool {
    s.len() > 0 && s[0] == '!'
}

/// A chat text is a command exactly when its first character is `!`.
pub proof fn lemma_command_text(rest: Seq<char>, c: char)
    ensures
        is_command_text(seq!['!'] + rest),
        c != '!' ==> !is_command_text(seq![c] + rest),
        !is_command_text(Seq::<char>::empty()),
{
    assert((seq!['!'] + rest)[0] == '!');
    assert((seq![c] + rest)[0] == c);
}

fn opt_or(o: &Option<String>, default: &str) -> (r: String)
    ensures
        r@ == match o {
            Some(s) => s@,
            None => default@,
        },
{
    match o {
        Some(s) => s.clone(),
        None => default.to_owned(),
    }
}

/// Whether the text begins with `!`.
pub fn is_command(text: &str) -> (r: bool)
    ensures
        r == is_command_text(text@),
{
    let cs = crate::text::chars_of(text);
    cs.len() > 0 && cs[0] == '!'
}

/// Reacts to an EventSub message. Only a `notification` that carries an
/// event is a chat message; its text defaults to empty and its sender's name
/// to `unknown`; an event without the keys it is read by is malformed. It is a command for the bot when it begins with `!` and was
/// not sent by the bot itself (`bot_user_id`).
pub fn react(bot_user_id: &str, m: &EventSubMessage) -> (r: Reaction)
    ensures
        (opt_view(m.message_type) == Some("notification"@) && m.event is Some) ==> {
            let ev = m.event->0;
            if !ev.keys_present {
                r is MalformedEvent
            } else {
            match ev.chatter_user_id {
                None => r is MissingUserId,
                Some(id) => r matches Reaction::Chat { user, text, dispatch } && user@ == (
                match ev.chatter_user_name {
                    Some(n) => n@,
                    None => "unknown"@,
                }) && text@ == (match ev.text {
                    Some(t) => t@,
                    None => ""@,
                }) && dispatch == (id@ != bot_user_id@ && is_command_text(text@)),
            }
            }
        },
        !(opt_view(m.message_type) == Some("notification"@) && m.event is Some) ==> r is Ignore,
{
    let notification = match &m.message_type {
        Some(t) => same_text(t.as_str(), "notification"),
        None => false,
    };
    if !notification {
        return Reaction::Ignore;
    }
    match &m.event {
        None => Reaction::Ignore,
        Some(ev) => if !ev.keys_present {
            Reaction::MalformedEvent
        } else {
            match &ev.chatter_user_id {
            None => Reaction::MissingUserId,
            Some(id) => {
                let text = opt_or(&ev.text, "");
                let user = opt_or(&ev.chatter_user_name, "unknown");
                let dispatch = !same_text(id.as_str(), bot_user_id) && is_command(text.as_str());
                Reaction::Chat { user, text, dispatch }
            },
            }
        },
    }
}

/// What a message on a fresh EventSub connection says about the session.
#[derive(Clone, Debug, PartialEq, Eq)]
pub enum Welcome {
    /// The welcome message, with the session's id.
    Session(String),
    /// A welcome message without a session id.
    MissingSessionId,
    /// Any other message.
    Other,
}

/// Reads a message on a fresh EventSub connection: a `session_welcome`
/// message gives the session id.
pub fn read_welcome(m: &EventSubMessage) -> (r: Welcome)
    ensures
        opt_view(m.message_type) == Some("session_welcome"@) ==> match m.session_id {
            Some(id) => r matches Welcome::Session(s) && s@ == id@,
            None => r is MissingSessionId,
        },
        opt_view(m.message_type) != Some("session_welcome"@) ==> r is Other,
{
    let welcome = match &m.message_type {
        Some(t) => same_text(t.as_str(), "session_welcome"),
        None => false,
    };
    if !welcome {
        return Welcome::Other;
    }
    match &m.session_id {
        Some(id) => Welcome::Session(id.clone()),
        None => Welcome::MissingSessionId,
    }
}

/// The reply sent to the chat when a command failed.
pub fn command_failed_reply() -> (r: &'static str)
    ensures
        r@ == "An error occured while executing this command!"@,
{
    "An error occured while executing this command!"
}

/// Whether the bot keeps reading messages.
#[derive(Clone, Copy, Debug, PartialEq, Eq)]
pub struct BotState {
    pub running: bool,
}

impl BotState {
    /// A bot that runs.
    pub fn new() -> (r: Self)
        ensures
            r.running,
    {
        BotState { running: true }
    }

    /// Stops the bot; it stays stopped.
    pub fn stop(&mut self)
        ensures
            !final(self).running,
    {
        self.running = false;
    }
}

} // verus!
