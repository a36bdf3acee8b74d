//! The requests that the bot sends to the Twitch Helix API: where they go,
//! how they are authorized, and what their bodies hold.
use vstd::prelude::*;
use vstd::string::*;
use crate::config::{AuthConfig, BotConfig};

verus! {

/// The HTTP method of a request.
#[derive(Clone, Copy, Debug, PartialEq, Eq, Structural)]
pub enum HttpMethod {
    Get,
    Post,
}

/// A request to the Helix API, before its body or query is attached.
#[derive(Clone, Debug, PartialEq, Eq)]
pub struct HelixRequest {
    pub method: HttpMethod,
    pub url: String,
    /// Sent as `Authorization: Bearer <token>`.
    pub bearer_token: String,
    /// Sent as the `Client-Id` header.
    pub client_id: String,
}

/// The body of a chat message sent by the bot.
#[derive(Clone, Debug, PartialEq, Eq)]
pub struct ChatMessageBody {
    pub broadcaster_id: String,
    pub sender_id: String,
    pub message: String,
}

/// The condition of an EventSub subscription: whose chat, read as whom.
#[derive(Clone, Debug, PartialEq, Eq)]
pub struct SubscriptionCondition {
    pub broadcaster_user_id: String,
    pub user_id: String,
}

/// The body of an EventSub subscription request, with its condition.
#[derive(Clone, Debug, PartialEq, Eq)]
pub struct SubscriptionBody<C> {
    /// The subscription type, such as `channel.chat.message`.
    pub kind: String,
    pub version: String,
    pub condition: C,
    /// The transport's method: always `websocket`.
    pub transport_method: String,
    /// The id of the EventSub session that receives the events.
    pub session_id: String,
}

/// Whether an HTTP status code reports success (200 to 299).
pub fn status_is_success(code: u16) -> (r: bool)
    ensures
        r == (200 <= code <= 299),
{
    200 <= code && code <= 299
}

/// The URL of a Helix endpoint.
pub open spec fn helix_url_spec(endpoint: Seq<char>) -> Seq<char> {
    "https://api.twitch.tv/helix/"@ + endpoint
}

/// A Helix URL is the API's base followed by the whole endpoint.
pub proof fn lemma_helix_url(endpoint: Seq<char>)
    ensures
        helix_url_spec(endpoint).len() == "https://api.twitch.tv/helix/"@.len() + endpoint.len(),
        helix_url_spec(endpoint).subrange(0, "https://api.twitch.tv/helix/"@.len() as int)
            == "https://api.twitch.tv/helix/"@,
        helix_url_spec(endpoint).subrange(
            "https://api.twitch.tv/helix/"@.len() as int,
            helix_url_spec(endpoint).len() as int,
        ) == endpoint,
{
    let p = "https://api.twitch.tv/helix/"@;
    assert((p + endpoint).subrange(0, p.len() as int) =~= p);
    assert((p + endpoint).subrange(p.len() as int, (p + endpoint).len() as int) =~= endpoint);
}

/// A connection to the Twitch API on behalf of the bot.
pub struct TwitchAPI {
    token: String,
    client_id: String,
    session_id: String,
    pub bot_user_id: String,
    pub broadcaster_id: String,
}

impl TwitchAPI {
    /// The access token in use.
    pub closed spec fn token_spec(&self) -> Seq<char> {
        self.token@
    }

    /// The application's client id.
    pub closed spec fn client_id_spec(&self) -> Seq<char> {
        self.client_id@
    }

    /// The bot's user id.
    pub closed spec fn bot_user_id_spec(&self) -> Seq<char> {
        self.bot_user_id@
    }

    /// The broadcaster whose chat the bot serves.
    pub closed spec fn broadcaster_id_spec(&self) -> Seq<char> {
        self.broadcaster_id@
    }

    /// The EventSub session that receives the bot's events.
    pub closed spec fn session_id_spec(&self) -> Seq<char> {
        self.session_id@
    }

    /// The connection once authentication gave `access_token` and the
    /// EventSub connection gave `session_id`: the client id and the bot's
    /// user id come from the configuration.
    pub fn connected(
        auth_config: &AuthConfig,
        broadcaster_id: String,
        access_token: String,
        session_id: String,
    ) -> (r: Self)
        ensures
            r.token_spec() == access_token@,
            r.client_id_spec() == auth_config.client_id@,
            r.session_id_spec() == session_id@,
            r.bot_user_id_spec() == auth_config.user_id@,
            r.broadcaster_id_spec() == broadcaster_id@,
    {
        TwitchAPI {
            token: access_token,
            client_id: auth_config.client_id.clone(),
            session_id,
            bot_user_id: auth_config.user_id.clone(),
            broadcaster_id,
        }
    }

    fn request(&self, method: HttpMethod, endpoint: &str) -> (r: HelixRequest)
        ensures
            r.method == method,
            r.url@ == helix_url_spec(endpoint@),
            r.bearer_token@ == self.token_spec(),
            r.client_id@ == self.client_id_spec(),
    {
        let mut url = "https://api.twitch.tv/helix/".to_owned();
        url.append(endpoint);
        HelixRequest {
            method,
            url,
            bearer_token: self.token.clone(),
            client_id: self.client_id.clone(),
        }
    }

    /// A GET request to a Helix endpoint, authorized as the bot.
    pub fn get_request(&self, endpoint: &str) -> (r: HelixRequest)
        ensures
            r.method == HttpMethod::Get,
            r.url@ == helix_url_spec(endpoint@),
            r.bearer_token@ == self.token_spec(),
            r.client_id@ == self.client_id_spec(),
    {
        self.request(HttpMethod::Get, endpoint)
    }

    /// A POST request to a Helix endpoint, authorized as the bot.
    pub fn post_request(&self, endpoint: &str) -> (r: HelixRequest)
        ensures
            r.method == HttpMethod::Post,
            r.url@ == helix_url_spec(endpoint@),
            r.bearer_token@ == self.token_spec(),
            r.client_id@ == self.client_id_spec(),
    {
        self.request(HttpMethod::Post, endpoint)
    }

    /// The body that sends `message` to the broadcaster's chat as the bot.
    pub fn chat_message(&self, message: &str) -> (r: ChatMessageBody)
        ensures
            r.broadcaster_id@ == self.broadcaster_id_spec(),
            r.sender_id@ == self.bot_user_id_spec(),
            r.message@ == message@,
    {
        ChatMessageBody {
            broadcaster_id: self.broadcaster_id.clone(),
            sender_id: self.bot_user_id.clone(),
            message: message.to_owned(),
        }
    }

    /// The body that subscribes this session to an event over the websocket.
    pub fn subscription<C>(&self, kind: &str, version: &str, condition: C) -> (r: SubscriptionBody<C>)
        ensures
            r.kind@ == kind@,
            r.version@ == version@,
            r.condition == condition,
            r.transport_method@ == "websocket"@,
            r.session_id@ == self.session_id_spec(),
    {
        SubscriptionBody {
            kind: kind.to_owned(),
            version: version.to_owned(),
            condition,
            transport_method: "websocket".to_owned(),
            session_id: self.session_id.clone(),
        }
    }

    /// The subscription to the chat messages of the configured channel, read
    /// as the bot: type `channel.chat.message`, version `1`.
    pub fn chat_subscription(&self, bot_config: &BotConfig) -> (r: SubscriptionBody<
        SubscriptionCondition,
    >)
        ensures
            r.kind@ == "channel.chat.message"@,
            r.version@ == "1"@,
            r.condition.broadcaster_user_id@ == bot_config.channel_id@,
            r.condition.user_id@ == self.bot_user_id_spec(),
            r.transport_method@ == "websocket"@,
            r.session_id@ == self.session_id_spec(),
    {
        let condition = SubscriptionCondition {
            broadcaster_user_id: bot_config.channel_id.clone(),
            user_id: self.bot_user_id.clone(),
        };
        self.subscription("channel.chat.message", "1", condition)
    }

    /// The query that looks a user up by login name.
    pub fn users_query(username: &str) -> (r: Vec<(String, String)>)
        ensures
            r@.len() == 1,
            r@[0].0@ == "login"@,
            r@[0].1@ == username@,
    {
        let mut r: Vec<(String, String)> = Vec::new();
        r.push(("login".to_owned(), username.to_owned()));
        r
    }
}

} // verus!
