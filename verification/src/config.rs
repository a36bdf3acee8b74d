//! The bot's settings, as they stand in its configuration file.
use vstd::prelude::*;

verus! {

/// The whole configuration.
#[derive(Clone, Debug, PartialEq, Eq)]
pub struct Config {
    pub auth: AuthConfig,
    pub bot: BotConfig,
}

/// How the bot identifies itself to Twitch.
#[derive(Clone, Debug, PartialEq, Eq)]
pub struct AuthConfig {
    pub client_id: String,
    pub client_secret: String,
    pub redirect_uri: String,
    pub user_id: String,
}

/// Where the bot chats.
#[derive(Clone, Debug, PartialEq, Eq)]
pub struct BotConfig {
    pub channel_id: String,
}

impl AuthConfig {
    /// The placeholder settings written into a fresh configuration file.
    pub open spec fn is_default(&self) -> bool {
        &&& self.client_id@ == "Client ID here"@
        &&& self.client_secret@ == "Client secret here"@
        &&& self.redirect_uri@ == "http://localhost:3000/callback"@
        &&& self.user_id@ == "Bot user ID here"@
    }
}

impl BotConfig {
    /// The placeholder settings written into a fresh configuration file.
    pub open spec fn is_default(&self) -> bool {
        self.channel_id@ == "Channel ID here"@
    }
}

impl Default for AuthConfig {
    fn default() -> (r: Self)
        ensures
            r.is_default(),
    {
        AuthConfig {
            client_id: "Client ID here".to_owned(),
            client_secret: "Client secret here".to_owned(),
            redirect_uri: "http://localhost:3000/callback".to_owned(),
            user_id: "Bot user ID here".to_owned(),
        }
    }
}

impl Default for BotConfig {
    fn default() -> (r: Self)
        ensures
            r.is_default(),
    {
        BotConfig { channel_id: "Channel ID here".to_owned() }
    }
}

impl Default for Config {
    fn default() -> (r: Self)
        ensures
            r.auth.is_default(),
            r.bot.is_default(),
    {
        Config { auth: AuthConfig::default(), bot: BotConfig::default() }
    }
}

} // verus!
