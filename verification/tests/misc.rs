use apatite::config::{AuthConfig, BotConfig, Config};
use apatite::errors::{AuthError, TwitchAPIError};
use apatite::user_cache::UserCache;

#[test]
fn default_config_holds_placeholders() {
    let c = Config::default();
    assert_eq!(c.auth.client_id, "Client ID here");
    assert_eq!(c.auth.client_secret, "Client secret here");
    assert_eq!(c.auth.redirect_uri, "http://localhost:3000/callback");
    assert_eq!(c.auth.user_id, "Bot user ID here");
    assert_eq!(c.bot.channel_id, "Channel ID here");
    assert_eq!(AuthConfig::default(), c.auth);
    assert_eq!(BotConfig::default(), c.bot);
}

#[test]
fn error_messages() {
    assert_eq!(AuthError::SaveError.message(), "Couldn't save token");
    assert_eq!(AuthError::RequestError.message(), "Couldn't send http request");
    assert_eq!(AuthError::ParseError.message(), "Couldn't parse http response");
    assert_eq!(TwitchAPIError::AuthError(AuthError::SaveError).message(), "Error while authenticating");
    assert_eq!(TwitchAPIError::RequestError.message(), "Couldn't send http request");
    assert_eq!(TwitchAPIError::ResponseError.message(), "Unexpected response");
    assert_eq!(TwitchAPIError::ParseError.message(), "Error while parsing response");
    assert_eq!(TwitchAPIError::RateLimited.message(), "Rate limited");
    assert_eq!(TwitchAPIError::PermissionError.message(), "Insufficient permissions");
}

#[test]
fn auth_error_converts() {
    let e: TwitchAPIError = AuthError::ParseError.into();
    assert_eq!(e, TwitchAPIError::AuthError(AuthError::ParseError));
}

#[test]
fn cache_matches_username() {
    let c = UserCache::new("123".to_string(), "alice");
    assert_eq!(c.username, "alice");
    assert_eq!(UserCache::cached_id(Some(c.clone()), "alice"), Some("123".to_string()));
    assert_eq!(UserCache::cached_id(Some(c.clone()), "bob"), None);
    assert_eq!(UserCache::cached_id(None, "alice"), None);
    assert_eq!(UserCache::for_user(Some(c.clone()), "alice"), Some(c.clone()));
    assert_eq!(UserCache::for_user(Some(c), "Alice"), None);
}
