use apatite::api::{status_is_success, HttpMethod, SubscriptionCondition, TwitchAPI};
use apatite::config::{AuthConfig, BotConfig};

fn api() -> TwitchAPI {
    let cfg = AuthConfig {
        client_id: "cid".to_string(),
        client_secret: "s".to_string(),
        redirect_uri: "r".to_string(),
        user_id: "bot42".to_string(),
    };
    TwitchAPI::connected(&cfg, "chan7".to_string(), "tok".to_string(), "sess1".to_string())
}

#[test]
fn success_statuses() {
    assert!(status_is_success(200));
    assert!(status_is_success(204));
    assert!(status_is_success(299));
    assert!(!status_is_success(199));
    assert!(!status_is_success(300));
    assert!(!status_is_success(429));
}

#[test]
fn requests_target_helix() {
    let a = api();
    let g = a.get_request("users");
    assert_eq!(g.method, HttpMethod::Get);
    assert_eq!(g.url, "https://api.twitch.tv/helix/users");
    assert_eq!(g.bearer_token, "tok");
    assert_eq!(g.client_id, "cid");
    let p = a.post_request("chat/messages");
    assert_eq!(p.method, HttpMethod::Post);
    assert_eq!(p.url, "https://api.twitch.tv/helix/chat/messages");
    assert_eq!(a.bot_user_id, "bot42");
    assert_eq!(a.broadcaster_id, "chan7");
}

#[test]
fn chat_message_body() {
    let b = api().chat_message("hi there");
    assert_eq!(b.broadcaster_id, "chan7");
    assert_eq!(b.sender_id, "bot42");
    assert_eq!(b.message, "hi there");
}

#[test]
fn chat_subscription_body() {
    let b = api().chat_subscription(&BotConfig { channel_id: "chan9".to_string() });
    assert_eq!(b.kind, "channel.chat.message");
    assert_eq!(b.version, "1");
    assert_eq!(
        b.condition,
        SubscriptionCondition { broadcaster_user_id: "chan9".to_string(), user_id: "bot42".to_string() }
    );
    assert_eq!(b.transport_method, "websocket");
    assert_eq!(b.session_id, "sess1");
}

#[test]
fn users_query_by_login() {
    assert_eq!(TwitchAPI::users_query("alice"), vec![("login".to_string(), "alice".to_string())]);
}
