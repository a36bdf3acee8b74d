use apatite::auth::{
    auth_step, authorization_form, authorize_url, callback_response, parse_callback_line, refresh_form,
    token_endpoint, AuthAction, AuthEvent, AuthState, CallbackRequest, Token, TokenResponse,
};
use apatite::config::AuthConfig;
use apatite::errors::AuthError;

fn token(a: &str) -> Token {
    Token { access_token: a.to_string(), refresh_token: format!("r-{}", a), expires_in: 3600 }
}

fn config() -> AuthConfig {
    AuthConfig {
        client_id: "cid".to_string(),
        client_secret: "secret".to_string(),
        redirect_uri: "http://localhost:3000/callback".to_string(),
        user_id: "42".to_string(),
    }
}

#[test]
fn token_needs_both_strings() {
    let full = TokenResponse {
        access_token: Some("a".to_string()),
        refresh_token: Some("r".to_string()),
        expires_in: Some(10),
    };
    assert_eq!(
        full.clone().into_token(),
        Ok(Token { access_token: "a".to_string(), refresh_token: "r".to_string(), expires_in: 10 })
    );
    let no_expiry = TokenResponse { expires_in: None, ..full.clone() };
    assert_eq!(no_expiry.into_token().unwrap().expires_in, 0);
    let no_access = TokenResponse { access_token: None, ..full.clone() };
    assert_eq!(no_access.into_token(), Err(AuthError::ParseError));
    let no_refresh = TokenResponse { refresh_token: None, ..full };
    assert_eq!(no_refresh.into_token(), Err(AuthError::ParseError));
}

#[test]
fn authorize_url_encodes_redirect() {
    assert_eq!(
        authorize_url(&config()),
        "https://id.twitch.tv/oauth2/authorize?client_id=cid&redirect_uri=http%3A%2F%2Flocalhost%3A3000%2Fcallback&response_type=code&scope=user:read:email+channel:bot+user:read:chat+user:write:chat+user:bot"
    );
}

#[test]
fn authorize_url_encodes_non_ascii_bytes() {
    let mut c = config();
    c.redirect_uri = "a b~é".to_string();
    let url = authorize_url(&c);
    assert!(url.contains("&redirect_uri=a%20b~%C3%A9&"), "{}", url);
}

#[test]
fn token_forms() {
    let f = authorization_form(&config(), "thecode");
    let expect: Vec<(String, String)> = [
        ("client_id", "cid"),
        ("client_secret", "secret"),
        ("code", "thecode"),
        ("grant_type", "authorization_code"),
        ("redirect_uri", "http://localhost:3000/callback"),
    ]
    .iter()
    .map(|(a, b)| (a.to_string(), b.to_string()))
    .collect();
    assert_eq!(f, expect);
    let r = refresh_form(&config(), &token("x"));
    let expect: Vec<(String, String)> = [
        ("grant_type", "refresh_token"),
        ("refresh_token", "r-x"),
        ("client_id", "cid"),
        ("client_secret", "secret"),
    ]
    .iter()
    .map(|(a, b)| (a.to_string(), b.to_string()))
    .collect();
    assert_eq!(r, expect);
    assert_eq!(token_endpoint(), "https://id.twitch.tv/oauth2/token");
}

#[test]
fn callback_with_code() {
    assert_eq!(
        parse_callback_line("GET /callback?code=abc123&scope=x HTTP/1.1"),
        CallbackRequest::Code("abc123".to_string())
    );
    assert_eq!(
        parse_callback_line("GET /callback?code=abc123 HTTP/1.1"),
        CallbackRequest::Code("abc123".to_string())
    );
}

#[test]
fn callback_ampersand_wins_over_space() {
    // an '&' anywhere after the marker ends the value, even after a space
    assert_eq!(
        parse_callback_line("GET /callback?code=abc HTTP/1.1&x"),
        CallbackRequest::Code("abc HTTP/1.1".to_string())
    );
}

#[test]
fn callback_with_error() {
    assert_eq!(
        parse_callback_line("GET /callback?error=access_denied&error_description=no HTTP/1.1"),
        CallbackRequest::Error("access_denied".to_string())
    );
}

#[test]
fn callback_unterminated_and_other() {
    assert_eq!(parse_callback_line("GET /callback?code=abc"), CallbackRequest::Unterminated);
    assert_eq!(parse_callback_line("GET /callback?error=x"), CallbackRequest::Unterminated);
    assert_eq!(parse_callback_line("GET /favicon.ico HTTP/1.1"), CallbackRequest::Other);
    assert_eq!(parse_callback_line(""), CallbackRequest::Other);
}

#[test]
fn callback_responses() {
    assert_eq!(
        callback_response(&CallbackRequest::Code("c".to_string())),
        Some("HTTP/1.1 200 OK\r\n\r\nYou can close this tab.".to_string())
    );
    assert_eq!(
        callback_response(&CallbackRequest::Error("denied".to_string())),
        Some("HTTP/1.1 200 OK\r\n\r\nError: .denied".to_string())
    );
    assert_eq!(callback_response(&CallbackRequest::Other), None);
    assert_eq!(callback_response(&CallbackRequest::Unterminated), None);
}

#[test]
fn saved_token_is_refreshed_and_saved() {
    let (s, a) = auth_step(AuthState::Start, AuthEvent::Loaded(Some(token("old"))));
    assert_eq!(a, AuthAction::Refresh(token("old")));
    let (s, a) = auth_step(s, AuthEvent::Refreshed(Ok(token("new"))));
    assert_eq!(a, AuthAction::Save(token("new")));
    let (s, a) = auth_step(s, AuthEvent::Saved(true));
    assert_eq!(a, AuthAction::Finish(Ok(token("new"))));
    assert_eq!(s, AuthState::Done);
}

#[test]
fn failed_refresh_keeps_saved_token() {
    let (s, _) = auth_step(AuthState::Start, AuthEvent::Loaded(Some(token("old"))));
    let (s, a) = auth_step(s, AuthEvent::Refreshed(Err(AuthError::RequestError)));
    assert_eq!(a, AuthAction::Finish(Ok(token("old"))));
    assert_eq!(s, AuthState::Done);
}

#[test]
fn refreshed_token_that_cannot_be_saved_fails() {
    let (s, _) = auth_step(AuthState::Start, AuthEvent::Loaded(Some(token("old"))));
    let (s, _) = auth_step(s, AuthEvent::Refreshed(Ok(token("new"))));
    let (_, a) = auth_step(s, AuthEvent::Saved(false));
    assert_eq!(a, AuthAction::Finish(Err(AuthError::SaveError)));
}

#[test]
fn without_saved_token_owner_authorizes() {
    let (s, a) = auth_step(AuthState::Start, AuthEvent::Loaded(None));
    assert_eq!(a, AuthAction::Authorize);
    let (s, a) = auth_step(s, AuthEvent::Authorized(Ok(token("fresh"))));
    assert_eq!(a, AuthAction::Save(token("fresh")));
    let (_, a) = auth_step(s, AuthEvent::Saved(false));
    assert_eq!(a, AuthAction::FinishUnsaved(token("fresh")));
}

#[test]
fn failed_authorization_fails() {
    let (s, _) = auth_step(AuthState::Start, AuthEvent::Loaded(None));
    let (s, a) = auth_step(s, AuthEvent::Authorized(Err(AuthError::ParseError)));
    assert_eq!(a, AuthAction::Finish(Err(AuthError::ParseError)));
    assert_eq!(s, AuthState::Done);
}
