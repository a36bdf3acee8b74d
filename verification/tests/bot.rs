use apatite::bot::{command_failed_reply, is_command, react, read_welcome, BotState, ChatEvent, EventSubMessage, Reaction, Welcome};

fn chat(text: Option<&str>, name: Option<&str>, id: Option<&str>) -> EventSubMessage {
    EventSubMessage {
        message_type: Some("notification".to_string()),
        event: Some(ChatEvent {
            keys_present: true,
            text: text.map(|s| s.to_string()),
            chatter_user_name: name.map(|s| s.to_string()),
            chatter_user_id: id.map(|s| s.to_string()),
        }),
        session_id: None,
    }
}

#[test]
fn command_from_viewer_is_dispatched() {
    let r = react("42", &chat(Some("!help"), Some("alice"), Some("7")));
    assert_eq!(
        r,
        Reaction::Chat { user: "alice".to_string(), text: "!help".to_string(), dispatch: true }
    );
}

#[test]
fn bot_never_answers_itself() {
    let r = react("42", &chat(Some("!help"), Some("bot"), Some("42")));
    assert_eq!(r, Reaction::Chat { user: "bot".to_string(), text: "!help".to_string(), dispatch: false });
}

#[test]
fn plain_chat_is_not_dispatched() {
    let r = react("42", &chat(Some("hello !help"), Some("alice"), Some("7")));
    assert_eq!(
        r,
        Reaction::Chat { user: "alice".to_string(), text: "hello !help".to_string(), dispatch: false }
    );
}

#[test]
fn missing_fields_take_defaults() {
    let r = react("42", &chat(None, None, Some("7")));
    assert_eq!(r, Reaction::Chat { user: "unknown".to_string(), text: "".to_string(), dispatch: false });
}

#[test]
fn event_without_its_keys_is_malformed() {
    let mut m = chat(Some("!help"), Some("alice"), Some("7"));
    m.event.as_mut().unwrap().keys_present = false;
    assert_eq!(react("42", &m), Reaction::MalformedEvent);
}

#[test]
fn missing_user_id_is_reported() {
    assert_eq!(react("42", &chat(Some("!help"), Some("alice"), None)), Reaction::MissingUserId);
}

#[test]
fn other_messages_are_ignored() {
    let mut m = chat(Some("!help"), Some("alice"), Some("7"));
    m.message_type = Some("session_keepalive".to_string());
    assert_eq!(react("42", &m), Reaction::Ignore);
    let m2 = EventSubMessage { message_type: Some("notification".to_string()), event: None, session_id: None };
    assert_eq!(react("42", &m2), Reaction::Ignore);
    let m3 = EventSubMessage { message_type: None, event: None, session_id: None };
    assert_eq!(react("42", &m3), Reaction::Ignore);
}

#[test]
fn welcome_gives_session_id() {
    let m = EventSubMessage {
        message_type: Some("session_welcome".to_string()),
        event: None,
        session_id: Some("abc".to_string()),
    };
    assert_eq!(read_welcome(&m), Welcome::Session("abc".to_string()));
    let m2 = EventSubMessage { session_id: None, ..m.clone() };
    assert_eq!(read_welcome(&m2), Welcome::MissingSessionId);
    let m3 = EventSubMessage { message_type: Some("notification".to_string()), ..m };
    assert_eq!(read_welcome(&m3), Welcome::Other);
}

#[test]
fn is_command_checks_leading_bang() {
    assert!(is_command("!x"));
    assert!(!is_command(""));
    assert!(!is_command(" !x"));
}

#[test]
fn stop_stops() {
    let mut s = BotState::new();
    assert!(s.running);
    s.stop();
    assert!(!s.running);
    s.stop();
    assert!(!s.running);
    assert_eq!(command_failed_reply(), "An error occured while executing this command!");
}
