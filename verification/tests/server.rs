use simple_chat_backend::clock::UtcTime;
use simple_chat_backend::server::{
    admit_websocket, admit_websocket_at, check_origin_headers, ensure_allowed_http_origin, extract_bearer_token, history_limit,
    is_allowed_origin, join_notice, kept_connections, on_socket_event, on_socket_event_at, parse_allowed_origins, Admission,
    AuthorizationHeader, ChatEvent, FrameAction, MessageStore, SessionResponse, SessionStore,
    SocketEvent, UserStore,
};
use simple_chat_backend::telemetry::ServiceTelemetry;

fn origins() -> Vec<String> {
    vec!["http://localhost:5173".to_string()]
}

#[test]
fn register_then_login() {
    let mut users = UserStore::new();
    let user = users.register(" Alice ", "password123", " Alice ").unwrap();
    assert_eq!(user.username, "alice");
    assert_eq!(user.display_name, "Alice");
    let again = users.authenticate("ALICE", "password123").unwrap();
    assert_eq!(again.password_hash, user.password_hash);
    assert_eq!(users.authenticate("alice", "password124").unwrap_err(), "Invalid username or password.");
    assert_eq!(users.authenticate("bob", "password123").unwrap_err(), "Invalid username or password.");
}

#[test]
fn duplicate_registration_is_refused() {
    let mut users = UserStore::new();
    users.register("alice", "password123", "Alice").unwrap();
    assert_eq!(
        users.register(" ALICE", "password456", "Other").unwrap_err(),
        "Username is already registered."
    );
    assert!(users.authenticate("alice", "password123").is_ok());
    assert_eq!(
        users.register("al!ce", "password123", "Alice").unwrap_err(),
        "Username may only contain letters, numbers, '-' and '_'."
    );
}

#[test]
fn register_with_salt_hashes_deterministically() {
    let mut first = UserStore::new();
    let mut second = UserStore::new();
    let a = first.register_with_salt("kim", "password123", "Kim", &[1u8; 16]).unwrap();
    let b = second.register_with_salt("kim", "password123", "Kim", &[1u8; 16]).unwrap();
    assert_eq!(a.password_hash, b.password_hash);
    let c = second.register_with_salt("lee", "password123", "Lee", &[2u8; 16]).unwrap();
    assert_ne!(a.password_hash, c.password_hash);
}

fn user(store: &mut UserStore, name: &str) -> simple_chat_backend::server::UserRecord {
    store.register(name, "password123", name).unwrap()
}

#[test]
fn session_lifecycle() {
    let mut users = UserStore::new();
    let alice = user(&mut users, "alice");
    let mut sessions = SessionStore::new(5);
    let start = UtcTime { secs: 1_000, nanos: 0 };
    let identity = sessions.create_at(&alice, &[3u8; 32], start).unwrap();
    let token = identity.token().clone();
    assert_eq!(identity.expires_at(), UtcTime { secs: 1_005, nanos: 0 });
    let found = sessions.get_at(&token, UtcTime { secs: 1_004, nanos: 999_999_999 }).unwrap();
    assert_eq!(found.username(), "alice");
    assert!(sessions.get_at(&token, UtcTime { secs: 1_005, nanos: 0 }).is_none());
    assert!(sessions.get_at(&token, UtcTime { secs: 1_000, nanos: 0 }).is_none());
}

#[test]
fn revoked_session_is_gone() {
    let mut users = UserStore::new();
    let alice = user(&mut users, "alice");
    let mut sessions = SessionStore::new(60);
    let identity = sessions.create(&alice).unwrap();
    let token = identity.token().clone();
    assert!(sessions.get(&token).is_some());
    sessions.revoke(&token);
    assert!(sessions.get(&token).is_none());
    let response = SessionResponse::from(identity);
    assert_eq!(response.token, token);
    assert!(response.expires_at.ends_with("+00:00"));
}

#[test]
fn session_expiry_text() {
    let mut users = UserStore::new();
    let alice = user(&mut users, "alice");
    let mut sessions = SessionStore::new(90);
    let identity = sessions.create_at(&alice, &[0u8; 32], UtcTime { secs: 0, nanos: 0 }).unwrap();
    assert_eq!(SessionResponse::from(identity).expires_at, "1970-01-01T00:01:30+00:00");
    let late = UtcTime { secs: 8_210_266_876_799, nanos: 0 };
    assert!(sessions.create_at(&alice, &[1u8; 32], late).is_none());
}

fn message(id: &str, text: &str) -> ChatEvent {
    ChatEvent {
        id: Some(id.to_string()),
        event_type: "message",
        sender: Some("Alice".to_string()),
        text: text.to_string(),
        sent_at: "t".to_string(),
    }
}

#[test]
fn history_pages_walk_backwards() {
    let mut store = MessageStore::new();
    for i in 0..5 {
        store.push(message(&format!("m{i}"), &format!("text {i}")));
    }
    let newest = store.list(None, 2);
    let texts: Vec<&str> = newest.messages.iter().map(|m| m.text.as_str()).collect();
    assert_eq!(texts, vec!["text 3", "text 4"]);
    assert!(newest.has_more);
    assert_eq!(newest.next_before.as_deref(), Some("m3"));
    let older = store.list(newest.next_before.as_deref(), 2);
    let texts: Vec<&str> = older.messages.iter().map(|m| m.text.as_str()).collect();
    assert_eq!(texts, vec!["text 1", "text 2"]);
    let oldest = store.list(older.next_before.as_deref(), 2);
    assert_eq!(oldest.messages.len(), 1);
    assert!(!oldest.has_more);
    assert_eq!(oldest.next_before, None);
}

#[test]
fn history_page_size_is_clamped() {
    let mut store = MessageStore::new();
    for i in 0..150 {
        store.push(message(&format!("m{i}"), "x"));
    }
    assert_eq!(store.list(None, 0).messages.len(), 1);
    assert_eq!(store.list(None, 1_000).messages.len(), 100);
    assert_eq!(store.list(Some("unknown"), 3).messages[0].id.as_deref(), Some("m147"));
    assert_eq!(history_limit(None), 25);
    assert_eq!(history_limit(Some(7)), 7);
}

#[test]
fn origins_and_bearer_checks() {
    let allowed = origins();
    assert!(is_allowed_origin(&allowed, None));
    assert!(is_allowed_origin(&allowed, Some("http://localhost:5173")));
    assert!(!is_allowed_origin(&allowed, Some("http://evil.example")));
    let mut telemetry = ServiceTelemetry::default();
    let refused = ensure_allowed_http_origin(&allowed, Some("http://evil.example"), &mut telemetry).unwrap_err();
    assert_eq!(refused.status, 403);
    assert_eq!(refused.detail, "Origin not allowed.");
    assert_eq!(telemetry.counters().auth_failures_total, 1);
    assert!(ensure_allowed_http_origin(&allowed, None, &mut telemetry).is_ok());

    assert_eq!(
        extract_bearer_token(AuthorizationHeader::Missing).unwrap_err().detail,
        "Authorization header is required."
    );
    assert_eq!(extract_bearer_token(AuthorizationHeader::Unreadable).unwrap_err().status, 401);
    assert_eq!(extract_bearer_token(AuthorizationHeader::Text("Bearer tok")).unwrap(), "tok");
}

#[test]
fn allowed_origins_are_parsed() {
    assert_eq!(
        parse_allowed_origins(" http://a.example , ,http://b.example,").unwrap(),
        vec!["http://a.example".to_string(), "http://b.example".to_string()]
    );
    assert_eq!(
        parse_allowed_origins(" , ").unwrap_err(),
        "ALLOWED_ORIGINS must contain at least one origin."
    );
    let defaults = simple_chat_backend::DEFAULT_ALLOWED_ORIGINS.join(",");
    assert_eq!(parse_allowed_origins(&defaults).unwrap().len(), 12);
}

#[test]
fn websocket_admission_and_frames() {
    let mut users = UserStore::new();
    let alice = user(&mut users, "alice");
    let mut sessions = SessionStore::new(60);
    let mut telemetry = ServiceTelemetry::default();
    let identity = sessions.create(&alice).unwrap();
    let token = identity.token().clone();

    let refused = admit_websocket(&origins(), Some("http://evil.example"), &token, &mut sessions, &mut telemetry);
    assert!(matches!(refused, Admission::RejectOrigin));
    let refused = admit_websocket(&origins(), None, "nope", &mut sessions, &mut telemetry);
    assert!(matches!(refused, Admission::RejectSession));
    let padded = format!("  {token} ");
    let admitted = match admit_websocket(&origins(), None, &padded, &mut sessions, &mut telemetry) {
        Admission::Accept(identity) => identity,
        _ => panic!("expected admission"),
    };
    assert_eq!(telemetry.counters().websocket_connect_failures_total, 2);
    assert_eq!(telemetry.counters().active_websocket_connections, 1);
    assert_eq!(join_notice(&admitted).text, "alice joined the chat");

    match on_socket_event(SocketEvent::Text(r#"{"sender":"mallory","text":"hi"}"#.to_string()), &admitted, &mut sessions, &mut telemetry) {
        FrameAction::Reject(event) => {
            assert_eq!(event.event_type, "error");
            assert_eq!(event.text, "Field 'sender' is server-owned and must not be sent by clients.");
        }
        _ => panic!("expected a rejection"),
    }
    match on_socket_event(SocketEvent::Text(r#"{"text":"hello after error"}"#.to_string()), &admitted, &mut sessions, &mut telemetry) {
        FrameAction::Deliver(event) => {
            assert_eq!(event.event_type, "message");
            assert_eq!(event.text, "hello after error");
            assert_eq!(event.sender.as_deref(), Some("alice"));
            assert_eq!(event.id.as_ref().unwrap().len(), 29);
        }
        _ => panic!("expected a delivery"),
    }
    assert!(matches!(
        on_socket_event(SocketEvent::Close, &admitted, &mut sessions, &mut telemetry),
        FrameAction::Close
    ));
    sessions.revoke(&token);
    match on_socket_event(SocketEvent::Text(r#"{"text":"late"}"#.to_string()), &admitted, &mut sessions, &mut telemetry) {
        FrameAction::Expired(event) => assert_eq!(event.text, "Authentication required or session expired."),
        _ => panic!("expected expiry"),
    }
    let counters = telemetry.counters();
    assert_eq!(counters.websocket_messages_total, 1);
    assert_eq!(counters.websocket_rejected_messages_total, 1);
    assert_eq!(counters.websocket_runtime_errors_total, 1);
}

#[test]
fn paging_walks_whole_history_once() {
    for (count, limit) in [(0usize, 3usize), (1, 3), (7, 3), (9, 3), (10, 1), (250, 1_000), (5, 0)] {
        let mut store = MessageStore::new();
        for i in 0..count {
            store.push(message(&format!("m{i}"), &format!("text {i}")));
        }
        let size = limit.clamp(1, 100);
        let mut pages: Vec<Vec<String>> = Vec::new();
        let mut page = store.list(None, limit);
        loop {
            pages.push(page.messages.iter().map(|m| m.text.clone()).collect());
            if !page.has_more {
                break;
            }
            page = store.list(page.next_before.as_deref(), limit);
        }
        let expected_pages = if count == 0 { 1 } else { (count + size - 1) / size };
        assert_eq!(pages.len(), expected_pages, "count {count} limit {limit}");
        let joined: Vec<String> = pages.into_iter().rev().flatten().collect();
        let all: Vec<String> = (0..count).map(|i| format!("text {i}")).collect();
        assert_eq!(joined, all);
    }
}

#[test]
fn socket_events_carry_ids_only_for_messages() {
    let mut users = UserStore::new();
    let alice = user(&mut users, "alice");
    let mut sessions = SessionStore::new(60);
    let identity = sessions.create(&alice).unwrap();
    let mut telemetry = ServiceTelemetry::default();
    let joined = join_notice(&identity);
    assert!(joined.id.is_none() && joined.sender.is_none());
    assert!(chrono::DateTime::parse_from_rfc3339(&joined.sent_at).is_ok());
    match on_socket_event(SocketEvent::Text("{".to_string()), &identity, &mut sessions, &mut telemetry) {
        FrameAction::Reject(event) => {
            assert_eq!(event.text, "Malformed JSON - message was not delivered.");
            assert!(event.id.is_none() && event.sender.is_none());
            assert!(chrono::DateTime::parse_from_rfc3339(&event.sent_at).is_ok());
        }
        _ => panic!("expected a rejection"),
    }
    match on_socket_event(SocketEvent::Text(r#"{"text":"hey"}"#.to_string()), &identity, &mut sessions, &mut telemetry) {
        FrameAction::Deliver(event) => {
            assert!(event.id.is_some());
            assert!(chrono::DateTime::parse_from_rfc3339(&event.sent_at).is_ok());
        }
        _ => panic!("expected a delivery"),
    }
    assert_eq!(identity.token().len(), 43);
}

#[test]
fn socket_events_follow_the_given_time() {
    let mut users = UserStore::new();
    let bob = user(&mut users, "bob");
    let mut sessions = SessionStore::new(60);
    let start = UtcTime { secs: 1_000, nanos: 0 };
    let identity = sessions.create_at(&bob, &[7u8; 32], start).unwrap();
    let mut telemetry = ServiceTelemetry::default();
    let frame = || SocketEvent::Text(r#"{"text":"on time"}"#.to_string());
    match on_socket_event_at(frame(), &identity, &mut sessions, &mut telemetry, UtcTime { secs: 1_059, nanos: 0 }) {
        FrameAction::Deliver(event) => assert_eq!(event.text, "on time"),
        _ => panic!("expected a delivery"),
    }
    match admit_websocket_at(&origins(), None, identity.token(), &mut sessions, &mut telemetry, UtcTime { secs: 1_030, nanos: 0 }) {
        Admission::Accept(found) => assert_eq!(found.username(), "bob"),
        _ => panic!("expected admission"),
    }
    match on_socket_event_at(frame(), &identity, &mut sessions, &mut telemetry, UtcTime { secs: 1_060, nanos: 0 }) {
        FrameAction::Expired(event) => {
            assert_eq!(event.text, "Authentication required or session expired.");
            assert!(event.id.is_none() && event.sender.is_none());
        }
        _ => panic!("expected expiry"),
    }
    assert!(matches!(
        admit_websocket_at(&origins(), None, identity.token(), &mut sessions, &mut telemetry, UtcTime { secs: 1_000, nanos: 0 }),
        Admission::RejectSession
    ));
    let counters = telemetry.counters();
    assert_eq!(counters.websocket_messages_total, 1);
    assert_eq!(counters.websocket_runtime_errors_total, 1);
    assert_eq!(counters.websocket_connect_failures_total, 1);
}

#[test]
fn origin_headers_and_kept_connections() {
    assert!(check_origin_headers(&origins()).is_ok());
    let bad = vec!["http://ok.example".to_string(), "http://bad\u{7f}.example".to_string(), "x\ny".to_string()];
    assert_eq!(check_origin_headers(&bad).unwrap_err(), format!("Invalid origin configured: {}", bad[1]));
    assert!(check_origin_headers(&vec!["tab\there".to_string(), "caf\u{e9}".to_string()]).is_ok());
    assert_eq!(kept_connections(&vec![1, 2, 3, 4], &vec![true, false, true, false]), vec![1, 3]);
    assert!(kept_connections(&vec![], &vec![]).is_empty());
}

#[test]
fn message_ids_have_their_form() {
    let event = ChatEvent::message("Ann".to_string(), "hi".to_string());
    let id = event.id.unwrap();
    assert_eq!(id.len(), 29);
    let (digits, random) = id.split_at(20);
    assert!(digits.chars().all(|c| c.is_ascii_digit()));
    assert!(random.starts_with('-'));
    assert!(random[1..].chars().all(|c| c.is_ascii_alphanumeric() || c == '-' || c == '_'));
}
