use simple_chat_backend::aws_lambda::{
    authenticate_user, connect_decision, connect_token, disconnect_decision, extract_bearer_token,
    is_gone_error, is_resource_in_use, management_endpoint, new_session_record,
    new_session_record_at, new_session_record_with_policy, new_user_record, new_user_record_with_salt,
    normalize_display_name, normalize_username, parse_and_validate, plan_shared_config,
    resolve_table_name, route_auth_request, send_message_decision, validate_password, AuthRoute,
    ConnectDecision, ConnectionRecord, DynamoLayout, LoginRequest, RegisterRequest, SendDecision,
    SessionRecord, SessionResponse, StoredSessionRecord,
};
use simple_chat_backend::aws_lambda::{
    login_after_lookup, login_request, logout_request, register_after_lookup, register_request,
};
use simple_chat_backend::clock::UtcTime;
use simple_chat_backend::runtime_contract::{parse_and_validate_chat_text, SessionPolicy};

#[test]
fn register_record_normalizes_fields() {
    let user = new_user_record(RegisterRequest {
        username: " Alice ".to_string(),
        password: "password123".to_string(),
        display_name: " Alice Cooper ".to_string(),
    })
    .unwrap();

    assert_eq!(user.username, "alice");
    assert_eq!(user.display_name, "Alice Cooper");
}

#[test]
fn authenticate_user_checks_password_hash() {
    let user = new_user_record(RegisterRequest {
        username: "alice".to_string(),
        password: "password123".to_string(),
        display_name: "Alice".to_string(),
    })
    .unwrap();

    authenticate_user(
        &user,
        &LoginRequest {
            username: "alice".to_string(),
            password: "password123".to_string(),
        },
    )
    .unwrap();
}

#[test]
fn parse_and_validate_rejects_sender_field() {
    let result = parse_and_validate(r#"{"sender":"alice","text":"hello"}"#);
    assert_eq!(
        result.unwrap_err(),
        "Field 'sender' is server-owned and must not be sent by clients."
    );
}

#[test]
fn new_session_record_sets_expiry() {
    let user = new_user_record(RegisterRequest {
        username: "alice".to_string(),
        password: "password123".to_string(),
        display_name: "Alice".to_string(),
    })
    .unwrap();

    let session = new_session_record(&user).unwrap();
    assert_eq!(session.username, "alice");
    assert!(!session.token.is_empty());
    assert!(!session.expires_at.is_empty());
}

fn request(username: &str, password: &str, display_name: &str) -> RegisterRequest {
    RegisterRequest {
        username: username.to_string(),
        password: password.to_string(),
        display_name: display_name.to_string(),
    }
}

#[test]
fn username_rules_give_each_detail() {
    assert_eq!(normalize_username("   ").unwrap_err(), "Username is required.");
    assert_eq!(
        normalize_username(&"a".repeat(25)).unwrap_err(),
        "Username must be at most 24 characters."
    );
    assert_eq!(normalize_username(&"A".repeat(24)).unwrap(), "a".repeat(24));
    assert_eq!(
        normalize_username("al ice").unwrap_err(),
        "Username may only contain letters, numbers, '-' and '_' ."
    );
    assert_eq!(normalize_username(" Bob_the-2nd ").unwrap(), "bob_the-2nd");
}

#[test]
fn display_name_and_password_rules() {
    assert_eq!(normalize_display_name(" \t ").unwrap_err(), "Display name is required.");
    assert_eq!(
        normalize_display_name(&"x".repeat(49)).unwrap_err(),
        "Display name must be at most 48 characters."
    );
    assert_eq!(normalize_display_name("\u{a0}Zoë\u{3000}").unwrap(), "Zoë");
    assert_eq!(validate_password("short").unwrap_err(), "Password must be at least 8 characters.");
    assert_eq!(validate_password("  spaced  ").unwrap(), "  spaced  ");
}

#[test]
fn registration_reports_first_failing_field() {
    let error = new_user_record(request("", "x", "")).unwrap_err();
    assert_eq!(error, "Username is required.");
    let error = new_user_record(request("carol", "x", "")).unwrap_err();
    assert_eq!(error, "Display name is required.");
    let error = new_user_record(request("carol", "x", "Carol")).unwrap_err();
    assert_eq!(error, "Password must be at least 8 characters.");
}

#[test]
fn user_record_with_salt_is_deterministic() {
    let salt = [7u8; 16];
    let first = new_user_record_with_salt(request("dave", "password123", "Dave"), &salt).unwrap();
    let second = new_user_record_with_salt(request("DAVE", "password123", "Dave"), &salt).unwrap();
    assert_eq!(first.password_hash_b64, second.password_hash_b64);
    assert_eq!(first.password_salt_b64, "BwcHBwcHBwcHBwcHBwcHBw");
    assert_ne!(first.password_hash_b64, first.password_salt_b64);
}

#[test]
fn authenticate_user_rejects_wrong_password_and_name() {
    let user = new_user_record(request("erin", "password123", "Erin")).unwrap();
    let wrong = LoginRequest { username: "erin".to_string(), password: "password124".to_string() };
    assert_eq!(authenticate_user(&user, &wrong).unwrap_err(), "Invalid username or password.");
    let other = LoginRequest { username: "frank".to_string(), password: "password123".to_string() };
    assert_eq!(authenticate_user(&user, &other).unwrap_err(), "Invalid username or password.");
    let loud = LoginRequest { username: "  ERIN ".to_string(), password: "password123".to_string() };
    assert!(authenticate_user(&user, &loud).is_ok());
}

#[test]
fn authenticate_user_rejects_corrupt_record() {
    let mut user = new_user_record(request("gina", "password123", "Gina")).unwrap();
    user.password_salt_b64 = "not base64!".to_string();
    let login = LoginRequest { username: "gina".to_string(), password: "password123".to_string() };
    assert_eq!(authenticate_user(&user, &login).unwrap_err(), "Stored credential data is invalid.");
}

#[test]
fn session_record_uses_policy_and_time() {
    let user = new_user_record(request("hank", "password123", "Hank")).unwrap();
    let policy = SessionPolicy::from_ttl_seconds(90).unwrap();
    let now = UtcTime { secs: 0, nanos: 0 };
    let record = new_session_record_at(&user, &[0u8; 32], now, policy).unwrap();
    assert_eq!(record.expires_at, "1970-01-01T00:01:30+00:00");
    assert_eq!(record.token, "AAAAAAAAAAAAAAAAAAAAAAAAAAAAAAAAAAAAAAAAAAA");
    assert_eq!(record.display_name, "Hank");
    let fresh = new_session_record_with_policy(&user, policy).unwrap();
    assert_eq!(fresh.token.len(), 43);
    let stored = StoredSessionRecord::from_session(record.clone()).unwrap();
    assert_eq!(stored.expires_at_epoch, 90);
    assert!(stored.is_live_at(89));
    assert!(!stored.is_live_at(90));
    let response = SessionResponse::from(record);
    assert_eq!(response.username, "hank");
}

#[test]
fn stored_session_rejects_bad_expiry() {
    let record = SessionRecord {
        token: "t".to_string(),
        username: "u".to_string(),
        display_name: "U".to_string(),
        expires_at: "tomorrow".to_string(),
    };
    assert_eq!(
        StoredSessionRecord::from_session(record).unwrap_err(),
        "Session expiry timestamp is invalid."
    );
}

#[test]
fn bearer_token_extraction() {
    assert_eq!(extract_bearer_token("Bearer abc").unwrap(), "abc");
    assert_eq!(extract_bearer_token("bEaReR   abc  ").unwrap(), "abc");
    for bad in ["", "Bearer", "Bearer    ", "Basic abc", "Bearerabc", " Bearer abc"] {
        assert_eq!(
            extract_bearer_token(bad).unwrap_err(),
            "Authorization must use a bearer token.",
            "input {bad:?}"
        );
    }
}

#[test]
fn serverless_and_local_validators_agree() {
    for raw in [
        r#"{"sender":"mallory","text":"hi"}"#,
        r#"{"text":"hello after error"}"#,
        r#"{"text":"  "}"#,
        "nonsense",
    ] {
        assert_eq!(parse_and_validate(raw), parse_and_validate_chat_text(raw));
    }
}

#[test]
fn auth_routes() {
    assert_eq!(route_auth_request("POST", "/auth/register"), AuthRoute::Register);
    assert_eq!(route_auth_request("POST", "/auth/login"), AuthRoute::Login);
    assert_eq!(route_auth_request("POST", "/auth/logout"), AuthRoute::Logout);
    assert_eq!(route_auth_request("GET", "/auth/login"), AuthRoute::NotFound);
    assert_eq!(route_auth_request("POST", "/auth/other"), AuthRoute::NotFound);
}

#[test]
fn table_names_follow_deployment() {
    assert_eq!(resolve_table_name(Some("UsersTable"), "UsersTable", "local-users", "users", true), "local-users");
    assert_eq!(resolve_table_name(Some("UsersTable"), "UsersTable", "local-users", "users", false), "UsersTable");
    assert_eq!(resolve_table_name(Some("custom"), "UsersTable", "local-users", "users", true), "custom");
    assert_eq!(resolve_table_name(None, "UsersTable", "local-users", "users", true), "local-users");
    assert_eq!(resolve_table_name(None, "UsersTable", "local-users", "users", false), "users");
    let layout = DynamoLayout::from_env_values(None, Some("SessionsTable"), Some("conns"), false);
    assert_eq!(layout.users_table, "simple-chat-users");
    assert_eq!(layout.sessions_table, "SessionsTable");
    assert_eq!(layout.connections_table, "conns");
}

#[test]
fn shared_config_plans() {
    let local = plan_shared_config(None, None, Some("k"), true);
    assert_eq!(local.region.as_deref(), Some("us-east-1"));
    let credentials = local.credentials.unwrap();
    assert_eq!(credentials.access_key_id, "local");
    assert_eq!(credentials.secret_access_key, "k");
    assert_eq!(credentials.provider_name, "local");
    let remote = plan_shared_config(Some("eu-west-1"), Some("a"), None, false);
    assert_eq!(remote.region.as_deref(), Some("eu-west-1"));
    assert!(remote.credentials.is_none());
    let env = plan_shared_config(None, Some("a"), Some("b"), false);
    assert!(env.region.is_none());
    assert_eq!(env.credentials.unwrap().provider_name, "env");
}

#[test]
fn management_endpoint_choices() {
    assert_eq!(management_endpoint(Some(" x "), true, None, None).as_deref(), Some(" x "));
    assert_eq!(
        management_endpoint(Some("  "), true, None, None).as_deref(),
        Some("http://host.docker.internal:3001")
    );
    assert_eq!(
        management_endpoint(None, false, Some("abc.example"), Some("prod")).as_deref(),
        Some("https://abc.example/prod")
    );
    assert_eq!(management_endpoint(None, false, Some("abc.example"), None), None);
}

#[test]
fn error_text_classification() {
    assert!(is_gone_error("service error: GoneException"));
    assert!(is_gone_error("status 410"));
    assert!(!is_gone_error("status 500"));
    assert!(is_resource_in_use("ResourceInUseException: table exists"));
    assert!(!is_resource_in_use("AccessDenied"));
}

#[test]
fn websocket_route_decisions() {
    let rejected = connect_token(Some("   ")).unwrap_err();
    assert_eq!(rejected.status_code, 401);
    assert_eq!(rejected.body, "Missing token for websocket connection.");
    assert!(connect_token(None).is_err());
    assert_eq!(connect_token(Some(" tok ")).unwrap(), "tok");

    match connect_decision("c1".to_string(), None) {
        ConnectDecision::Reject(response) => {
            assert_eq!(response.body, "Authentication required or session expired.")
        }
        ConnectDecision::Accept { .. } => panic!("expected a rejection"),
    }
    let session = SessionRecord {
        token: "t".to_string(),
        username: "ivy".to_string(),
        display_name: "Ivy".to_string(),
        expires_at: "2030-01-01T00:00:00+00:00".to_string(),
    };
    match connect_decision("c1".to_string(), Some(session)) {
        ConnectDecision::Accept { connection, announcement, reply } => {
            assert_eq!(connection.connection_id, "c1");
            assert_eq!(announcement.text, "Ivy joined the chat");
            assert_eq!(reply.status_code, 200);
        }
        ConnectDecision::Reject(_) => panic!("expected acceptance"),
    }

    let connection = ConnectionRecord {
        connection_id: "c1".to_string(),
        username: "ivy".to_string(),
        display_name: "Ivy".to_string(),
        connected_at: "now".to_string(),
    };
    let (notice, reply) = disconnect_decision(Some(connection.clone()));
    assert_eq!(notice.unwrap().text, "Ivy left the chat");
    assert_eq!(reply.body, "Disconnect accepted.");
    assert!(disconnect_decision(None).0.is_none());

    match send_message_decision(Some(connection.clone()), r#"{"text":" hi "}"#) {
        SendDecision::Broadcast { envelope, reply } => {
            assert_eq!(envelope.text, "hi");
            assert_eq!(envelope.sender.as_deref(), Some("Ivy"));
            assert_eq!(reply.body, "Message accepted.");
        }
        SendDecision::Reply(_) => panic!("expected a broadcast"),
    }
    match send_message_decision(Some(connection.clone()), r#"{"text":" "}"#) {
        SendDecision::Reply(reply) => assert_eq!(reply.body, "Blank message ignored."),
        SendDecision::Broadcast { .. } => panic!("expected a reply"),
    }
    match send_message_decision(Some(connection), "[]") {
        SendDecision::Reply(reply) => {
            assert_eq!(reply.status_code, 400);
            assert_eq!(reply.body, "Payload must be a JSON object.");
        }
        SendDecision::Broadcast { .. } => panic!("expected a reply"),
    }
    match send_message_decision(None, "{}") {
        SendDecision::Reply(reply) => assert_eq!(reply.status_code, 401),
        SendDecision::Broadcast { .. } => panic!("expected a reply"),
    }
}

#[test]
fn websocket_answers_are_plain_text() {
    match connect_decision("c1".to_string(), None) {
        ConnectDecision::Reject(response) => assert!(!response.is_base64_encoded),
        ConnectDecision::Accept { .. } => panic!("expected a rejection"),
    }
    let session = SessionRecord {
        token: "t".to_string(),
        username: "ivy".to_string(),
        display_name: "Ivy".to_string(),
        expires_at: "2030-01-01T00:00:00+00:00".to_string(),
    };
    match connect_decision("c1".to_string(), Some(session)) {
        ConnectDecision::Accept { connection, announcement, reply } => {
            assert!(!reply.is_base64_encoded);
            assert!(chrono::DateTime::parse_from_rfc3339(&connection.connected_at).is_ok());
            assert!(chrono::DateTime::parse_from_rfc3339(&announcement.sent_at).is_ok());
        }
        ConnectDecision::Reject(_) => panic!("expected acceptance"),
    }
    let connection = ConnectionRecord {
        connection_id: "c1".to_string(),
        username: "ivy".to_string(),
        display_name: "Ivy".to_string(),
        connected_at: "now".to_string(),
    };
    for body in [r#"{"text":"hi"}"#, r#"{"text":""}"#, "nope"] {
        match send_message_decision(Some(connection.clone()), body) {
            SendDecision::Broadcast { reply, .. } => assert!(!reply.is_base64_encoded),
            SendDecision::Reply(reply) => assert!(!reply.is_base64_encoded),
        }
    }
    match send_message_decision(None, "{}") {
        SendDecision::Reply(reply) => assert!(!reply.is_base64_encoded),
        SendDecision::Broadcast { .. } => panic!("expected a reply"),
    }
    assert!(!disconnect_decision(None).1.is_base64_encoded);
}

#[test]
fn normalized_username_normalizes_to_itself() {
    for raw in ["  Alice ", "BOB_1", "carol-x", "\u{212A}im"] {
        let once = normalize_username(raw).unwrap();
        assert_eq!(normalize_username(&once).unwrap(), once, "input {raw:?}");
    }
    assert_eq!(normalize_username("\u{212A}im").unwrap(), "kim");
    assert_eq!(normalize_username("\u{3000}Dee\u{85}").unwrap(), "dee");
}

#[test]
fn auth_route_steps() {
    let refused = register_request(request("abcdefghijklmnopqrstuvwxyz", "password123", "X")).unwrap_err();
    assert_eq!(refused.status, 400);
    assert_eq!(refused.detail, "Username must be at most 24 characters.");
    let user = register_request(request(" Ann ", "password123", " Ann ")).unwrap();
    assert_eq!(user.username, "ann");
    let taken = register_after_lookup(user.clone(), true).unwrap_err();
    assert_eq!((taken.status, taken.detail.as_str()), (400, "Username is already registered."));
    assert_eq!(register_after_lookup(user.clone(), false).unwrap().username, "ann");

    let login = LoginRequest { username: "ANN".to_string(), password: "password123".to_string() };
    assert_eq!(login_request(&login).unwrap(), "ann");
    let bad = LoginRequest { username: "a n".to_string(), password: "password123".to_string() };
    assert_eq!(login_request(&bad).unwrap_err().status, 400);
    assert_eq!(login_after_lookup(&login, Some(user.clone())).unwrap().username, "ann");
    let missing = login_after_lookup(&login, None).unwrap_err();
    let wrong = LoginRequest { username: "ann".to_string(), password: "password124".to_string() };
    let mismatch = login_after_lookup(&wrong, Some(user)).unwrap_err();
    assert_eq!((missing.status, missing.detail.as_str()), (401, "Invalid username or password."));
    assert_eq!((mismatch.status, mismatch.detail.as_str()), (401, "Invalid username or password."));

    assert_eq!(logout_request("Bearer  tok ").unwrap(), "tok");
    let no_token = logout_request("").unwrap_err();
    assert_eq!((no_token.status, no_token.detail.as_str()), (401, "Authorization must use a bearer token."));
}

#[test]
fn session_record_token_and_expiry_shape() {
    let user = new_user_record(request("alice", "password123", "Alice")).unwrap();
    let session = new_session_record(&user).unwrap();
    assert_eq!(session.token.len(), 43);
    assert!(session
        .token
        .chars()
        .all(|c| c.is_ascii_alphanumeric() || c == '-' || c == '_'));
    assert!(chrono::DateTime::parse_from_rfc3339(&session.expires_at).is_ok());
}

#[test]
fn created_session_is_storable() {
    let user = new_user_record(request("alice", "password123", "Alice")).unwrap();
    let session = new_session_record(&user).unwrap();
    let expected = chrono::DateTime::parse_from_rfc3339(&session.expires_at).unwrap().timestamp();
    let stored = StoredSessionRecord::from_session(session).unwrap();
    assert_eq!(stored.expires_at_epoch, expected);
}
