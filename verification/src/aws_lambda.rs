//! The serverless deployment: the records kept in DynamoDB, credential
//! checks, session records, payload validation and the decisions of the
//! HTTP and websocket route handlers.

use vstd::prelude::*;

use crate::clock::{
    in_four_digit_years, is_rfc3339_stamp, parse_rfc3339_seconds, plus_seconds_spec, rfc3339_seconds, rfc3339_text, to_rfc3339, utc_now,
    UtcTime,
};
use crate::crypto::{
    array16, array32, base64_url_decode, base64_url_decoding, base64_url_encode,
    base64_url_encoding, constant_time_eq, os_random_bytes,
};
use crate::runtime_contract::{
    chat_text_verdict_of, parse_and_validate_chat_text, verdict_view, SessionPolicy,
};
use crate::text::{
    ascii_alphanumeric, chars_eq_ignore_ascii_case, chars_of, contains_seq, contains_str,
    eq_ignore_ascii_case, find_char,
    is_ascii_alphanumeric, lowercase_text, to_lowercase, trim, trim_str, trimmed_string,
};
use crate::{MAX_SENDER_CHARS, MAX_USERNAME_CHARS, MIN_PASSWORD_CHARS};

verus! {

/// The number of PBKDF2 rounds used to hash passwords.
pub const PASSWORD_ITERATIONS: u32 = 100_000;

/// A registered user as stored: the salt and the password hash are URL-safe
/// base64 without padding.
#[derive(Clone, Debug)]
pub struct UserRecord {
    pub username: String,
    pub display_name: String,
    pub password_salt_b64: String,
    pub password_hash_b64: String,
}

/// A session as handed out and stored.
#[derive(Clone, Debug)]
pub struct SessionRecord {
    pub token: String,
    pub username: String,
    pub display_name: String,
    pub expires_at: String,
}

/// A websocket connection registered for fan-out.
#[derive(Clone, Debug)]
pub struct ConnectionRecord {
    pub connection_id: String,
    pub username: String,
    pub display_name: String,
    pub connected_at: String,
}

/// The body of a registration request.
#[derive(Clone, Debug)]
pub struct RegisterRequest {
    pub username: String,
    pub password: String,
    pub display_name: String,
}

/// The body of a login request.
#[derive(Clone, Debug)]
pub struct LoginRequest {
    pub username: String,
    pub password: String,
}

/// The answer to a successful registration or login.
#[derive(Clone, Debug)]
pub struct SessionResponse {
    pub token: String,
    pub username: String,
    pub display_name: String,
    pub expires_at: String,
}

/// A chat event as fanned out to websocket clients.
#[derive(Clone, Debug)]
pub struct ChatEnvelope {
    pub event_type: String,
    pub sender: Option<String>,
    pub text: String,
    pub sent_at: String,
}

/// The answer of a websocket route handler to API Gateway.
#[derive(Clone, Debug)]
pub struct WebsocketRouteResponse {
    pub status_code: i64,
    pub body: String,
    pub is_base64_encoded: bool,
}

/// The names of the three DynamoDB tables.
#[derive(Clone, Debug)]
pub struct DynamoLayout {
    pub users_table: String,
    pub sessions_table: String,
    pub connections_table: String,
}

/// A username character: an ASCII letter or digit, `-` or `_`.
pub open spec fn is_username_char(c: char) -> bool {
    is_ascii_alphanumeric(c) || c == '-' || c == '_'
}

/// What `normalize_username` makes of `raw`; `charset_error` is the detail
/// given for a character outside the allowed set.
pub open spec fn username_verdict(raw: Seq<char>, charset_error: Seq<char>) -> Result<Seq<char>, Seq<char>> {
    let username = lowercase_text(trim(raw));
    if username.len() == 0 {
        Err("Username is required."@)
    } else if username.len() > MAX_USERNAME_CHARS {
        Err("Username must be at most 24 characters."@)
    } else if !(forall|i: int| 0 <= i < username.len() ==> is_username_char(#[trigger] username[i])) {
        Err(charset_error)
    } else {
        Ok(username)
    }
}

/// The detail that the serverless path gives for a username character outside the allowed set.
pub open spec fn username_charset_error() -> Seq<char> {
    "Username may only contain letters, numbers, '-' and '_' ."@
}

/// What `normalize_display_name` makes of `raw`.
pub open spec fn display_name_verdict(raw: Seq<char>) -> Result<Seq<char>, Seq<char>> {
    let display_name = trim(raw);
    if display_name.len() == 0 {
        Err("Display name is required."@)
    } else if display_name.len() > MAX_SENDER_CHARS {
        Err("Display name must be at most 48 characters."@)
    } else {
        Ok(display_name)
    }
}

/// What `validate_password` makes of `raw`.
pub open spec fn password_verdict(raw: Seq<char>) -> Result<Seq<char>, Seq<char>> {
    if raw.len() < MIN_PASSWORD_CHARS {
        Err("Password must be at least 8 characters."@)
    } else {
        Ok(raw)
    }
}

/// A `Result` of strings read through the strings' views.
pub open spec fn text_result(r: Result<String, String>) -> Result<Seq<char>, Seq<char>> {
    match r {
        Ok(s) => Ok(s@),
        Err(e) => Err(e@),
    }
}

/// Whether every character of `chars` may stand in a username.
pub fn all_username_chars(chars: &Vec<char>) -> (r: bool)
    ensures
        r == (forall|i: int| 0 <= i < chars@.len() ==> is_username_char(#[trigger] chars@[i])),
{
    let mut i: usize = 0;
    while i < chars.len()
        invariant
            i <= chars.len(),
            forall|j: int| 0 <= j < i ==> is_username_char(#[trigger] chars@[j]),
        decreases chars.len() - i,
    {
        let c = chars[i];
        if !(ascii_alphanumeric(c) || c == '-' || c == '_') {
            assert(!is_username_char(chars@[i as int]));
            return false;
        }
        i = i + 1;
    }
    true
}

/// Trims and lower-cases `raw`, then checks the result against the username
/// rules; `charset_error` is the detail for a character outside the set.
pub(crate) fn normalize_username_with(raw: &str, charset_error: &str) -> (r: Result<String, String>)
    ensures
        text_result(r) == username_verdict(raw@, charset_error@),
        r matches Ok(u) ==> username_verdict(u@, charset_error@) == Ok::<Seq<char>, Seq<char>>(u@),
{
    let username = to_lowercase(trim_str(raw));
    let chars = chars_of(username.as_str());
    if chars.len() == 0 {
        return Err(String::from_str("Username is required."));
    }
    if chars.len() > MAX_USERNAME_CHARS {
        return Err(String::from_str("Username must be at most 24 characters."));
    }
    if !all_username_chars(&chars) {
        return Err(String::from_str(charset_error));
    }
    proof {
        lemma_canonical_username_is_fixed(username@);
    }
    Ok(username)
}

/// A text of username characters with no ASCII upper-case letter is left as
/// it is by trimming and lower-casing.
proof fn lemma_canonical_username_is_fixed(u: Seq<char>)
    requires
        u.len() > 0,
        forall|i: int| 0 <= i < u.len() ==> is_username_char(#[trigger] u[i]),
        forall|i: int| 0 <= i < u.len() ==> !crate::text::is_ascii_upper(#[trigger] u[i]),
    ensures
        trim(u) == u,
        lowercase_text(u) == u,
{
    assert(is_username_char(u[0]));
    assert(is_username_char(u[u.len() - 1]));
    assert(crate::text::trim_start(u) == u);
    assert(crate::text::trim_end(u) == u);
    assert(crate::text::all_ascii(u)) by {
        assert forall|i: int| 0 <= i < u.len() implies (#[trigger] u[i] as u32) < 128 by {
            assert(is_username_char(u[i]));
        }
    }
    assert(u.map_values(|c: char| crate::text::ascii_lower(c)) =~= u) by {
        assert forall|i: int| 0 <= i < u.len() implies #[trigger] crate::text::ascii_lower(u[i]) == u[i] by {
            assert(!crate::text::is_ascii_upper(u[i]));
        }
    }
}

/// The canonical form of a username: trimmed and lower-cased, non-empty, at
/// most `MAX_USERNAME_CHARS` characters, each an ASCII letter or digit, `-` or `_`.
pub fn normalize_username(raw: &str) -> (r: Result<String, String>)
    ensures
        text_result(r) == username_verdict(raw@, username_charset_error()),
        r matches Ok(u) ==> username_verdict(u@, username_charset_error()) == Ok::<Seq<char>, Seq<char>>(u@),
{
    normalize_username_with(raw, "Username may only contain letters, numbers, '-' and '_' .")
}

/// The canonical form of a display name: trimmed, non-empty, at most
/// `MAX_SENDER_CHARS` characters.
pub fn normalize_display_name(raw: &str) -> (r: Result<String, String>)
    ensures
        text_result(r) == display_name_verdict(raw@),
{
    let display_name = trimmed_string(raw);
    let count = display_name.as_str().unicode_len();
    if count == 0 {
        return Err(String::from_str("Display name is required."));
    }
    if count > MAX_SENDER_CHARS {
        return Err(String::from_str("Display name must be at most 48 characters."));
    }
    Ok(display_name)
}

/// A password of at least `MIN_PASSWORD_CHARS` characters, unchanged.
pub fn validate_password(raw: &str) -> (r: Result<String, String>)
    ensures
        text_result(r) == password_verdict(raw@),
{
    if raw.unicode_len() < MIN_PASSWORD_CHARS {
        return Err(String::from_str("Password must be at least 8 characters."));
    }
    Ok(String::from_str(raw))
}

/// The 32-byte PBKDF2-HMAC-SHA256 digest of the UTF-8 bytes of `password` with
/// `salt` and `rounds` rounds, as `pbkdf2::pbkdf2_hmac_array::<Sha256, 32>` computes it.
pub uninterp spec fn pbkdf2_sha256(password: Seq<char>, salt: Seq<u8>, rounds: u32) -> Seq<u8>;

/// `pbkdf2::pbkdf2_hmac_array::<sha2::Sha256, 32>` on the password's bytes,
/// the salt and `PASSWORD_ITERATIONS` rounds. The digest is named, not computed here.
#[verifier::external_body]
pub fn hash_password(password: &str, salt: &[u8; 16]) -> (digest: [u8; 32])
    ensures
        digest@ == pbkdf2_sha256(password@, salt@, PASSWORD_ITERATIONS),
{
    pbkdf2::pbkdf2_hmac_array::<sha2::Sha256, 32>(password.as_bytes(), salt, PASSWORD_ITERATIONS)
}

/// What `new_user_record_with_salt` makes of a registration with the given
/// fields and salt: the first failing check's detail, or the normalized
/// username and display name with the encoded salt and digest.
pub open spec fn user_record_verdict(
    username: Seq<char>,
    password: Seq<char>,
    display_name: Seq<char>,
    salt: Seq<u8>,
) -> Result<(Seq<char>, Seq<char>, Seq<char>, Seq<char>), Seq<char>> {
    match username_verdict(username, username_charset_error()) {
        Err(e) => Err(e),
        Ok(u) => match display_name_verdict(display_name) {
            Err(e) => Err(e),
            Ok(d) => match password_verdict(password) {
                Err(e) => Err(e),
                Ok(p) => Ok(
                    (
                        u,
                        d,
                        base64_url_encoding(salt),
                        base64_url_encoding(pbkdf2_sha256(p, salt, PASSWORD_ITERATIONS)),
                    ),
                ),
            },
        },
    }
}

impl UserRecord {
    /// The record's four fields.
    pub open spec fn fields(self) -> (Seq<char>, Seq<char>, Seq<char>, Seq<char>) {
        (self.username@, self.display_name@, self.password_salt_b64@, self.password_hash_b64@)
    }
}

/// A user record whose salt is `salt`.
pub fn new_user_record_with_salt(payload: RegisterRequest, salt: &[u8; 16]) -> (r: Result<UserRecord, String>)
    ensures
        match user_record_verdict(payload.username@, payload.password@, payload.display_name@, salt@) {
            Ok(fields) => r matches Ok(user) && user.fields() == fields,
            Err(e) => r matches Err(d) && d@ == e,
        },
        r matches Ok(user) ==> authentication_verdict(user.fields(), payload.username@, payload.password@)
            == Ok::<(), Seq<char>>(()),
{
    let username = match normalize_username(payload.username.as_str()) {
        Ok(u) => u,
        Err(e) => return Err(e),
    };
    let display_name = match normalize_display_name(payload.display_name.as_str()) {
        Ok(d) => d,
        Err(e) => return Err(e),
    };
    let password = match validate_password(payload.password.as_str()) {
        Ok(p) => p,
        Err(e) => return Err(e),
    };
    let hash = hash_password(password.as_str(), salt);
    Ok(UserRecord {
        username,
        display_name,
        password_salt_b64: base64_url_encode(salt),
        password_hash_b64: base64_url_encode(&hash),
    })
}

/// A user record for a registration, with a fresh 16-byte salt from the
/// operating system's generator. Whatever salt came, the result is what
/// `new_user_record_with_salt` gives for it.
pub fn new_user_record(payload: RegisterRequest) -> (r: Result<UserRecord, String>)
    ensures
        exists|salt: Seq<u8>|
            #![trigger user_record_verdict(payload.username@, payload.password@, payload.display_name@, salt)]
            salt.len() == 16 && match user_record_verdict(
                payload.username@,
                payload.password@,
                payload.display_name@,
                salt,
            ) {
                Ok(fields) => r matches Ok(user) && user.fields() == fields,
                Err(e) => r matches Err(d) && d@ == e,
            },
        r matches Ok(user) ==> authentication_verdict(user.fields(), payload.username@, payload.password@)
            == Ok::<(), Seq<char>>(()),
{
    let bytes = os_random_bytes(16);
    let salt = array16(&bytes);
    new_user_record_with_salt(payload, &salt)
}

/// The detail given for stored credentials that do not decode.
pub open spec fn invalid_credentials_error() -> Seq<char> {
    "Stored credential data is invalid."@
}

/// The detail given for a wrong username or password.
pub open spec fn wrong_credentials_error() -> Seq<char> {
    "Invalid username or password."@
}

/// The 16 bytes that `encoded` decodes to, if it decodes to exactly 16.
pub fn decode_fixed16(encoded: &str) -> (r: Result<[u8; 16], String>)
    ensures
        match r {
            Ok(a) => base64_url_decoding(encoded@) == Some(a@),
            Err(e) => e@ == invalid_credentials_error() && !(base64_url_decoding(encoded@) matches Some(b)
                && b.len() == 16),
        },
{
    match base64_url_decode(encoded) {
        None => Err(String::from_str("Stored credential data is invalid.")),
        Some(bytes) => if bytes.len() == 16 {
            Ok(array16(&bytes))
        } else {
            Err(String::from_str("Stored credential data is invalid."))
        },
    }
}

/// The 32 bytes that `encoded` decodes to, if it decodes to exactly 32.
pub fn decode_fixed32(encoded: &str) -> (r: Result<[u8; 32], String>)
    ensures
        match r {
            Ok(a) => base64_url_decoding(encoded@) == Some(a@),
            Err(e) => e@ == invalid_credentials_error() && !(base64_url_decoding(encoded@) matches Some(b)
                && b.len() == 32),
        },
{
    match base64_url_decode(encoded) {
        None => Err(String::from_str("Stored credential data is invalid.")),
        Some(bytes) => if bytes.len() == 32 {
            Ok(array32(&bytes))
        } else {
            Err(String::from_str("Stored credential data is invalid."))
        },
    }
}

/// What `authenticate_user` decides for the stored `user` and a login with
/// `username` and `password`.
pub open spec fn authentication_verdict(
    user: (Seq<char>, Seq<char>, Seq<char>, Seq<char>),
    username: Seq<char>,
    password: Seq<char>,
) -> Result<(), Seq<char>> {
    match username_verdict(username, username_charset_error()) {
        Err(e) => Err(e),
        Ok(u) => match password_verdict(password) {
            Err(e) => Err(e),
            Ok(p) => if u != user.0 {
                Err(wrong_credentials_error())
            } else {
                match base64_url_decoding(user.2) {
                    Some(salt) if salt.len() == 16 => match base64_url_decoding(user.3) {
                        Some(expected) if expected.len() == 32 => if expected == pbkdf2_sha256(
                            p,
                            salt,
                            PASSWORD_ITERATIONS,
                        ) {
                            Ok(())
                        } else {
                            Err(wrong_credentials_error())
                        },
                        _ => Err(invalid_credentials_error()),
                    },
                    _ => Err(invalid_credentials_error()),
                }
            },
        },
    }
}

/// Checks a login against a stored user: the normalized username must be the
/// user's, and the password's digest with the stored salt must equal the
/// stored digest (compared in constant time).
pub fn authenticate_user(user: &UserRecord, payload: &LoginRequest) -> (r: Result<(), String>)
    ensures
        match authentication_verdict(user.fields(), payload.username@, payload.password@) {
            Ok(()) => r is Ok,
            Err(e) => r matches Err(d) && d@ == e,
        },
{
    let username = match normalize_username(payload.username.as_str()) {
        Ok(u) => u,
        Err(e) => return Err(e),
    };
    let password = match validate_password(payload.password.as_str()) {
        Ok(p) => p,
        Err(e) => return Err(e),
    };
    if username != user.username {
        return Err(String::from_str("Invalid username or password."));
    }
    let salt = match decode_fixed16(user.password_salt_b64.as_str()) {
        Ok(s) => s,
        Err(e) => return Err(e),
    };
    let expected = match decode_fixed32(user.password_hash_b64.as_str()) {
        Ok(h) => h,
        Err(e) => return Err(e),
    };
    let supplied = hash_password(password.as_str(), &salt);
    if constant_time_eq(&expected, &supplied) {
        Ok(())
    } else {
        Err(String::from_str("Invalid username or password."))
    }
}

/// What a session record holds when `policy` gives a session started at `now`
/// the token `raw_token`: `None` where the expiry is beyond `chrono`'s range.
pub open spec fn session_record_matches(
    r: Option<SessionRecord>,
    user: UserRecord,
    raw_token: Seq<u8>,
    now: UtcTime,
    ttl: i64,
) -> bool {
    match plus_seconds_spec(now, ttl) {
        None => r is None,
        Some(expiry) => r matches Some(s) && s.token@ == base64_url_encoding(raw_token) && s.token@.len() == (4
            * raw_token.len() + 2) / 3 && s.expires_at@.len() > 0 && (in_four_digit_years(expiry.secs)
            ==> rfc3339_seconds(s.expires_at@) == Some(expiry.secs)) && s.username@
            == user.username@ && s.display_name@ == user.display_name@ && s.expires_at@ == rfc3339_text(
            expiry.secs,
            expiry.nanos,
        ),
    }
}

/// A session record for `user` with the token `raw_token` (encoded as URL-safe
/// base64), expiring `policy`'s lifetime after `now`.
pub fn new_session_record_at(user: &UserRecord, raw_token: &[u8; 32], now: UtcTime, policy: SessionPolicy) -> (r: Option<SessionRecord>)
    requires
        now.representable(),
    ensures
        session_record_matches(r, *user, raw_token@, now, policy.ttl()),
{
    match policy.expires_at_from(now) {
        None => None,
        Some(expiry) => Some(SessionRecord {
            token: base64_url_encode(raw_token),
            username: user.username.clone(),
            display_name: user.display_name.clone(),
            expires_at: to_rfc3339(expiry),
        }),
    }
}

/// A session record for `user` under `policy`, with a fresh 32-byte token
/// from the operating system's generator and the current time; `None` only
/// where the expiry is beyond `chrono`'s range, where `chrono` panics.
pub fn new_session_record_with_policy(user: &UserRecord, policy: SessionPolicy) -> (r: Option<SessionRecord>)
    ensures
        r matches Some(s) ==> s.token@.len() == 43 && s.expires_at@.len() > 0,
        exists|raw_token: Seq<u8>, now: UtcTime|
            raw_token.len() == 32 && now.representable() && #[trigger] session_record_matches(
                r,
                *user,
                raw_token,
                now,
                policy.ttl(),
            ),
{
    let bytes = os_random_bytes(32);
    let raw_token = array32(&bytes);
    let now = utc_now();
    new_session_record_at(user, &raw_token, now, policy)
}

/// A session record for `user` with the default lifetime.
pub fn new_session_record(user: &UserRecord) -> (r: Option<SessionRecord>)
    ensures
        r matches Some(s) ==> s.token@.len() == 43 && s.expires_at@.len() > 0,
        exists|raw_token: Seq<u8>, now: UtcTime|
            raw_token.len() == 32 && now.representable() && #[trigger] session_record_matches(
                r,
                *user,
                raw_token,
                now,
                crate::DEFAULT_SESSION_TTL_SECONDS,
            ),
{
    match SessionPolicy::from_ttl_seconds(crate::DEFAULT_SESSION_TTL_SECONDS) {
        Ok(policy) => new_session_record_with_policy(user, policy),
        Err(_) => None,
    }
}

/// Validates a chat frame sent over the serverless websocket route; the
/// rules are those of `parse_and_validate_chat_text`.
pub fn parse_and_validate(raw: &str) -> (r: Result<Option<String>, &'static str>)
    ensures
        verdict_view(r) == chat_text_verdict_of(raw@),
{
    parse_and_validate_chat_text(raw)
}

/// The detail given for an `Authorization` value that is not a bearer token.
pub open spec fn bearer_error() -> Seq<char> {
    "Authorization must use a bearer token."@
}

/// The token of an `Authorization` value `value`: the part after the first
/// space, trimmed, where the part before it is `bearer` in any ASCII case and
/// the token is not blank.
pub open spec fn bearer_token_of(value: Seq<char>) -> Option<Seq<char>> {
    match value.index_of_first(' ') {
        None => None,
        Some(i) => {
            let scheme = value.subrange(0, i);
            let token = trim(value.subrange(i + 1, value.len() as int));
            if eq_ignore_ascii_case(scheme, "bearer"@) && token.len() > 0 {
                Some(token)
            } else {
                None
            }
        },
    }
}

/// The bearer token of an `Authorization` header value.
pub fn bearer_token(value: &str) -> (r: Option<String>)
    ensures
        match bearer_token_of(value@) {
            Some(t) => r matches Some(s) && s@ == t,
            None => r is None,
        },
{
    let chars = chars_of(value);
    match find_char(&chars, ' ') {
        None => None,
        Some(i) => {
            let bearer = chars_of("bearer");
            if !chars_eq_ignore_ascii_case(&chars, 0, i, &bearer) {
                return None;
            }
            let rest = value.substring_char(i + 1, chars.len());
            let token = trim_str(rest);
            if token.unicode_len() == 0 {
                return None;
            }
            Some(String::from_str(token))
        },
    }
}

/// The bearer token of an `Authorization` header value, or the detail
/// "Authorization must use a bearer token.".
pub fn extract_bearer_token(value: &str) -> (r: Result<String, String>)
    ensures
        match bearer_token_of(value@) {
            Some(t) => r matches Ok(s) && s@ == t,
            None => r matches Err(e) && e@ == bearer_error(),
        },
{
    match bearer_token(value) {
        Some(t) => Ok(t),
        None => Err(String::from_str("Authorization must use a bearer token.")),
    }
}

/// The answer of a websocket route: `status_code` with `message` as body.
pub fn ws_response(status_code: i64, message: &str) -> (r: WebsocketRouteResponse)
    ensures
        r.status_code == status_code,
        r.body@ == message@,
        !r.is_base64_encoded,
{
    WebsocketRouteResponse { status_code, body: String::from_str(message), is_base64_encoded: false }
}

impl SessionResponse {
    /// The response field by field from a session record.
    pub open spec fn of_record(value: SessionRecord) -> SessionResponse {
        SessionResponse {
            token: value.token,
            username: value.username,
            display_name: value.display_name,
            expires_at: value.expires_at,
        }
    }
}

impl From<SessionRecord> for SessionResponse {
    fn from(value: SessionRecord) -> (r: Self) {
        SessionResponse {
            token: value.token,
            username: value.username,
            display_name: value.display_name,
            expires_at: value.expires_at,
        }
    }
}

impl vstd::std_specs::convert::FromSpecImpl<SessionRecord> for SessionResponse {
    open spec fn obeys_from_spec() -> bool {
        true
    }

    open spec fn from_spec(v: SessionRecord) -> SessionResponse {
        SessionResponse::of_record(v)
    }
}

/// A session as stored in DynamoDB, with its expiry also as a Unix second for
/// the table's time-to-live.
#[derive(Clone, Debug)]
pub struct StoredSessionRecord {
    pub token: String,
    pub username: String,
    pub display_name: String,
    pub expires_at: String,
    pub expires_at_epoch: i64,
}

impl StoredSessionRecord {
    /// The stored form of `value`; refused where its expiry is not RFC 3339 text.
    pub fn from_session(value: SessionRecord) -> (r: Result<StoredSessionRecord, String>)
        ensures
            match rfc3339_seconds(value.expires_at@) {
                None => r matches Err(e) && e@ == "Session expiry timestamp is invalid."@,
                Some(epoch) => r matches Ok(stored) && stored.token == value.token && stored.username
                    == value.username && stored.display_name == value.display_name
                    && stored.expires_at == value.expires_at && stored.expires_at_epoch == epoch,
            },
    {
        match parse_rfc3339_seconds(value.expires_at.as_str()) {
            None => Err(String::from_str("Session expiry timestamp is invalid.")),
            Some(epoch) => Ok(StoredSessionRecord {
                token: value.token,
                username: value.username,
                display_name: value.display_name,
                expires_at: value.expires_at,
                expires_at_epoch: epoch,
            }),
        }
    }

    /// Whether the session is still live at the Unix second `now_epoch`: it
    /// expires once its expiry second is reached.
    pub fn is_live_at(&self, now_epoch: i64) -> (r: bool)
        ensures
            r == (self.expires_at_epoch > now_epoch),
    {
        self.expires_at_epoch > now_epoch
    }

    /// The session record that the stored form carries.
    pub fn into_session(self) -> (r: SessionRecord)
        ensures
            r.token == self.token,
            r.username == self.username,
            r.display_name == self.display_name,
            r.expires_at == self.expires_at,
    {
        SessionRecord {
            token: self.token,
            username: self.username,
            display_name: self.display_name,
            expires_at: self.expires_at,
        }
    }
}

impl ChatEnvelope {
    /// A system notice stamped with the current time.
    pub fn system(text: String) -> (r: ChatEnvelope)
        ensures
            r.event_type@ == "system"@,
            r.sender is None,
            r.text == text,
            exists|now: UtcTime| now.representable() && r.sent_at@ == rfc3339_text(now.secs, now.nanos),
    {
        let now = utc_now();
        ChatEnvelope {
            event_type: String::from_str("system"),
            sender: None,
            text,
            sent_at: to_rfc3339(now),
        }
    }

    /// A chat message from `sender`, stamped with the current time.
    pub fn message(sender: String, text: String) -> (r: ChatEnvelope)
        ensures
            r.event_type@ == "message"@,
            r.sender == Some(sender),
            r.text == text,
            exists|now: UtcTime| now.representable() && r.sent_at@ == rfc3339_text(now.secs, now.nanos),
    {
        let now = utc_now();
        ChatEnvelope {
            event_type: String::from_str("message"),
            sender: Some(sender),
            text,
            sent_at: to_rfc3339(now),
        }
    }
}

/// A refused request to the serverless auth routes: the HTTP status and the
/// detail for the JSON body.
#[derive(Debug)]
pub struct AuthRefusal {
    pub status: u16,
    pub detail: String,
}

/// The register route's first step: the user record built from the request,
/// or a 400 answer with the first failing check's detail.
pub fn register_request(payload: RegisterRequest) -> (r: Result<UserRecord, AuthRefusal>)
    ensures
        exists|salt: Seq<u8>|
            #![trigger user_record_verdict(payload.username@, payload.password@, payload.display_name@, salt)]
            salt.len() == 16 && match user_record_verdict(
                payload.username@,
                payload.password@,
                payload.display_name@,
                salt,
            ) {
                Ok(fields) => r matches Ok(user) && user.fields() == fields,
                Err(e) => r matches Err(x) && x.status == 400 && x.detail@ == e,
            },
{
    match new_user_record(payload) {
        Ok(user) => Ok(user),
        Err(detail) => Err(AuthRefusal { status: 400, detail }),
    }
}

/// The register route's step once the users table said whether the username
/// is `taken`: the record to store, or a 400 answer.
pub fn register_after_lookup(user: UserRecord, taken: bool) -> (r: Result<UserRecord, AuthRefusal>)
    ensures
        taken ==> (r matches Err(x) && x.status == 400 && x.detail@ == "Username is already registered."@),
        !taken ==> r == Ok::<UserRecord, AuthRefusal>(user),
{
    if taken {
        Err(AuthRefusal { status: 400, detail: String::from_str(USERNAME_TAKEN) })
    } else {
        Ok(user)
    }
}

/// The login route's first step: the username to look up, or a 400 answer.
pub fn login_request(payload: &LoginRequest) -> (r: Result<String, AuthRefusal>)
    ensures
        match username_verdict(payload.username@, username_charset_error()) {
            Ok(u) => r matches Ok(x) && x@ == u,
            Err(e) => r matches Err(x) && x.status == 400 && x.detail@ == e,
        },
{
    match normalize_username(payload.username.as_str()) {
        Ok(u) => Ok(u),
        Err(detail) => Err(AuthRefusal { status: 400, detail }),
    }
}

/// The login route's step once the users table answered with `stored`: the
/// user to start a session for, or a 401 answer that reads the same for an
/// unknown user and a wrong password.
pub fn login_after_lookup(payload: &LoginRequest, stored: Option<UserRecord>) -> (r: Result<UserRecord, AuthRefusal>)
    ensures
        match stored {
            None => r matches Err(x) && x.status == 401 && x.detail@ == "Invalid username or password."@,
            Some(user) => match authentication_verdict(user.fields(), payload.username@, payload.password@) {
                Ok(()) => r matches Ok(u) && u == user,
                Err(_) => r matches Err(x) && x.status == 401 && x.detail@ == "Invalid username or password."@,
            },
        },
{
    match stored {
        None => Err(AuthRefusal { status: 401, detail: String::from_str(INVALID_LOGIN) }),
        Some(user) => {
            if authenticate_user(&user, payload).is_ok() {
                Ok(user)
            } else {
                Err(AuthRefusal { status: 401, detail: String::from_str(INVALID_LOGIN) })
            }
        },
    }
}

/// The logout route's first step: the bearer token of the `Authorization`
/// value (empty where the header is missing or unreadable), or a 401 answer.
pub fn logout_request(authorization: &str) -> (r: Result<String, AuthRefusal>)
    ensures
        match bearer_token_of(authorization@) {
            Some(t) => r matches Ok(x) && x@ == t,
            None => r matches Err(x) && x.status == 401 && x.detail@ == bearer_error(),
        },
{
    match extract_bearer_token(authorization) {
        Ok(t) => Ok(t),
        Err(detail) => Err(AuthRefusal { status: 401, detail }),
    }
}

/// The detail given when a username is taken.
pub const USERNAME_TAKEN: &'static str = "Username is already registered.";

/// The detail given for a failed login.
pub const INVALID_LOGIN: &'static str = "Invalid username or password.";

/// The detail given for an unknown HTTP route.
pub const ROUTE_NOT_FOUND: &'static str = "Route not found.";

/// The HTTP routes of the authentication function.
#[derive(Clone, Copy, Debug, PartialEq, Eq, Structural)]
pub enum AuthRoute {
    Register,
    Login,
    Logout,
    NotFound,
}

/// Whether two strings hold the same characters.
pub fn same_text(a: &str, b: &str) -> (r: bool)
    ensures
        r == (a@ == b@),
{
    String::from_str(a) == String::from_str(b)
}

/// The route that `method` and `path` select: `POST` on `/auth/register`,
/// `/auth/login` or `/auth/logout`, and no route otherwise.
pub fn route_auth_request(method: &str, path: &str) -> (r: AuthRoute)
    ensures
        r == (if method@ != "POST"@ {
            AuthRoute::NotFound
        } else if path@ == "/auth/register"@ {
            AuthRoute::Register
        } else if path@ == "/auth/login"@ {
            AuthRoute::Login
        } else if path@ == "/auth/logout"@ {
            AuthRoute::Logout
        } else {
            AuthRoute::NotFound
        }),
{
    if !same_text(method, "POST") {
        AuthRoute::NotFound
    } else if same_text(path, "/auth/register") {
        AuthRoute::Register
    } else if same_text(path, "/auth/login") {
        AuthRoute::Login
    } else if same_text(path, "/auth/logout") {
        AuthRoute::Logout
    } else {
        AuthRoute::NotFound
    }
}

/// The table name for a deployment: the configured `env_value` unless, on
/// a local deployment, it is the template's logical id or missing, in which
/// case `local_name`; `default_name` where nothing is configured elsewhere.
pub open spec fn table_name_spec(
    env_value: Option<Seq<char>>,
    local_logical_id: Seq<char>,
    local_name: Seq<char>,
    default_name: Seq<char>,
    local_mode: bool,
) -> Seq<char> {
    match env_value {
        Some(v) => if local_mode && v == local_logical_id {
            local_name
        } else {
            v
        },
        None => if local_mode {
            local_name
        } else {
            default_name
        },
    }
}

pub open spec fn option_str_view(o: Option<&str>) -> Option<Seq<char>> {
    match o {
        Some(s) => Some(s@),
        None => None,
    }
}

/// The name of a table, from the value of its environment variable (`None`
/// where unset or not Unicode).
pub fn resolve_table_name(
    env_value: Option<&str>,
    local_logical_id: &str,
    local_name: &str,
    default_name: &str,
    local_mode: bool,
) -> (r: String)
    ensures
        r@ == table_name_spec(
            option_str_view(env_value),
            local_logical_id@,
            local_name@,
            default_name@,
            local_mode,
        ),
{
    match env_value {
        Some(v) => if local_mode && same_text(v, local_logical_id) {
            String::from_str(local_name)
        } else {
            String::from_str(v)
        },
        None => if local_mode {
            String::from_str(local_name)
        } else {
            String::from_str(default_name)
        },
    }
}

impl DynamoLayout {
    /// The layout from the values of `USERS_TABLE`, `SESSIONS_TABLE` and
    /// `CONNECTIONS_TABLE`; `local_mode` holds under SAM local or with a local
    /// DynamoDB endpoint.
    pub fn from_env_values(
        users_table: Option<&str>,
        sessions_table: Option<&str>,
        connections_table: Option<&str>,
        local_mode: bool,
    ) -> (r: DynamoLayout)
        ensures
            r.users_table@ == table_name_spec(
                option_str_view(users_table),
                "UsersTable"@,
                "simple-chat-users-local"@,
                "simple-chat-users"@,
                local_mode,
            ),
            r.sessions_table@ == table_name_spec(
                option_str_view(sessions_table),
                "SessionsTable"@,
                "simple-chat-sessions-local"@,
                "simple-chat-sessions"@,
                local_mode,
            ),
            r.connections_table@ == table_name_spec(
                option_str_view(connections_table),
                "ConnectionsTable"@,
                "simple-chat-connections-local"@,
                "simple-chat-connections"@,
                local_mode,
            ),
    {
        DynamoLayout {
            users_table: resolve_table_name(
                users_table,
                "UsersTable",
                "simple-chat-users-local",
                "simple-chat-users",
                local_mode,
            ),
            sessions_table: resolve_table_name(
                sessions_table,
                "SessionsTable",
                "simple-chat-sessions-local",
                "simple-chat-sessions",
                local_mode,
            ),
            connections_table: resolve_table_name(
                connections_table,
                "ConnectionsTable",
                "simple-chat-connections-local",
                "simple-chat-connections",
                local_mode,
            ),
        }
    }
}

/// Static credentials to hand the AWS configuration loader.
#[derive(Clone, Debug)]
pub struct CredentialsPlan {
    pub access_key_id: String,
    pub secret_access_key: String,
    pub provider_name: String,
}

/// The region and credentials to configure the AWS SDK with; `None` leaves
/// the loader's default chain in place.
#[derive(Clone, Debug)]
pub struct SharedConfigPlan {
    pub region: Option<String>,
    pub credentials: Option<CredentialsPlan>,
}

/// The SDK configuration for the values of `AWS_REGION`, `AWS_ACCESS_KEY_ID`
/// and `AWS_SECRET_ACCESS_KEY`: a local deployment defaults the region to
/// `us-east-1` and the keys to `local`; elsewhere keys are used only where both are set.
pub fn plan_shared_config(
    region: Option<&str>,
    access_key_id: Option<&str>,
    secret_access_key: Option<&str>,
    local_mode: bool,
) -> (r: SharedConfigPlan)
    ensures
        match region {
            Some(v) => r.region matches Some(x) && x@ == v@,
            None => if local_mode {
                r.region matches Some(x) && x@ == "us-east-1"@
            } else {
                r.region is None
            },
        },
        local_mode ==> (r.credentials matches Some(c) && c.provider_name@ == "local"@
            && c.access_key_id@ == (match access_key_id {
            Some(a) => a@,
            None => "local"@,
        }) && c.secret_access_key@ == (match secret_access_key {
            Some(k) => k@,
            None => "local"@,
        })),
        !local_mode ==> match (access_key_id, secret_access_key) {
            (Some(a), Some(k)) => r.credentials matches Some(c) && c.provider_name@ == "env"@
                && c.access_key_id@ == a@ && c.secret_access_key@ == k@,
            _ => r.credentials is None,
        },
{
    let region_choice = match region {
        Some(v) => Some(String::from_str(v)),
        None => if local_mode {
            Some(String::from_str("us-east-1"))
        } else {
            None
        },
    };
    let credentials = if local_mode {
        Some(
            CredentialsPlan {
                access_key_id: match access_key_id {
                    Some(a) => String::from_str(a),
                    None => String::from_str("local"),
                },
                secret_access_key: match secret_access_key {
                    Some(k) => String::from_str(k),
                    None => String::from_str("local"),
                },
                provider_name: String::from_str("local"),
            },
        )
    } else {
        match (access_key_id, secret_access_key) {
            (Some(a), Some(k)) => Some(
                CredentialsPlan {
                    access_key_id: String::from_str(a),
                    secret_access_key: String::from_str(k),
                    provider_name: String::from_str("env"),
                },
            ),
            _ => None,
        }
    };
    SharedConfigPlan { region: region_choice, credentials }
}

/// The DynamoDB endpoint: `DYNAMODB_ENDPOINT` where set, the host's local
/// DynamoDB under SAM local, and the SDK's own endpoint otherwise (`None`).
pub fn dynamodb_endpoint(configured: Option<&str>, sam_local: bool) -> (r: Option<String>)
    ensures
        match configured {
            Some(e) => r matches Some(x) && x@ == e@,
            None => if sam_local {
                r matches Some(x) && x@ == "http://host.docker.internal:8001"@
            } else {
                r is None
            },
        },
{
    match configured {
        Some(e) => Some(String::from_str(e)),
        None => if sam_local {
            Some(String::from_str("http://host.docker.internal:8001"))
        } else {
            None
        },
    }
}

/// The API Gateway management endpoint: `WEBSOCKET_MANAGEMENT_ENDPOINT` where
/// it is set and not blank, the host's local gateway under SAM local, else
/// `https://{domain_name}/{stage}` from the request where both are known.
pub fn management_endpoint(
    configured: Option<&str>,
    sam_local: bool,
    domain_name: Option<&str>,
    stage: Option<&str>,
) -> (r: Option<String>)
    ensures
        (configured matches Some(e) && trim(e@).len() > 0) ==> (r matches Some(x) && x@
            == configured->0@),
        !(configured matches Some(e) && trim(e@).len() > 0) ==> if sam_local {
            r matches Some(x) && x@ == "http://host.docker.internal:3001"@
        } else {
            match (domain_name, stage) {
                (Some(d), Some(s)) => r matches Some(x) && x@ == "https://"@ + d@ + "/"@ + s@,
                _ => r is None,
            }
        },
{
    if let Some(e) = configured {
        if trim_str(e).unicode_len() > 0 {
            return Some(String::from_str(e));
        }
    }
    if sam_local {
        return Some(String::from_str("http://host.docker.internal:3001"));
    }
    match (domain_name, stage) {
        (Some(d), Some(s)) => {
            let url = String::from_str("https://").concat(d).concat("/").concat(s);
            Some(url)
        },
        _ => None,
    }
}

/// Whether a failed post to a connection says the connection is gone
/// (`GoneException` or status `410` in its text).
pub fn is_gone_error(error_text: &str) -> (r: bool)
    ensures
        r == (contains_seq(error_text@, "GoneException"@) || contains_seq(error_text@, "410"@)),
{
    contains_str(error_text, "GoneException") || contains_str(error_text, "410")
}

/// Whether a failed table creation says the table already exists.
pub fn is_resource_in_use(error_text: &str) -> (r: bool)
    ensures
        r == contains_seq(error_text@, "ResourceInUseException"@),
{
    contains_str(error_text, "ResourceInUseException")
}

/// The connection id of a websocket request, `unknown` where it has none.
pub fn connection_id_or_unknown(connection_id: Option<String>) -> (r: String)
    ensures
        match connection_id {
            Some(id) => r == id,
            None => r@ == "unknown"@,
        },
{
    match connection_id {
        Some(id) => id,
        None => String::from_str("unknown"),
    }
}

/// The session token of a websocket connect request: its `token` query
/// parameter, trimmed, or a 401 answer where that is missing or blank.
pub fn connect_token(token: Option<&str>) -> (r: Result<String, WebsocketRouteResponse>)
    ensures
        match token {
            Some(t) if trim(t@).len() > 0 => r matches Ok(x) && x@ == trim(t@),
            _ => r matches Err(resp) && resp.status_code == 401 && resp.body@
                == "Missing token for websocket connection."@ && !resp.is_base64_encoded,
        },
{
    if let Some(t) = token {
        let trimmed = trim_str(t);
        if trimmed.unicode_len() > 0 {
            return Ok(String::from_str(trimmed));
        }
    }
    Err(ws_response(401, "Missing token for websocket connection."))
}

/// What the connect route does once the session is looked up.
pub enum ConnectDecision {
    /// Refuse the connection with this answer.
    Reject(WebsocketRouteResponse),
    /// Store `connection`, fan out `announcement`, then answer `reply`.
    Accept { connection: ConnectionRecord, announcement: ChatEnvelope, reply: WebsocketRouteResponse },
}

/// The connect route's decision for `connection_id` given the live session
/// found for the token, if any.
pub fn connect_decision(connection_id: String, session: Option<SessionRecord>) -> (r: ConnectDecision)
    ensures
        match session {
            None => r matches ConnectDecision::Reject(resp) && resp.status_code == 401 && resp.body@
                == "Authentication required or session expired."@ && !resp.is_base64_encoded,
            Some(s) => r matches ConnectDecision::Accept { connection, announcement, reply } && connection.connection_id
                == connection_id && connection.username == s.username && connection.display_name
                == s.display_name && is_rfc3339_stamp(connection.connected_at@)
                && announcement.event_type@ == "system"@ && announcement.sender is None
                && announcement.text@ == s.display_name@ + " joined the chat"@ && is_rfc3339_stamp(announcement.sent_at@)
                && reply.status_code == 200
                && reply.body@ == "Connect accepted."@ && !reply.is_base64_encoded,
        },
{
    match session {
        None => ConnectDecision::Reject(ws_response(401, "Authentication required or session expired.")),
        Some(s) => {
            let now = utc_now();
            let connection = ConnectionRecord {
                connection_id,
                username: s.username,
                display_name: s.display_name.clone(),
                connected_at: to_rfc3339(now),
            };
            let announcement = ChatEnvelope::system(s.display_name.concat(" joined the chat"));
            ConnectDecision::Accept { connection, announcement, reply: ws_response(200, "Connect accepted.") }
        },
    }
}

/// The disconnect route's decision once the connection is removed: a notice
/// to fan out where the connection was registered, and the answer.
pub fn disconnect_decision(connection: Option<ConnectionRecord>) -> (r: (Option<ChatEnvelope>, WebsocketRouteResponse))
    ensures
        r.1.status_code == 200,
        r.1.body@ == "Disconnect accepted."@,
        !r.1.is_base64_encoded,
        match connection {
            None => r.0 is None,
            Some(c) => r.0 matches Some(e) && e.event_type@ == "system"@ && e.sender is None && e.text@
                == c.display_name@ + " left the chat"@ && is_rfc3339_stamp(e.sent_at@),
        },
{
    let notice = match connection {
        None => None,
        Some(c) => Some(ChatEnvelope::system(c.display_name.concat(" left the chat"))),
    };
    (notice, ws_response(200, "Disconnect accepted."))
}

/// What the message route does.
pub enum SendDecision {
    /// Answer without fanning anything out.
    Reply(WebsocketRouteResponse),
    /// Fan out `envelope`, then answer `reply`.
    Broadcast { envelope: ChatEnvelope, reply: WebsocketRouteResponse },
}

/// The message route's decision for a frame `body` from the registered
/// `connection`, if any.
pub fn send_message_decision(connection: Option<ConnectionRecord>, body: &str) -> (r: SendDecision)
    ensures
        match connection {
            None => r matches SendDecision::Reply(resp) && resp.status_code == 401 && resp.body@
                == "Connection is not registered."@ && !resp.is_base64_encoded,
            Some(c) => match chat_text_verdict_of(body@) {
                Ok(Some(text)) => r matches SendDecision::Broadcast { envelope, reply }
                    && envelope.event_type@ == "message"@ && envelope.sender == Some(c.display_name)
                    && envelope.text@ == text && is_rfc3339_stamp(envelope.sent_at@) && reply.status_code == 200 && reply.body@
                    == "Message accepted."@ && !reply.is_base64_encoded,
                Ok(None) => r matches SendDecision::Reply(resp) && resp.status_code == 200 && resp.body@
                    == "Blank message ignored."@ && !resp.is_base64_encoded,
                Err(detail) => r matches SendDecision::Reply(resp) && resp.status_code == 400 && resp.body@
                    == detail && !resp.is_base64_encoded,
            },
        },
{
    match connection {
        None => SendDecision::Reply(ws_response(401, "Connection is not registered.")),
        Some(c) => match parse_and_validate(body) {
            Ok(Some(text)) => SendDecision::Broadcast {
                envelope: ChatEnvelope::message(c.display_name, text),
                reply: ws_response(200, "Message accepted."),
            },
            Ok(None) => SendDecision::Reply(ws_response(200, "Blank message ignored.")),
            Err(detail) => SendDecision::Reply(ws_response(400, detail)),
        },
    }
}

/// A session record just created, whose expiry falls in a year from 0 to
/// 9999, is accepted by `StoredSessionRecord::from_session` with its expiry
/// second as the stored epoch.
pub proof fn lemma_created_session_is_storable(
    r: Option<SessionRecord>,
    user: UserRecord,
    raw_token: Seq<u8>,
    now: UtcTime,
    ttl: i64,
)
    requires
        session_record_matches(r, user, raw_token, now, ttl),
        plus_seconds_spec(now, ttl) matches Some(expiry) && in_four_digit_years(expiry.secs),
    ensures
        r matches Some(s) && rfc3339_seconds(s.expires_at@) == Some(plus_seconds_spec(now, ttl)->Some_0.secs),
{
}

/// An accepted username is made only of ASCII letters (codes 65 to 90 and 97
/// to 122), digits (48 to 57), `-` and `_`,
/// holds 1 to 24 characters, and whatever detail is used for the character
/// set, the verdict on characters does not depend on it.
pub proof fn lemma_accepted_username_charset(raw: Seq<char>, charset_error: Seq<char>)
    requires
        username_verdict(raw, charset_error) is Ok,
    ensures
        ({
            let u = username_verdict(raw, charset_error)->Ok_0;
            &&& 1 <= u.len() <= 24
            &&& forall|i: int|
                0 <= i < u.len() ==> {
                    let c = #[trigger] u[i];
                    (97 <= c as u32 <= 122) || (65 <= c as u32 <= 90) || (48 <= c as u32 <= 57) || c == '-' || c == '_'
                }
        }),
{
    let u = username_verdict(raw, charset_error)->Ok_0;
    assert forall|i: int| 0 <= i < u.len() implies {
        let c = #[trigger] u[i];
        (97 <= c as u32 <= 122) || (65 <= c as u32 <= 90) || (48 <= c as u32 <= 57) || c == '-' || c == '_'
    } by {
        assert(is_username_char(u[i]));
    }
}

/// A username that holds a character other than an ASCII letter, digit, `-`
/// or `_` after trimming and lower-casing is refused with the character-set
/// detail; one of 1 to 24 lower-case ASCII letters, digits, `-` and `_` is
/// accepted as it is.
pub proof fn lemma_username_charset_decides(raw: Seq<char>, charset_error: Seq<char>, u: Seq<char>)
    ensures
        ({
            let l = lowercase_text(trim(raw));
            (1 <= l.len() <= 24 && exists|i: int|
                0 <= i < l.len() && {
                    let c = #[trigger] l[i];
                    !((97 <= c as u32 <= 122) || (65 <= c as u32 <= 90) || (48 <= c as u32 <= 57) || c == '-' || c == '_')
                }) ==> username_verdict(raw, charset_error) == Err::<Seq<char>, Seq<char>>(charset_error)
        }),
        (1 <= u.len() <= 24 && forall|i: int|
            0 <= i < u.len() ==> {
                let c = #[trigger] u[i];
                (97 <= c as u32 <= 122) || (48 <= c as u32 <= 57) || c == '-' || c == '_'
            }) ==> username_verdict(u, charset_error) == Ok::<Seq<char>, Seq<char>>(u),
{
    let l = lowercase_text(trim(raw));
    if 1 <= l.len() <= 24 && exists|i: int|
        0 <= i < l.len() && {
            let c = #[trigger] l[i];
            !((97 <= c as u32 <= 122) || (65 <= c as u32 <= 90) || (48 <= c as u32 <= 57) || c == '-' || c == '_')
        } {
        let i = choose|i: int|
            0 <= i < l.len() && {
                let c = #[trigger] l[i];
                !((97 <= c as u32 <= 122) || (65 <= c as u32 <= 90) || (48 <= c as u32 <= 57) || c == '-' || c == '_')
            };
        assert(!is_username_char(l[i]));
    }
    if 1 <= u.len() <= 24 && forall|i: int|
        0 <= i < u.len() ==> {
            let c = #[trigger] u[i];
            (97 <= c as u32 <= 122) || (48 <= c as u32 <= 57) || c == '-' || c == '_'
        } {
        assert forall|i: int| 0 <= i < u.len() implies is_username_char(#[trigger] u[i]) by {
            let c = u[i];
            assert((97 <= c as u32 <= 122) || (48 <= c as u32 <= 57) || c == '-' || c == '_');
        }
        assert forall|i: int| 0 <= i < u.len() implies !crate::text::is_ascii_upper(#[trigger] u[i]) by {
            let c = u[i];
            assert((97 <= c as u32 <= 122) || (48 <= c as u32 <= 57) || c == '-' || c == '_');
        }
        lemma_canonical_username_is_fixed(u);
    }
}

/// A username is refused as missing when nothing is left after trimming and
/// lower-casing, and as too long beyond 24 characters, counted as characters.
pub proof fn lemma_username_length_rules(raw: Seq<char>, charset_error: Seq<char>)
    ensures
        lowercase_text(trim(raw)).len() == 0 ==> username_verdict(raw, charset_error) == Err::<
            Seq<char>,
            Seq<char>,
        >("Username is required."@),
        lowercase_text(trim(raw)).len() > 24 ==> username_verdict(raw, charset_error) == Err::<
            Seq<char>,
            Seq<char>,
        >("Username must be at most 24 characters."@),
{
}

/// A password is accepted unchanged, spaces included, exactly when it holds
/// at least 8 characters, counted as characters.
pub proof fn lemma_password_needs_eight_characters(raw: Seq<char>)
    ensures
        raw.len() >= 8 ==> password_verdict(raw) == Ok::<Seq<char>, Seq<char>>(raw),
        raw.len() < 8 ==> password_verdict(raw) == Err::<Seq<char>, Seq<char>>(
            "Password must be at least 8 characters."@,
        ),
{
}

/// A display name is its trimmed text when that holds 1 to 48 characters,
/// counted as characters whatever their UTF-8 size; it is refused as empty
/// when nothing is left after trimming, and as too long beyond 48 characters.
pub proof fn lemma_display_name_limit_counts_characters(raw: Seq<char>)
    ensures
        0 < trim(raw).len() <= 48 ==> display_name_verdict(raw) == Ok::<Seq<char>, Seq<char>>(trim(raw)),
        trim(raw).len() == 0 ==> display_name_verdict(raw) == Err::<Seq<char>, Seq<char>>(
            "Display name is required."@,
        ),
        trim(raw).len() > 48 ==> display_name_verdict(raw) == Err::<Seq<char>, Seq<char>>(
            "Display name must be at most 48 characters."@,
        ),
{
}

/// A normalized display name normalizes to itself.
pub proof fn lemma_display_name_normalization_is_stable(raw: Seq<char>)
    requires
        display_name_verdict(raw) is Ok,
    ensures
        display_name_verdict(display_name_verdict(raw)->Ok_0) == display_name_verdict(raw),
{
    crate::text::lemma_trim_idempotent(raw);
}

/// A bearer token taken from a header is not blank and has no whitespace at
/// either end.
pub proof fn lemma_bearer_token_is_clean(value: Seq<char>)
    requires
        bearer_token_of(value) is Some,
    ensures
        bearer_token_of(value)->Some_0.len() > 0,
        trim(bearer_token_of(value)->Some_0) == bearer_token_of(value)->Some_0,
{
    let i = value.index_of_first(' ')->Some_0;
    crate::text::lemma_trim_idempotent(value.subrange(i + 1, value.len() as int));
}

} // verus!
