//! The self-hosted chat server: its user, session and message stores, origin
//! and bearer-token checks, and the decisions of its websocket sessions.

use vstd::prelude::*;

use crate::aws_lambda::{
    bearer_token, display_name_verdict, hash_password, normalize_display_name,
    normalize_username_with, password_verdict, pbkdf2_sha256, username_verdict,
    validate_password, PASSWORD_ITERATIONS,
};
use crate::clock::{is_rfc3339_stamp, plus_seconds_spec, rfc3339_text, to_rfc3339, utc_now, UtcTime};
use crate::crypto::{array16, array32, base64_url_encode, base64_url_encoding, constant_time_eq, os_random_bytes};
use crate::runtime_contract::SessionPolicy;
use crate::text_map::TextMap;

verus! {

/// The detail given for a username character outside the allowed set.
pub open spec fn local_username_charset_error() -> Seq<char> {
    "Username may only contain letters, numbers, '-' and '_'."@
}

/// The canonical form of a username, as the self-hosted server checks it.
pub fn normalize_username(raw: &str) -> (r: Result<String, String>)
    ensures
        crate::aws_lambda::text_result(r) == username_verdict(raw@, local_username_charset_error()),
        r matches Ok(u) ==> username_verdict(u@, local_username_charset_error()) == Ok::<Seq<char>, Seq<char>>(
            u@,
        ),
{
    normalize_username_with(raw, "Username may only contain letters, numbers, '-' and '_'.")
}

/// A registered user: the password is kept as its PBKDF2 digest and salt.
#[derive(Debug)]
pub struct UserRecord {
    pub username: String,
    pub display_name: String,
    pub password_salt: [u8; 16],
    pub password_hash: [u8; 32],
}

impl UserRecord {
    /// A copy of the record.
    pub fn duplicate(&self) -> (r: UserRecord)
        ensures
            r == *self,
    {
        UserRecord {
            username: self.username.clone(),
            display_name: self.display_name.clone(),
            password_salt: self.password_salt,
            password_hash: self.password_hash,
        }
    }
}

/// The detail given when a username is taken.
pub open spec fn username_taken() -> Seq<char> {
    "Username is already registered."@
}

/// The detail given for a failed login.
pub open spec fn invalid_login() -> Seq<char> {
    "Invalid username or password."@
}

/// Whether registering `username`, `password` and `display_name` with the
/// users `users` goes through: the normalized username, display name and
/// password, or the first check's detail. A username already registered is
/// refused.
pub open spec fn registration_verdict(
    users: Map<Seq<char>, UserRecord>,
    username: Seq<char>,
    password: Seq<char>,
    display_name: Seq<char>,
) -> Result<(Seq<char>, Seq<char>, Seq<char>), Seq<char>> {
    match username_verdict(username, local_username_charset_error()) {
        Err(e) => Err(e),
        Ok(u) => match display_name_verdict(display_name) {
            Err(e) => Err(e),
            Ok(d) => match password_verdict(password) {
                Err(e) => Err(e),
                Ok(p) => if users.contains_key(u) {
                    Err(username_taken())
                } else {
                    Ok((u, d, p))
                },
            },
        },
    }
}

/// What a login with `username` and `password` gives against `users`.
pub open spec fn authentication_verdict(
    users: Map<Seq<char>, UserRecord>,
    username: Seq<char>,
    password: Seq<char>,
) -> Result<UserRecord, Seq<char>> {
    match username_verdict(username, local_username_charset_error()) {
        Err(e) => Err(e),
        Ok(u) => match password_verdict(password) {
            Err(e) => Err(e),
            Ok(p) => if !users.contains_key(u) {
                Err(invalid_login())
            } else if users[u].password_hash@ == pbkdf2_sha256(
                p,
                users[u].password_salt@,
                PASSWORD_ITERATIONS,
            ) {
                Ok(users[u])
            } else {
                Err(invalid_login())
            },
        },
    }
}

/// The users registered with the server, by username.
pub struct UserStore {
    users: TextMap<UserRecord>,
}

impl View for UserStore {
    type V = Map<Seq<char>, UserRecord>;

    closed spec fn view(&self) -> Map<Seq<char>, UserRecord> {
        self.users.as_map()
    }
}

impl UserStore {
    /// A store without users.
    pub fn new() -> (s: UserStore)
        ensures
            s@ == Map::<Seq<char>, UserRecord>::empty(),
    {
        UserStore { users: TextMap::new() }
    }

    /// Registers a user whose password is hashed with `salt`: refused with the
    /// first failing check's detail, or where the username is taken, with the
    /// store unchanged.
    pub fn register_with_salt(&mut self, username: &str, password: &str, display_name: &str, salt: &[u8; 16]) -> (r: Result<UserRecord, String>)
        ensures
            match registration_verdict(old(self)@, username@, password@, display_name@) {
                Err(e) => r matches Err(x) && x@ == e && final(self)@ == old(self)@,
                Ok((u, d, p)) => r matches Ok(user) && user.username@ == u && user.display_name@ == d
                    && user.password_salt@ == salt@ && user.password_hash@ == pbkdf2_sha256(
                    p,
                    salt@,
                    PASSWORD_ITERATIONS,
                ) && final(self)@ == old(self)@.insert(u, user),
            },
    {
        let username = match normalize_username(username) {
            Ok(u) => u,
            Err(e) => return Err(e),
        };
        let display_name = match normalize_display_name(display_name) {
            Ok(d) => d,
            Err(e) => return Err(e),
        };
        let password = match validate_password(password) {
            Ok(p) => p,
            Err(e) => return Err(e),
        };
        if self.users.contains_key(username.as_str()) {
            return Err(String::from_str("Username is already registered."));
        }
        let password_hash = hash_password(password.as_str(), salt);
        let user = UserRecord { username: username.clone(), display_name, password_salt: *salt, password_hash };
        self.users.insert(username, user.duplicate());
        Ok(user)
    }

    /// Registers a user with a fresh 16-byte salt from the operating system's
    /// generator; whatever salt came, the outcome is that of `register_with_salt`.
    pub fn register(&mut self, username: &str, password: &str, display_name: &str) -> (r: Result<UserRecord, String>)
        ensures
            match registration_verdict(old(self)@, username@, password@, display_name@) {
                Err(e) => r matches Err(x) && x@ == e && final(self)@ == old(self)@,
                Ok((u, d, p)) => r matches Ok(user) && user.username@ == u && user.display_name@ == d
                    && user.password_hash@ == pbkdf2_sha256(p, user.password_salt@, PASSWORD_ITERATIONS)
                    && final(self)@ == old(self)@.insert(u, user),
            },
    {
        let bytes = os_random_bytes(16);
        let salt = array16(&bytes);
        self.register_with_salt(username, password, display_name, &salt)
    }

    /// Checks a login: the normalized username must be registered and the
    /// password's digest with the user's salt must equal the stored digest
    /// (compared in constant time).
    pub fn authenticate(&self, username: &str, password: &str) -> (r: Result<UserRecord, String>)
        ensures
            match authentication_verdict(self@, username@, password@) {
                Ok(user) => r == Ok::<UserRecord, String>(user),
                Err(e) => r matches Err(x) && x@ == e,
            },
    {
        let username = match normalize_username(username) {
            Ok(u) => u,
            Err(e) => return Err(e),
        };
        let password = match validate_password(password) {
            Ok(p) => p,
            Err(e) => return Err(e),
        };
        let user = match self.users.get(username.as_str()) {
            Some(u) => u.duplicate(),
            None => return Err(String::from_str("Invalid username or password.")),
        };
        let supplied_hash = hash_password(password.as_str(), &user.password_salt);
        if constant_time_eq(&user.password_hash, &supplied_hash) {
            Ok(user)
        } else {
            Err(String::from_str("Invalid username or password."))
        }
    }
}

/// A user registered with the hash of its password logs in with the same
/// username and password.
pub proof fn lemma_registered_user_authenticates(
    users: Map<Seq<char>, UserRecord>,
    username: Seq<char>,
    password: Seq<char>,
    display_name: Seq<char>,
    user: UserRecord,
)
    requires
        registration_verdict(users, username, password, display_name) is Ok,
        user.username@ == registration_verdict(users, username, password, display_name)->Ok_0.0,
        user.password_hash@ == pbkdf2_sha256(
            registration_verdict(users, username, password, display_name)->Ok_0.2,
            user.password_salt@,
            PASSWORD_ITERATIONS,
        ),
    ensures
        authentication_verdict(users.insert(user.username@, user), username, password) == Ok::<
            UserRecord,
            Seq<char>,
        >(user),
{
}

/// A login for a username nobody registered and a login whose password's
/// digest does not match the stored one are refused with the same detail.
pub proof fn lemma_login_refusals_look_alike(
    users: Map<Seq<char>, UserRecord>,
    unknown: Seq<char>,
    known: Seq<char>,
    password: Seq<char>,
)
    requires
        username_verdict(unknown, local_username_charset_error()) matches Ok(u) && !users.contains_key(u),
        username_verdict(known, local_username_charset_error()) matches Ok(k) && users.contains_key(k)
            && users[k].password_hash@ != pbkdf2_sha256(password, users[k].password_salt@, PASSWORD_ITERATIONS),
        password_verdict(password) is Ok,
    ensures
        authentication_verdict(users, unknown, password) == Err::<UserRecord, Seq<char>>(invalid_login()),
        authentication_verdict(users, known, password) == Err::<UserRecord, Seq<char>>(invalid_login()),
{
}

/// A username that is registered, in any spelling that normalizes to it, is
/// refused at registration.
pub proof fn lemma_registered_username_is_taken(
    users: Map<Seq<char>, UserRecord>,
    username: Seq<char>,
    password: Seq<char>,
    display_name: Seq<char>,
)
    requires
        username_verdict(username, local_username_charset_error()) matches Ok(u) && users.contains_key(u),
    ensures
        registration_verdict(users, username, password, display_name) is Err,
{
}

/// A signed-in session. Its expiry is a time that `chrono` can hold.
#[derive(Debug)]
pub struct SessionIdentity {
    token: String,
    username: String,
    display_name: String,
    expires_at: UtcTime,
}

impl SessionIdentity {
    #[verifier::type_invariant]
    spec fn expiry_representable(self) -> bool {
        self.expires_at.representable()
    }

    pub closed spec fn token_text(self) -> Seq<char> {
        self.token@
    }

    pub closed spec fn username_text(self) -> Seq<char> {
        self.username@
    }

    pub closed spec fn display_name_text(self) -> Seq<char> {
        self.display_name@
    }

    pub closed spec fn expiry(self) -> UtcTime {
        self.expires_at
    }

    /// The session's bearer token.
    pub fn token(&self) -> (r: &String)
        ensures
            r@ == self.token_text(),
    {
        &self.token
    }

    /// The signed-in user's username.
    pub fn username(&self) -> (r: &String)
        ensures
            r@ == self.username_text(),
    {
        &self.username
    }

    /// The signed-in user's display name.
    pub fn display_name(&self) -> (r: &String)
        ensures
            r@ == self.display_name_text(),
    {
        &self.display_name
    }

    /// When the session expires.
    pub fn expires_at(&self) -> (r: UtcTime)
        ensures
            r == self.expiry(),
            r.representable(),
    {
        proof {
            use_type_invariant(self);
        }
        self.expires_at
    }

    /// A copy of the session.
    pub fn duplicate(&self) -> (r: SessionIdentity)
        ensures
            r == *self,
    {
        proof {
            use_type_invariant(self);
        }
        SessionIdentity {
            token: self.token.clone(),
            username: self.username.clone(),
            display_name: self.display_name.clone(),
            expires_at: self.expires_at,
        }
    }
}

/// The outcome of looking `token` up at time `now` among `sessions`: an
/// expired session (one whose expiry is not after `now`) is dropped and not
/// returned.
pub open spec fn session_lookup(
    sessions: Map<Seq<char>, SessionIdentity>,
    token: Seq<char>,
    now: UtcTime,
) -> (Option<SessionIdentity>, Map<Seq<char>, SessionIdentity>) {
    if !sessions.contains_key(token) {
        (None, sessions)
    } else if sessions[token].expiry().not_after(now) {
        (None, sessions.remove(token))
    } else {
        (Some(sessions[token]), sessions)
    }
}

/// The signed-in sessions, by token, and the lifetime given to new ones.
pub struct SessionStore {
    sessions: TextMap<SessionIdentity>,
    session_ttl_seconds: i64,
}

impl View for SessionStore {
    type V = Map<Seq<char>, SessionIdentity>;

    closed spec fn view(&self) -> Map<Seq<char>, SessionIdentity> {
        self.sessions.as_map()
    }
}

impl SessionStore {
    /// The lifetime given to new sessions, in seconds.
    pub closed spec fn ttl(self) -> i64 {
        self.session_ttl_seconds
    }

    /// A store without sessions whose sessions live `session_ttl_seconds`.
    pub fn new(session_ttl_seconds: i64) -> (s: SessionStore)
        ensures
            s@ == Map::<Seq<char>, SessionIdentity>::empty(),
            s.ttl() == session_ttl_seconds,
    {
        SessionStore { sessions: TextMap::new(), session_ttl_seconds }
    }

    /// The lifetime given to new sessions, in seconds.
    pub fn session_ttl_seconds(&self) -> (r: i64)
        ensures
            r == self.ttl(),
    {
        self.session_ttl_seconds
    }

    /// Starts a session for `user` at `now` with the token `raw_token`
    /// (encoded as URL-safe base64), expiring the lifetime after `now`; `None`
    /// and no session where that expiry is beyond `chrono`'s range.
    pub fn create_at(&mut self, user: &UserRecord, raw_token: &[u8; 32], now: UtcTime) -> (r: Option<SessionIdentity>)
        requires
            old(self).ttl() > 0,
            now.representable(),
        ensures
            final(self).ttl() == old(self).ttl(),
            match plus_seconds_spec(now, old(self).ttl()) {
                None => r is None && final(self)@ == old(self)@,
                Some(expiry) => r matches Some(identity) && identity.token_text() == base64_url_encoding(
                    raw_token@,
                ) && identity.token_text().len() == 43 && identity.username_text() == user.username@ && identity.display_name_text()
                    == user.display_name@ && identity.expiry() == expiry && final(self)@ == old(
                    self,
                )@.insert(identity.token_text(), identity),
            },
    {
        let policy = match SessionPolicy::from_ttl_seconds(self.session_ttl_seconds) {
            Ok(p) => p,
            Err(_) => return None,
        };
        let expires_at = match policy.expires_at_from(now) {
            Some(t) => t,
            None => return None,
        };
        let token = base64_url_encode(raw_token);
        let identity = SessionIdentity {
            token: token.clone(),
            username: user.username.clone(),
            display_name: user.display_name.clone(),
            expires_at,
        };
        self.sessions.insert(token, identity.duplicate());
        Some(identity)
    }

    /// Starts a session for `user` with a fresh 32-byte token from the
    /// operating system's generator at the current time; whatever token and
    /// time came, the outcome is that of `create_at`.
    pub fn create(&mut self, user: &UserRecord) -> (r: Option<SessionIdentity>)
        requires
            old(self).ttl() > 0,
        ensures
            final(self).ttl() == old(self).ttl(),
            exists|now: UtcTime|
                #![trigger plus_seconds_spec(now, old(self).ttl())]
                now.representable() && match plus_seconds_spec(now, old(self).ttl()) {
                    None => r is None && final(self)@ == old(self)@,
                    Some(expiry) => r matches Some(identity) && identity.username_text() == user.username@
                        && identity.display_name_text() == user.display_name@ && identity.expiry()
                        == expiry && final(self)@ == old(self)@.insert(identity.token_text(), identity)
                        && identity.token_text().len() == 43 && (exists|raw_token: Seq<u8>|
                            raw_token.len() == 32 && identity.token_text() == #[trigger] base64_url_encoding(
                                raw_token,
                            )),
                },
    {
        let bytes = os_random_bytes(32);
        let raw_token = array32(&bytes);
        let now = utc_now();
        self.create_at(user, &raw_token, now)
    }

    /// Looks `token` up at time `now`, dropping the session if it has expired.
    pub fn get_at(&mut self, token: &str, now: UtcTime) -> (r: Option<SessionIdentity>)
        ensures
            final(self).ttl() == old(self).ttl(),
            (r, final(self)@) == session_lookup(old(self)@, token@, now),
    {
        let found = match self.sessions.get(token) {
            None => None,
            Some(identity) => Some(identity.duplicate()),
        };
        match found {
            None => None,
            Some(identity) => {
                if identity.expires_at.is_not_after(&now) {
                    self.sessions.remove(token);
                    None
                } else {
                    Some(identity)
                }
            },
        }
    }

    /// Looks `token` up at the current time, dropping the session if it has
    /// expired; whatever the time, the outcome is that of `get_at`.
    pub fn get(&mut self, token: &str) -> (r: Option<SessionIdentity>)
        ensures
            final(self).ttl() == old(self).ttl(),
            exists|now: UtcTime|
                now.representable() && (r, final(self)@) == #[trigger] session_lookup(old(self)@, token@, now),
    {
        let now = utc_now();
        self.get_at(token, now)
    }

    /// Ends the session `token`, if any.
    pub fn revoke(&mut self, token: &str)
        ensures
            final(self).ttl() == old(self).ttl(),
            final(self)@ == old(self)@.remove(token@),
    {
        self.sessions.remove(token);
    }
}

/// A session just started is found by its token before it expires.
pub proof fn lemma_new_session_is_found(
    sessions: Map<Seq<char>, SessionIdentity>,
    identity: SessionIdentity,
    now: UtcTime,
)
    requires
        !identity.expiry().not_after(now),
    ensures
        session_lookup(sessions.insert(identity.token_text(), identity), identity.token_text(), now).0
            == Some(identity),
{
}

/// A revoked session is not found again.
pub proof fn lemma_revoked_session_is_gone(
    sessions: Map<Seq<char>, SessionIdentity>,
    token: Seq<char>,
    now: UtcTime,
)
    ensures
        session_lookup(sessions.remove(token), token, now).0 is None,
{
}

/// An expired session is not returned, is dropped, and stays gone afterwards.
pub proof fn lemma_expired_session_is_dropped(
    sessions: Map<Seq<char>, SessionIdentity>,
    token: Seq<char>,
    now: UtcTime,
    later: UtcTime,
)
    requires
        sessions.contains_key(token),
        sessions[token].expiry().not_after(now),
    ensures
        session_lookup(sessions, token, now).0 is None,
        !session_lookup(sessions, token, now).1.contains_key(token),
        session_lookup(session_lookup(sessions, token, now).1, token, later).0 is None,
{
}

/// The page size used where a history request names none.
pub const DEFAULT_HISTORY_PAGE_SIZE: usize = 25;

/// The largest history page handed out.
pub const MAX_HISTORY_PAGE_SIZE: usize = 100;

/// A chat event as sent to websocket clients and kept in the history.
#[derive(Debug)]
pub struct ChatEvent {
    pub id: Option<String>,
    pub event_type: &'static str,
    pub sender: Option<String>,
    pub text: String,
    pub sent_at: String,
}

fn copy_option_string(o: &Option<String>) -> (r: Option<String>)
    ensures
        r == *o,
{
    match o {
        Some(s) => Some(s.clone()),
        None => None,
    }
}

impl ChatEvent {
    /// A copy of the event.
    pub fn duplicate(&self) -> (r: ChatEvent)
        ensures
            r == *self,
    {
        ChatEvent {
            id: copy_option_string(&self.id),
            event_type: self.event_type,
            sender: copy_option_string(&self.sender),
            text: self.text.clone(),
            sent_at: self.sent_at.clone(),
        }
    }

    /// A system notice, stamped with the current time.
    pub fn system(text: String) -> (r: ChatEvent)
        ensures
            r.id is None,
            r.event_type@ == "system"@,
            r.sender is None,
            r.text == text,
            exists|now: UtcTime| now.representable() && r.sent_at@ == rfc3339_text(now.secs, now.nanos),
    {
        let now = utc_now();
        ChatEvent { id: None, event_type: "system", sender: None, text, sent_at: to_rfc3339(now) }
    }

    /// A chat message from `sender`, with a fresh id, stamped with the current time.
    pub fn message(sender: String, text: String) -> (r: ChatEvent)
        ensures
            r.id matches Some(i) && is_message_id(i@),
            r.event_type@ == "message"@,
            r.sender == Some(sender),
            r.text == text,
            exists|now: UtcTime| now.representable() && r.sent_at@ == rfc3339_text(now.secs, now.nanos),
    {
        let id = generate_message_id();
        let now = utc_now();
        ChatEvent { id: Some(id), event_type: "message", sender: Some(sender), text, sent_at: to_rfc3339(now) }
    }

    /// An error notice for one client, stamped with the current time.
    pub fn error(text: &'static str) -> (r: ChatEvent)
        ensures
            r.id is None,
            r.event_type@ == "error"@,
            r.sender is None,
            r.text@ == text@,
            exists|now: UtcTime| now.representable() && r.sent_at@ == rfc3339_text(now.secs, now.nanos),
    {
        let now = utc_now();
        ChatEvent {
            id: None,
            event_type: "error",
            sender: None,
            text: String::from_str(text),
            sent_at: to_rfc3339(now),
        }
    }
}

/// A message id: the time in microseconds since the epoch, zero-padded to 20
/// characters, a `-`, and 6 random bytes in URL-safe base64.
pub open spec fn message_id_text(micros: int, random: Seq<u8>) -> Seq<char> {
    crate::numeric::zero_padded(micros, 20) + "-"@ + base64_url_encoding(random)
}

/// `text` is a message id made from some time chrono can hold and 6 random bytes.
pub open spec fn is_message_id(text: Seq<char>) -> bool {
    exists|now: UtcTime, random: Seq<u8>|
        now.representable() && random.len() == 6 && text == #[trigger] message_id_text(now.micros(), random)
}

/// A fresh message id from the current time and 6 bytes of the operating
/// system's generator; whatever they were, the id has the form of `message_id_text`.
pub fn generate_message_id() -> (r: String)
    ensures
        exists|now: UtcTime, random: Seq<u8>|
            now.representable() && random.len() == 6 && r@ == #[trigger] message_id_text(now.micros(), random),
{
    let now = utc_now();
    let micros = now.timestamp_micros();
    let random = os_random_bytes(6);
    let digits = crate::text::string_from_chars(&crate::numeric::zero_padded_chars(micros, 20));
    let suffix = base64_url_encode(random.as_slice());
    let id = digits.concat("-").concat(suffix.as_str());
    assert(id@ == message_id_text(now.micros(), random@));
    id
}

/// One page of history: the messages, whether older ones exist, and the
/// cursor for the page before.
#[derive(Debug)]
pub struct MessageHistoryPage {
    pub messages: Vec<ChatEvent>,
    pub has_more: bool,
    pub next_before: Option<String>,
}

/// The event carries the id `cursor`.
pub open spec fn has_id(m: ChatEvent, cursor: Seq<char>) -> bool {
    m.id matches Some(id) && id@ == cursor
}

/// The position of the first event with id `cursor`.
pub open spec fn first_with_id(ms: Seq<ChatEvent>, cursor: Seq<char>) -> Option<int>
    decreases ms.len(),
{
    if ms.len() == 0 {
        None
    } else if has_id(ms[0], cursor) {
        Some(0)
    } else {
        match first_with_id(ms.drop_first(), cursor) {
            Some(i) => Some(i + 1),
            None => None,
        }
    }
}

/// The page size for a requested `limit`: clamped to `1..=MAX_HISTORY_PAGE_SIZE`.
pub open spec fn page_size(limit: usize) -> int {
    if limit < 1 {
        1
    } else if limit > MAX_HISTORY_PAGE_SIZE {
        MAX_HISTORY_PAGE_SIZE as int
    } else {
        limit as int
    }
}

/// Where a page ends: at the first event with id `before`, or at the end
/// where there is no cursor or no such event.
pub open spec fn page_upper(ms: Seq<ChatEvent>, before: Option<Seq<char>>) -> int {
    match before {
        None => ms.len() as int,
        Some(c) => match first_with_id(ms, c) {
            Some(i) => i,
            None => ms.len() as int,
        },
    }
}

/// Where a page starts: `page_size(limit)` events before its end, or at the beginning.
pub open spec fn page_start(ms: Seq<ChatEvent>, before: Option<Seq<char>>, limit: usize) -> int {
    let upper = page_upper(ms, before);
    if upper > page_size(limit) {
        upper - page_size(limit)
    } else {
        0
    }
}

/// A page holds as many events as were asked for, between 1 and 100: a
/// limit from 1 to 100 is taken as it is, 0 counts as 1 and anything above
/// 100 as 100; the page holds that many events before its end, or all of
/// them where fewer remain, and ends where the cursor says.
pub proof fn lemma_page_holds_requested_count(ms: Seq<ChatEvent>, before: Option<Seq<char>>, limit: usize)
    ensures
        1 <= limit <= 100 ==> page_size(limit) == limit,
        limit == 0 ==> page_size(limit) == 1,
        limit > 100 ==> page_size(limit) == 100,
        page_upper(ms, before) - page_start(ms, before, limit) == if page_upper(ms, before) < page_size(limit) {
            page_upper(ms, before)
        } else {
            page_size(limit)
        },
        page_upper(ms, before) <= ms.len(),
        before is None ==> page_upper(ms, before) == ms.len(),
{
    match before {
        Some(c) => {
            lemma_first_with_id_bounds(ms, c);
        },
        None => {},
    }
}

proof fn lemma_first_with_id_skip(ms: Seq<ChatEvent>, cursor: Seq<char>, i: int)
    requires
        0 <= i <= ms.len(),
        forall|j: int| 0 <= j < i ==> !has_id(#[trigger] ms[j], cursor),
    ensures
        first_with_id(ms, cursor) == (match first_with_id(ms.subrange(i, ms.len() as int), cursor) {
            Some(k) => Some(k + i),
            None => None::<int>,
        }),
    decreases i,
{
    if i == 0 {
        assert(ms.subrange(0, ms.len() as int) =~= ms);
    } else {
        let rest = ms.drop_first();
        assert forall|j: int| 0 <= j < i - 1 implies !has_id(#[trigger] rest[j], cursor) by {
            assert(rest[j] == ms[j + 1]);
        }
        lemma_first_with_id_skip(rest, cursor, i - 1);
        assert(rest.subrange(i - 1, rest.len() as int) =~= ms.subrange(i, ms.len() as int));
    }
}

/// The first event at or after position `k` carrying the id: at `k` itself
/// where no earlier event carries it.
proof fn lemma_first_with_id_at(ms: Seq<ChatEvent>, cursor: Seq<char>, k: int)
    requires
        0 <= k < ms.len(),
        has_id(ms[k], cursor),
        forall|j: int| 0 <= j < k ==> !has_id(#[trigger] ms[j], cursor),
    ensures
        first_with_id(ms, cursor) == Some(k),
{
    lemma_first_with_id_skip(ms, cursor, k);
    let rest = ms.subrange(k, ms.len() as int);
    assert(rest[0] == ms[k]);
}

/// The chat history, oldest first.
pub struct MessageStore {
    messages: Vec<ChatEvent>,
}

impl View for MessageStore {
    type V = Seq<ChatEvent>;

    closed spec fn view(&self) -> Seq<ChatEvent> {
        self.messages@
    }
}

impl MessageStore {
    /// An empty history.
    pub fn new() -> (s: MessageStore)
        ensures
            s@ == Seq::<ChatEvent>::empty(),
    {
        MessageStore { messages: Vec::new() }
    }

    /// Appends `message` to the history.
    pub fn push(&mut self, message: ChatEvent)
        ensures
            final(self)@ == old(self)@.push(message),
    {
        self.messages.push(message);
    }

    fn position_of_id(&self, cursor: &str) -> (r: Option<usize>)
        ensures
            match first_with_id(self@, cursor@) {
                Some(i) => r == Some(i as usize) && 0 <= i < self@.len(),
                None => r is None,
            },
    {
        proof {
            lemma_first_with_id_bounds(self.messages@, cursor@);
        }
        let mut i: usize = 0;
        while i < self.messages.len()
            invariant
                i <= self.messages@.len(),
                forall|j: int| 0 <= j < i ==> !has_id(#[trigger] self.messages@[j], cursor@),
            decreases self.messages@.len() - i,
        {
            let matched = match &self.messages[i].id {
                Some(id) => id.as_str().unicode_len() == cursor.unicode_len() && crate::aws_lambda::same_text(
                    id.as_str(),
                    cursor,
                ),
                None => false,
            };
            if matched {
                proof {
                    lemma_first_with_id_at(self.messages@, cursor@, i as int);
                }
                return Some(i);
            }
            i = i + 1;
        }
        proof {
            lemma_first_with_id_skip(self.messages@, cursor@, i as int);
            assert(self.messages@.subrange(i as int, self.messages@.len() as int).len() == 0);
        }
        None
    }

    /// The page of history ending just before the event with id `before` (or
    /// at the newest event), holding at most `limit` events clamped to
    /// `1..=MAX_HISTORY_PAGE_SIZE`; `next_before` is the id of the page's
    /// oldest event where older events remain.
    pub fn list(&self, before: Option<&str>, limit: usize) -> (page: MessageHistoryPage)
        ensures
            ({
                let before_view = match before {
                    Some(c) => Some(c@),
                    None => None,
                };
                let start = page_start(self@, before_view, limit);
                let upper = page_upper(self@, before_view);
                &&& page.messages@ == self@.subrange(start, upper)
                &&& page.has_more == (start > 0)
                &&& page.next_before == (if start > 0 {
                    self@[start].id
                } else {
                    None
                })
            }),
    {
        let total = self.messages.len();
        let size: usize = if limit < 1 {
            1
        } else if limit > MAX_HISTORY_PAGE_SIZE {
            MAX_HISTORY_PAGE_SIZE
        } else {
            limit
        };
        let boundary = match before {
            Some(cursor) => self.position_of_id(cursor),
            None => None,
        };
        let upper = match boundary {
            Some(i) => i,
            None => total,
        };
        let start = if upper > size {
            upper - size
        } else {
            0
        };
        let ghost before_view = match before {
            Some(c) => Some(c@),
            None => None,
        };
        assert(size == page_size(limit));
        assert(upper == page_upper(self@, before_view));
        assert(start == page_start(self@, before_view, limit));
        let mut items: Vec<ChatEvent> = Vec::new();
        let mut i: usize = start;
        assert(items@ =~= self.messages@.subrange(start as int, start as int));
        while i < upper
            invariant
                start <= i <= upper <= self.messages@.len(),
                items@ == self.messages@.subrange(start as int, i as int),
            decreases upper - i,
        {
            items.push(self.messages[i].duplicate());
            i = i + 1;
            assert(items@ =~= self.messages@.subrange(start as int, i as int));
        }
        let has_more = start > 0;
        let next_before = if has_more {
            copy_option_string(&self.messages[start].id)
        } else {
            None
        };
        MessageHistoryPage { messages: items, has_more, next_before }
    }
}

/// Pages tile the history: where a page has older events, asking for the
/// page before its cursor gives a page that ends right where it began, when
/// no older event carries the same id.
pub proof fn lemma_next_page_ends_where_previous_began(
    ms: Seq<ChatEvent>,
    before: Option<Seq<char>>,
    limit: usize,
    cursor: Seq<char>,
)
    requires
        page_start(ms, before, limit) > 0,
        ms[page_start(ms, before, limit)].id matches Some(id) && id@ == cursor,
        forall|j: int| 0 <= j < page_start(ms, before, limit) ==> !has_id(#[trigger] ms[j], cursor),
    ensures
        page_upper(ms, Some(cursor)) == page_start(ms, before, limit),
{
    let start = page_start(ms, before, limit);
    assert(page_upper(ms, before) <= ms.len()) by {
        match before {
            Some(c) => {
                match first_with_id(ms, c) {
                    Some(i) => {
                        lemma_first_with_id_bounds(ms, c);
                    },
                    None => {},
                }
            },
            None => {},
        }
    }
    lemma_first_with_id_at(ms, cursor, start);
}

/// Every event of the history carries an id, and no two carry the same one.
pub open spec fn ids_present_and_distinct(ms: Seq<ChatEvent>) -> bool {
    &&& forall|i: int| 0 <= i < ms.len() ==> (#[trigger] ms[i]).id is Some
    &&& forall|i: int, j: int|
        0 <= i < j < ms.len() ==> (#[trigger] ms[i]).id->0@ != (#[trigger] ms[j]).id->0@
}

/// The events of the page asked for with `before` and `limit`.
pub open spec fn page_of(ms: Seq<ChatEvent>, before: Option<Seq<char>>, limit: usize) -> Seq<ChatEvent> {
    ms.subrange(page_start(ms, before, limit), page_upper(ms, before))
}

/// The cursor a client passes for the page before: the page's `next_before`.
pub open spec fn next_cursor(ms: Seq<ChatEvent>, before: Option<Seq<char>>, limit: usize) -> Option<Seq<char>> {
    let start = page_start(ms, before, limit);
    if start > 0 {
        match ms[start].id {
            Some(id) => Some(id@),
            None => None,
        }
    } else {
        None
    }
}

/// The cursor after following `next_before` `k` times from `before`.
pub open spec fn cursor_after(ms: Seq<ChatEvent>, before: Option<Seq<char>>, limit: usize, k: nat) -> Option<Seq<char>>
    decreases k,
{
    if k == 0 {
        before
    } else {
        cursor_after(ms, next_cursor(ms, before, limit), limit, (k - 1) as nat)
    }
}

/// The `n` pages met from `before` on, oldest first.
pub open spec fn pages_from(ms: Seq<ChatEvent>, before: Option<Seq<char>>, limit: usize, n: nat) -> Seq<Seq<ChatEvent>>
    decreases n,
{
    if n == 0 {
        Seq::empty()
    } else {
        pages_from(ms, next_cursor(ms, before, limit), limit, (n - 1) as nat).push(page_of(ms, before, limit))
    }
}

/// The pages' events one after another.
pub open spec fn joined(pages: Seq<Seq<ChatEvent>>) -> Seq<ChatEvent>
    decreases pages.len(),
{
    if pages.len() == 0 {
        Seq::empty()
    } else {
        joined(pages.drop_last()) + pages.last()
    }
}

/// How many pages of `size` events the first `upper` events take: at least one.
pub open spec fn pages_needed(upper: int, size: int) -> nat
    decreases upper,
{
    if upper <= size || size <= 0 {
        1
    } else {
        1 + pages_needed(upper - size, size)
    }
}

proof fn lemma_pages_needed_closed_form(upper: int, size: int)
    requires
        upper >= 0,
        size > 0,
    ensures
        pages_needed(upper, size) == if upper == 0 {
            1
        } else {
            (upper + size - 1) / size
        },
    decreases upper,
{
    if upper <= size {
        if upper > 0 {
            vstd::arithmetic::div_mod::lemma_div_plus_one(upper - 1, size);
            vstd::arithmetic::div_mod::lemma_basic_div(upper - 1, size);
        }
    } else {
        lemma_pages_needed_closed_form(upper - size, size);
        vstd::arithmetic::div_mod::lemma_div_plus_one(upper - 1, size);
    }
}

proof fn lemma_walk_from(ms: Seq<ChatEvent>, before: Option<Seq<char>>, limit: usize)
    requires
        ids_present_and_distinct(ms),
        page_upper(ms, before) <= ms.len(),
    ensures
        ({
            let n = pages_needed(page_upper(ms, before), page_size(limit));
            &&& forall|k: nat| k + 1 < n ==> page_start(ms, #[trigger] cursor_after(ms, before, limit, k), limit) > 0
            &&& page_start(ms, cursor_after(ms, before, limit, (n - 1) as nat), limit) == 0
            &&& joined(pages_from(ms, before, limit, n)) == ms.subrange(0, page_upper(ms, before))
        }),
    decreases page_upper(ms, before),
{
    let upper = page_upper(ms, before);
    let size = page_size(limit);
    let start = page_start(ms, before, limit);
    let n = pages_needed(upper, size);
    if upper <= size {
        assert(start == 0);
        assert(n == 1);
        assert(pages_from(ms, next_cursor(ms, before, limit), limit, 0) =~= Seq::<Seq<ChatEvent>>::empty());
        let ps = pages_from(ms, before, limit, 1);
        assert(ps.drop_last() =~= Seq::<Seq<ChatEvent>>::empty());
        assert(joined(ps.drop_last()) =~= Seq::<ChatEvent>::empty());
        assert(joined(ps) =~= ms.subrange(0, upper));
    } else {
        let next = next_cursor(ms, before, limit);
        let id = ms[start].id->0;
        assert(ms[start].id is Some);
        assert(next == Some(id@));
        assert forall|j: int| 0 <= j < start implies !has_id(#[trigger] ms[j], id@) by {
            assert(ms[j].id is Some);
            assert(ms[j].id->0@ != ms[start].id->0@);
        }
        lemma_next_page_ends_where_previous_began(ms, before, limit, id@);
        assert(page_upper(ms, next) == start);
        lemma_walk_from(ms, next, limit);
        let m = pages_needed(start, size);
        assert(n == m + 1);
        assert forall|k: nat| k + 1 < n implies page_start(ms, #[trigger] cursor_after(ms, before, limit, k), limit) > 0 by {
            if k > 0 {
                assert(cursor_after(ms, before, limit, k) == cursor_after(ms, next, limit, (k - 1) as nat));
            }
        }
        assert(cursor_after(ms, before, limit, (n - 1) as nat) == cursor_after(ms, next, limit, (m - 1) as nat));
        let ps = pages_from(ms, before, limit, n);
        assert(ps.drop_last() == pages_from(ms, next, limit, m));
        assert(ms.subrange(0, start) + ms.subrange(start, upper) =~= ms.subrange(0, upper));
    }
}

/// Paging through the whole history: ask for a page without a cursor, then
/// pass each page's `next_before` back while `has_more` holds. Where every
/// event carries an id and no two share one, this takes `max(1, ceil(len /
/// size))` pages for the clamped page size, every page but the last has
/// older events, the last has none, and the pages, oldest first, are the
/// history: every event exactly once, in order.
pub proof fn lemma_paging_covers_history(ms: Seq<ChatEvent>, limit: usize)
    requires
        ids_present_and_distinct(ms),
    ensures
        ({
            let n = pages_needed(ms.len() as int, page_size(limit));
            &&& n == if ms.len() == 0 {
                1
            } else {
                (ms.len() + page_size(limit) - 1) / page_size(limit)
            }
            &&& forall|k: nat| k + 1 < n ==> page_start(ms, #[trigger] cursor_after(ms, None, limit, k), limit) > 0
            &&& page_start(ms, cursor_after(ms, None, limit, (n - 1) as nat), limit) == 0
            &&& joined(pages_from(ms, None, limit, n)) == ms
        }),
{
    lemma_walk_from(ms, None, limit);
    lemma_pages_needed_closed_form(ms.len() as int, page_size(limit));
    assert(ms.subrange(0, ms.len() as int) =~= ms);
}

proof fn lemma_first_with_id_bounds(ms: Seq<ChatEvent>, cursor: Seq<char>)
    ensures
        first_with_id(ms, cursor) matches Some(i) ==> 0 <= i < ms.len(),
    decreases ms.len(),
{
    if ms.len() > 0 && !has_id(ms[0], cursor) {
        lemma_first_with_id_bounds(ms.drop_first(), cursor);
    }
}

/// The page size a history request asks for: its `limit`, or
/// `DEFAULT_HISTORY_PAGE_SIZE` where it names none.
pub fn history_limit(limit: Option<usize>) -> (r: usize)
    ensures
        r == match limit {
            Some(l) => l,
            None => DEFAULT_HISTORY_PAGE_SIZE,
        },
{
    match limit {
        Some(l) => l,
        None => DEFAULT_HISTORY_PAGE_SIZE,
    }
}

/// An HTTP error answer: a status code and a detail for the JSON body.
#[derive(Debug)]
pub struct AppError {
    pub status: u16,
    pub detail: String,
}

impl AppError {
    /// A 400 answer.
    pub fn bad_request(detail: String) -> (r: AppError)
        ensures
            r.status == 400 && r.detail == detail,
    {
        AppError { status: 400, detail }
    }

    /// A 401 answer.
    pub fn unauthorized(detail: String) -> (r: AppError)
        ensures
            r.status == 401 && r.detail == detail,
    {
        AppError { status: 401, detail }
    }

    /// A 403 answer.
    pub fn forbidden(detail: String) -> (r: AppError)
        ensures
            r.status == 403 && r.detail == detail,
    {
        AppError { status: 403, detail }
    }
}

/// An `Origin` that the server accepts: none at all, or one of `allowed`.
pub open spec fn origin_allowed(allowed: Seq<String>, origin: Option<Seq<char>>) -> bool {
    match origin {
        None => true,
        Some(o) => exists|i: int| 0 <= i < allowed.len() && (#[trigger] allowed[i])@ == o,
    }
}

/// Whether a request with `origin` may proceed: one without an `Origin` may;
/// one with it must name one of the `allowed` origins exactly.
pub fn is_allowed_origin(allowed: &Vec<String>, origin: Option<&str>) -> (r: bool)
    ensures
        r == origin_allowed(allowed@, match origin {
            Some(o) => Some(o@),
            None => None,
        }),
{
    match origin {
        None => true,
        Some(o) => {
            let wanted = String::from_str(o);
            let mut i: usize = 0;
            while i < allowed.len()
                invariant
                    i <= allowed.len(),
                    wanted@ == o@,
                    origin == Some(o),
                    forall|j: int| 0 <= j < i ==> (#[trigger] allowed@[j])@ != o@,
                decreases allowed.len() - i,
            {
                if allowed[i] == wanted {
                    assert((allowed@[i as int])@ == o@);
                    return true;
                }
                i = i + 1;
            }
            false
        },
    }
}

/// Every origin in the allowed list is accepted, wherever it stands in the
/// list; an origin outside the list is refused; a request without an origin
/// is accepted.
pub proof fn lemma_listed_origins_are_accepted(allowed: Seq<String>, i: int, origin: Seq<char>)
    ensures
        0 <= i < allowed.len() ==> origin_allowed(allowed, Some(allowed[i]@)),
        (forall|j: int| 0 <= j < allowed.len() ==> (#[trigger] allowed[j])@ != origin) ==> !origin_allowed(
            allowed,
            Some(origin),
        ),
        origin_allowed(allowed, None),
{
}

/// The detail given for a refused origin.
pub open spec fn origin_not_allowed() -> Seq<char> {
    "Origin not allowed."@
}

/// Admits an HTTP request by its `Origin`; a refusal counts as a failed
/// authentication request and is answered 403.
pub fn ensure_allowed_http_origin(
    allowed: &Vec<String>,
    origin: Option<&str>,
    telemetry: &mut crate::telemetry::ServiceTelemetry,
) -> (r: Result<(), AppError>)
    ensures
        ({
            let ok = origin_allowed(allowed@, match origin {
                Some(o) => Some(o@),
                None => None,
            });
            &&& ok ==> r is Ok && final(telemetry)@ == old(telemetry)@
            &&& !ok ==> (r matches Err(e) && e.status == 403 && e.detail@ == origin_not_allowed()
                && final(telemetry)@ == old(telemetry)@.after_auth(false))
        }),
{
    if is_allowed_origin(allowed, origin) {
        Ok(())
    } else {
        telemetry.record_auth(false);
        Err(AppError::forbidden(String::from_str("Origin not allowed.")))
    }
}

/// The `Authorization` header of a request.
pub enum AuthorizationHeader<'a> {
    /// No such header.
    Missing,
    /// A header whose value is not visible ASCII text.
    Unreadable,
    /// The header's text.
    Text(&'a str),
}

/// The bearer token of a request, or a 401 answer.
pub fn extract_bearer_token(header: AuthorizationHeader) -> (r: Result<String, AppError>)
    ensures
        match header {
            AuthorizationHeader::Missing => r matches Err(e) && e.status == 401 && e.detail@
                == "Authorization header is required."@,
            AuthorizationHeader::Unreadable => r matches Err(e) && e.status == 401 && e.detail@
                == crate::aws_lambda::bearer_error(),
            AuthorizationHeader::Text(value) => match crate::aws_lambda::bearer_token_of(value@) {
                Some(t) => r matches Ok(s) && s@ == t,
                None => r matches Err(e) && e.status == 401 && e.detail@ == crate::aws_lambda::bearer_error(),
            },
        },
{
    match header {
        AuthorizationHeader::Missing => Err(
            AppError::unauthorized(String::from_str("Authorization header is required.")),
        ),
        AuthorizationHeader::Unreadable => Err(
            AppError::unauthorized(String::from_str("Authorization must use a bearer token.")),
        ),
        AuthorizationHeader::Text(value) => match bearer_token(value) {
            Some(t) => Ok(t),
            None => Err(AppError::unauthorized(String::from_str("Authorization must use a bearer token."))),
        },
    }
}

/// The answer to a successful registration or login.
#[derive(Debug)]
pub struct SessionResponse {
    pub token: String,
    pub username: String,
    pub display_name: String,
    pub expires_at: String,
}

impl SessionResponse {
    /// The answer for `identity`, its expiry written as RFC 3339.
    pub fn from(identity: SessionIdentity) -> (r: SessionResponse)
        ensures
            r.token@ == identity.token_text(),
            r.username@ == identity.username_text(),
            r.display_name@ == identity.display_name_text(),
            r.expires_at@ == rfc3339_text(identity.expiry().secs, identity.expiry().nanos),
    {
        let expires_at = identity.expires_at();
        SessionResponse {
            token: identity.token().clone(),
            username: identity.username().clone(),
            display_name: identity.display_name().clone(),
            expires_at: to_rfc3339(expires_at),
        }
    }
}

/// The detail given to a client whose session is missing or has expired.
pub open spec fn session_required() -> Seq<char> {
    "Authentication required or session expired."@
}

/// What to do with a websocket upgrade.
pub enum Admission {
    /// Close with "Origin not allowed.".
    RejectOrigin,
    /// Close with "Authentication required or session expired.".
    RejectSession,
    /// Open the chat session for this identity.
    Accept(SessionIdentity),
}

/// Admits a websocket upgrade from `origin` with the query token `token` at
/// time `now`: the origin must be allowed and the trimmed token must name a
/// session that has not expired by `now`. Each attempt is counted, as a
/// failure where refused.
pub fn admit_websocket_at(
    allowed: &Vec<String>,
    origin: Option<&str>,
    token: &str,
    sessions: &mut SessionStore,
    telemetry: &mut crate::telemetry::ServiceTelemetry,
    now: UtcTime,
) -> (r: Admission)
    ensures
        final(sessions).ttl() == old(sessions).ttl(),
        !origin_allowed(allowed@, match origin {
            Some(o) => Some(o@),
            None => None,
        }) ==> r is RejectOrigin && final(sessions)@ == old(sessions)@ && final(telemetry)@ == old(
            telemetry,
        )@.after_connect(false),
        origin_allowed(allowed@, match origin {
            Some(o) => Some(o@),
            None => None,
        }) ==> ({
            let (found, after) = session_lookup(old(sessions)@, crate::text::trim(token@), now);
            &&& final(sessions)@ == after
            &&& match found {
                None => r is RejectSession && final(telemetry)@ == old(telemetry)@.after_connect(false),
                Some(identity) => r == Admission::Accept(identity) && final(telemetry)@ == old(
                    telemetry,
                )@.after_connect(true),
            }
            }),
{
    if !is_allowed_origin(allowed, origin) {
        telemetry.record_websocket_connect(false);
        return Admission::RejectOrigin;
    }
    match sessions.get_at(crate::text::trim_str(token), now) {
        None => {
            telemetry.record_websocket_connect(false);
            Admission::RejectSession
        },
        Some(identity) => {
            telemetry.record_websocket_connect(true);
            Admission::Accept(identity)
        },
    }
}

/// Admits a websocket upgrade from `origin` with the query token `token`:
/// the origin must be allowed and the trimmed token must name a live session.
/// Each attempt is counted, as a failure where refused. The time is read from
/// the clock; whatever it was, the outcome is that of `admit_websocket_at`.
pub fn admit_websocket(
    allowed: &Vec<String>,
    origin: Option<&str>,
    token: &str,
    sessions: &mut SessionStore,
    telemetry: &mut crate::telemetry::ServiceTelemetry,
) -> (r: Admission)
    ensures
        final(sessions).ttl() == old(sessions).ttl(),
        !origin_allowed(allowed@, match origin {
            Some(o) => Some(o@),
            None => None,
        }) ==> r is RejectOrigin && final(sessions)@ == old(sessions)@ && final(telemetry)@ == old(
            telemetry,
        )@.after_connect(false),
        origin_allowed(allowed@, match origin {
            Some(o) => Some(o@),
            None => None,
        }) ==> exists|now: UtcTime|
            #![trigger session_lookup(old(sessions)@, crate::text::trim(token@), now)]
            now.representable() && ({
                let (found, after) = session_lookup(old(sessions)@, crate::text::trim(token@), now);
                &&& final(sessions)@ == after
                &&& match found {
                    None => r is RejectSession && final(telemetry)@ == old(telemetry)@.after_connect(false),
                    Some(identity) => r == Admission::Accept(identity) && final(telemetry)@ == old(
                        telemetry,
                    )@.after_connect(true),
                }
            }),
{
    let now = utc_now();
    admit_websocket_at(allowed, origin, token, sessions, telemetry, now)
}

/// The notice that `identity` joined the chat.
pub fn join_notice(identity: &SessionIdentity) -> (r: ChatEvent)
    ensures
        r.id is None,
        r.event_type@ == "system"@,
        r.sender is None,
        r.text@ == identity.display_name_text() + " joined the chat"@,
        is_rfc3339_stamp(r.sent_at@),
{
    ChatEvent::system(identity.display_name().clone().concat(" joined the chat"))
}

/// The notice that `identity` left the chat.
pub fn leave_notice(identity: &SessionIdentity) -> (r: ChatEvent)
    ensures
        r.id is None,
        r.event_type@ == "system"@,
        r.sender is None,
        r.text@ == identity.display_name_text() + " left the chat"@,
        is_rfc3339_stamp(r.sent_at@),
{
    ChatEvent::system(identity.display_name().clone().concat(" left the chat"))
}

/// What arrived on an open chat websocket.
pub enum SocketEvent {
    /// A text frame.
    Text(String),
    /// A close frame.
    Close,
    /// A binary, ping or pong frame.
    Other,
    /// A receive error.
    Failed,
}

/// What to do about an event on an open chat websocket.
pub enum FrameAction {
    /// Send this error event to the client, then end the session.
    Expired(ChatEvent),
    /// Store this message and broadcast it.
    Deliver(ChatEvent),
    /// Send this error event to the client and go on.
    Reject(ChatEvent),
    /// Go on.
    Ignore,
    /// End the session.
    Close,
}

/// Handles an event of the chat session of `identity` at time `now`. A text
/// frame is accepted only while the session has not expired by `now`; it is
/// then validated as a chat payload. Close frames and receive errors end the
/// session.
pub fn on_socket_event_at(
    event: SocketEvent,
    identity: &SessionIdentity,
    sessions: &mut SessionStore,
    telemetry: &mut crate::telemetry::ServiceTelemetry,
    now: UtcTime,
) -> (r: FrameAction)
    ensures
        final(sessions).ttl() == old(sessions).ttl(),
        match event {
            SocketEvent::Close => r is Close && final(sessions)@ == old(sessions)@ && final(telemetry)@
                == old(telemetry)@,
            SocketEvent::Other => r is Ignore && final(sessions)@ == old(sessions)@ && final(telemetry)@
                == old(telemetry)@,
            SocketEvent::Failed => r is Close && final(sessions)@ == old(sessions)@ && final(telemetry)@
                == old(telemetry)@.after_runtime_error(),
            SocketEvent::Text(raw) => ({
                let (found, after) = session_lookup(old(sessions)@, identity.token_text(), now);
                &&& final(sessions)@ == after
                &&& match found {
                    None => r matches FrameAction::Expired(e) && e.event_type@ == "error"@ && e.text@
                        == session_required() && e.id is None && e.sender is None && is_rfc3339_stamp(e.sent_at@)
                        && final(telemetry)@ == old(telemetry)@.after_runtime_error(),
                    Some(_) => match crate::runtime_contract::chat_text_verdict_of(raw@) {
                        Ok(Some(text)) => r matches FrameAction::Deliver(m) && m.event_type@ == "message"@
                            && (m.sender matches Some(s) && s@ == identity.display_name_text()) && m.text@
                            == text && (m.id matches Some(i) && is_message_id(i@)) && is_rfc3339_stamp(m.sent_at@) && final(telemetry)@ == old(telemetry)@.after_message_accepted(),
                        Ok(None) => r is Ignore && final(telemetry)@ == old(telemetry)@,
                        Err(detail) => r matches FrameAction::Reject(e) && e.event_type@ == "error"@
                            && e.text@ == detail && e.id is None && e.sender is None && is_rfc3339_stamp(e.sent_at@)
                            && final(telemetry)@ == old(telemetry)@.after_message_rejected(),
                    },
                }
            }),
        },
{
    match event {
        SocketEvent::Close => FrameAction::Close,
        SocketEvent::Other => FrameAction::Ignore,
        SocketEvent::Failed => {
            telemetry.record_runtime_error();
            FrameAction::Close
        },
        SocketEvent::Text(raw) => {
            let still_valid = sessions.get_at(identity.token().as_str(), now);
            if still_valid.is_none() {
                telemetry.record_runtime_error();
                return FrameAction::Expired(ChatEvent::error("Authentication required or session expired."));
            }
            match crate::runtime_contract::parse_and_validate_chat_text(raw.as_str()) {
                Ok(Some(text)) => {
                    telemetry.record_message_accepted();
                    FrameAction::Deliver(ChatEvent::message(identity.display_name().clone(), text))
                },
                Ok(None) => FrameAction::Ignore,
                Err(detail) => {
                    telemetry.record_message_rejected();
                    FrameAction::Reject(ChatEvent::error(detail))
                },
            }
        },
    }
}

/// Handles an event of the chat session of `identity`. A text frame is
/// accepted only while the session is still live; it is then validated as a
/// chat payload. Close frames and receive errors end the session. The time
/// is read from the clock; whatever it was, the outcome is that of
/// `on_socket_event_at`.
pub fn on_socket_event(
    event: SocketEvent,
    identity: &SessionIdentity,
    sessions: &mut SessionStore,
    telemetry: &mut crate::telemetry::ServiceTelemetry,
) -> (r: FrameAction)
    ensures
        final(sessions).ttl() == old(sessions).ttl(),
        match event {
            SocketEvent::Close => r is Close && final(sessions)@ == old(sessions)@ && final(telemetry)@
                == old(telemetry)@,
            SocketEvent::Other => r is Ignore && final(sessions)@ == old(sessions)@ && final(telemetry)@
                == old(telemetry)@,
            SocketEvent::Failed => r is Close && final(sessions)@ == old(sessions)@ && final(telemetry)@
                == old(telemetry)@.after_runtime_error(),
            SocketEvent::Text(raw) => exists|now: UtcTime|
                #![trigger session_lookup(old(sessions)@, identity.token_text(), now)]
                now.representable() && ({
                    let (found, after) = session_lookup(old(sessions)@, identity.token_text(), now);
                    &&& final(sessions)@ == after
                    &&& match found {
                        None => r matches FrameAction::Expired(e) && e.event_type@ == "error"@ && e.text@
                            == session_required() && e.id is None && e.sender is None && is_rfc3339_stamp(e.sent_at@)
                            && final(telemetry)@ == old(telemetry)@.after_runtime_error(),
                        Some(_) => match crate::runtime_contract::chat_text_verdict_of(raw@) {
                            Ok(Some(text)) => r matches FrameAction::Deliver(m) && m.event_type@ == "message"@
                                && (m.sender matches Some(s) && s@ == identity.display_name_text()) && m.text@
                                == text && (m.id matches Some(i) && is_message_id(i@)) && is_rfc3339_stamp(m.sent_at@) && final(telemetry)@ == old(telemetry)@.after_message_accepted(),
                            Ok(None) => r is Ignore && final(telemetry)@ == old(telemetry)@,
                            Err(detail) => r matches FrameAction::Reject(e) && e.event_type@ == "error"@
                                && e.text@ == detail && e.id is None && e.sender is None && is_rfc3339_stamp(e.sent_at@)
                                && final(telemetry)@ == old(telemetry)@.after_message_rejected(),
                        },
                    }
                }),
        },
{
    let now = utc_now();
    on_socket_event_at(event, identity, sessions, telemetry, now)
}

/// The allowed origins named in `raw`: its comma-separated parts, trimmed,
/// without the blank ones.
pub open spec fn origins_in(raw: Seq<char>) -> Seq<Seq<char>>
    decreases raw.len(),
{
    match raw.index_of_first(',') {
        None => if crate::text::trim(raw).len() > 0 {
            seq![crate::text::trim(raw)]
        } else {
            Seq::empty()
        },
        Some(i) => {
            proof {
                raw.index_of_first_ensures(',');
            }
            let head = crate::text::trim(raw.subrange(0, i));
            let rest = origins_in(raw.subrange(i + 1, raw.len() as int));
            if head.len() > 0 {
                seq![head] + rest
            } else {
                rest
            }
        },
    }
}

/// The strings' characters.
pub open spec fn strings_view(v: Seq<String>) -> Seq<Seq<char>> {
    v.map_values(|s: String| s@)
}

/// The allowed origins listed in `raw` (`ALLOWED_ORIGINS`): refused where none is left.
pub fn parse_allowed_origins(raw: &str) -> (r: Result<Vec<String>, String>)
    ensures
        match r {
            Ok(v) => strings_view(v@) == origins_in(raw@) && v@.len() > 0,
            Err(e) => origins_in(raw@).len() == 0 && e@ == "ALLOWED_ORIGINS must contain at least one origin."@,
        },
{
    let chars = crate::text::chars_of(raw);
    let n = chars.len();
    let mut pos: usize = 0;
    let mut out: Vec<String> = Vec::new();
    assert(raw@.subrange(0, n as int) =~= raw@);
    loop
        invariant_except_break
            pos <= n == chars.len(),
            chars@ == raw@,
            origins_in(raw@) == strings_view(out@) + origins_in(raw@.subrange(pos as int, n as int)),
        ensures
            origins_in(raw@) == strings_view(out@),
        decreases n - pos,
    {
        let ghost sub = raw@.subrange(pos as int, n as int);
        let ghost before = out@;
        match crate::text::find_char_from(&chars, ',', pos) {
            None => {
                let segment = crate::text::trim_str(raw.substring_char(pos, n));
                if segment.unicode_len() > 0 {
                    out.push(String::from_str(segment));
                }
                proof {
                    assert(sub.index_of_first(',') is None);
                    assert(origins_in(sub.subrange(0, 0)) =~= Seq::<Seq<char>>::empty()) by {
                        assert(sub.subrange(0, 0).index_of_first(',') is None) by {
                            sub.subrange(0, 0).index_of_first_ensures(',');
                        }
                    }
                    assert(strings_view(out@) =~= strings_view(before) + origins_in(sub));
                }
                break;
            },
            Some(i) => {
                let segment = crate::text::trim_str(raw.substring_char(pos, i));
                if segment.unicode_len() > 0 {
                    out.push(String::from_str(segment));
                }
                proof {
                    let k = i - pos;
                    assert(sub.index_of_first(',') == Some(k as int));
                    assert(sub.subrange(0, k as int) =~= raw@.subrange(pos as int, i as int));
                    assert(sub.subrange(k + 1, sub.len() as int) =~= raw@.subrange(i + 1, n as int));
                    let head = crate::text::trim(raw@.subrange(pos as int, i as int));
                    if head.len() > 0 {
                        assert(strings_view(out@) =~= strings_view(before).push(head));
                    } else {
                        assert(strings_view(out@) =~= strings_view(before));
                    }
                    assert(origins_in(sub) == (if head.len() > 0 {
                        seq![head] + origins_in(raw@.subrange(i + 1, n as int))
                    } else {
                        origins_in(raw@.subrange(i + 1, n as int))
                    }));
                }
                pos = i + 1;
            },
        }
    }
    if out.len() == 0 {
        return Err(String::from_str("ALLOWED_ORIGINS must contain at least one origin."));
    }
    Ok(out)
}

/// `c` may stand in an HTTP header value: a tab, or a character from code 32
/// on other than 127 (every byte of a non-ASCII character's UTF-8 form is
/// from 128 on).
pub open spec fn header_value_char(c: char) -> bool {
    c == '\t' || (c as u32 >= 32 && c as u32 != 127)
}

/// Every character of `text` may stand in an HTTP header value.
pub open spec fn is_header_value_text(text: Seq<char>) -> bool {
    forall|i: int| 0 <= i < text.len() ==> header_value_char(#[trigger] text[i])
}

/// Whether `http::HeaderValue::from_str` (through `axum::http`) accepts
/// `text`. Its source checks each byte of the UTF-8 form: it accepts a byte
/// from 32 on other than 127, or a tab, and refuses the text where any byte
/// fails.
#[verifier::external_body]
fn is_header_value(text: &str) -> (r: bool)
    ensures
        r == is_header_value_text(text@),
{
    axum::http::HeaderValue::from_str(text).is_ok()
}

/// Checks that every allowed origin can be sent back as a header value; the
/// first that cannot is refused as `Invalid origin configured: <origin>`.
pub fn check_origin_headers(origins: &Vec<String>) -> (r: Result<(), String>)
    ensures
        match r {
            Ok(()) => forall|i: int| 0 <= i < origins@.len() ==> is_header_value_text(#[trigger] origins@[i]@),
            Err(e) => exists|i: int|
                0 <= i < origins@.len() && !is_header_value_text(#[trigger] origins@[i]@) && (forall|j: int|
                    0 <= j < i ==> is_header_value_text(#[trigger] origins@[j]@)) && e@
                    == "Invalid origin configured: "@ + origins@[i]@,
        },
{
    let mut i: usize = 0;
    while i < origins.len()
        invariant
            i <= origins@.len(),
            forall|j: int| 0 <= j < i ==> is_header_value_text(#[trigger] origins@[j]@),
        decreases origins@.len() - i,
    {
        if !is_header_value(origins[i].as_str()) {
            let detail = String::from_str("Invalid origin configured: ").concat(origins[i].as_str());
            return Err(detail);
        }
        i = i + 1;
    }
    Ok(())
}

/// Which connections stay registered after a broadcast: those whose send
/// went through, in order.
pub open spec fn kept_after_send(ids: Seq<u64>, sent: Seq<bool>) -> Seq<u64>
    decreases ids.len(),
{
    if ids.len() == 0 || sent.len() == 0 {
        Seq::empty()
    } else {
        let rest = kept_after_send(ids.drop_last(), sent.drop_last());
        if sent.last() {
            rest.push(ids.last())
        } else {
            rest
        }
    }
}

/// The connections to keep after a broadcast in which the send to `ids[i]`
/// went through exactly where `sent[i]`: a connection whose channel is
/// closed is dropped.
pub fn kept_connections(ids: &Vec<u64>, sent: &Vec<bool>) -> (r: Vec<u64>)
    requires
        ids.len() == sent.len(),
    ensures
        r@ == kept_after_send(ids@, sent@),
{
    let mut kept: Vec<u64> = Vec::new();
    let mut i: usize = 0;
    while i < ids.len()
        invariant
            i <= ids.len() == sent.len(),
            kept@ == kept_after_send(ids@.take(i as int), sent@.take(i as int)),
        decreases ids.len() - i,
    {
        proof {
            assert(ids@.take(i + 1).drop_last() =~= ids@.take(i as int));
            assert(sent@.take(i + 1).drop_last() =~= sent@.take(i as int));
        }
        if sent[i] {
            kept.push(ids[i]);
        }
        i = i + 1;
    }
    assert(ids@.take(ids.len() as int) =~= ids@);
    assert(sent@.take(sent.len() as int) =~= sent@);
    kept
}

/// The self-hosted server and the serverless path give a session started at
/// the same time under the same lifetime the same expiry, written the same way.
pub proof fn lemma_runtimes_share_session_expiry(
    now: UtcTime,
    ttl: i64,
    identity: SessionIdentity,
    record: crate::aws_lambda::SessionRecord,
    user: crate::aws_lambda::UserRecord,
    raw_token: Seq<u8>,
)
    requires
        plus_seconds_spec(now, ttl) == Some(identity.expiry()),
        crate::aws_lambda::session_record_matches(Some(record), user, raw_token, now, ttl),
    ensures
        record.expires_at@ == rfc3339_text(identity.expiry().secs, identity.expiry().nanos),
{
}

/// The self-hosted websocket and the serverless message route judge a chat
/// frame by the same rules.
pub proof fn lemma_runtimes_share_payload_rules(
    raw: Seq<char>,
    local: Result<Option<String>, &str>,
    serverless: Result<Option<String>, &str>,
)
    requires
        crate::runtime_contract::verdict_view(local) == crate::runtime_contract::chat_text_verdict_of(raw),
        crate::runtime_contract::verdict_view(serverless) == crate::runtime_contract::chat_text_verdict_of(raw),
    ensures
        crate::runtime_contract::verdict_view(local) == crate::runtime_contract::verdict_view(serverless),
{
}

} // verus!
