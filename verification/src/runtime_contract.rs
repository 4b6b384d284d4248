//! The rules that every runtime shares: how long a session lives, and which
//! chat payloads are accepted.

use vstd::prelude::*;
use vstd::utf8::encode_utf8;

use crate::clock::{plus_seconds, plus_seconds_spec, utc_now, UtcTime};
use crate::json::{find_member, member_value, parse_json_document, json_shape, JsonDocument, JsonShape};
use crate::numeric::{parse_i64, parse_i64_spec};
use crate::text::{chars_of, trim, trim_str};
use crate::{MAX_FRAME_BYTES, MAX_TEXT_CHARS};

verus! {

/// How long a session lives, in seconds; always positive.
#[derive(Clone, Copy, Debug)]
pub struct SessionPolicy {
    ttl_seconds: i64,
}

impl SessionPolicy {
    #[verifier::type_invariant]
    spec fn positive(self) -> bool {
        self.ttl_seconds > 0
    }

    /// The lifetime in seconds.
    pub closed spec fn ttl(self) -> i64 {
        self.ttl_seconds
    }

    /// A policy with lifetime `ttl_seconds`, refused unless it is positive.
    pub fn from_ttl_seconds(ttl_seconds: i64) -> (r: Result<Self, String>)
        ensures
            match r {
                Ok(policy) => ttl_seconds > 0 && policy.ttl() == ttl_seconds,
                Err(e) => ttl_seconds <= 0 && e@ == "SESSION_TTL_SECONDS must be greater than zero."@,
            },
    {
        if ttl_seconds <= 0 {
            return Err(String::from_str("SESSION_TTL_SECONDS must be greater than zero."));
        }
        Ok(Self { ttl_seconds })
    }

    /// The policy read from the text of `SESSION_TTL_SECONDS`: `None` (the
    /// variable is unset) gives the default lifetime; otherwise the trimmed text
    /// must parse as an `i64` and the lifetime must be positive.
    pub fn from_ttl_text(raw: Option<&str>) -> (r: Result<Self, String>)
        ensures
            match raw {
                None => r matches Ok(p) && p.ttl() == crate::DEFAULT_SESSION_TTL_SECONDS,
                Some(text) => match parse_i64_spec(trim(text@)) {
                    None => r matches Err(e) && e@ == "SESSION_TTL_SECONDS must be an integer."@,
                    Some(v) => match r {
                        Ok(p) => v > 0 && p.ttl() == v,
                        Err(e) => v <= 0 && e@ == "SESSION_TTL_SECONDS must be greater than zero."@,
                    },
                },
            },
    {
        match raw {
            None => Self::from_ttl_seconds(crate::DEFAULT_SESSION_TTL_SECONDS),
            Some(text) => {
                let chars = chars_of(trim_str(text));
                match parse_i64(&chars) {
                    None => Err(String::from_str("SESSION_TTL_SECONDS must be an integer.")),
                    Some(v) => Self::from_ttl_seconds(v),
                }
            },
        }
    }

    /// The lifetime in seconds, which is positive.
    pub fn ttl_seconds(self) -> (r: i64)
        ensures
            r == self.ttl(),
            r > 0,
    {
        proof {
            use_type_invariant(&self);
        }
        self.ttl_seconds
    }

    /// The expiry of a session that starts at `now`: `now` plus the lifetime,
    /// or `None` where that lies beyond what a `chrono` time can hold.
    pub fn expires_at_from(self, now: UtcTime) -> (r: Option<UtcTime>)
        requires
            now.representable(),
        ensures
            r == plus_seconds_spec(now, self.ttl()),
    {
        plus_seconds(now, self.ttl_seconds)
    }

    /// The expiry of a session that starts now. The current time is read from
    /// the system clock; whatever it is, the result is that time plus the
    /// lifetime, or `None` where that is out of `chrono`'s range.
    pub fn expires_at(self) -> (r: Option<UtcTime>)
        ensures
            exists|now: UtcTime| now.representable() && r == plus_seconds_spec(now, self.ttl()),
    {
        let now = utc_now();
        self.expires_at_from(now)
    }
}

/// A payload whose frame exceeds `MAX_FRAME_BYTES`.
pub open spec fn frame_too_large() -> Seq<char> {
    "Frame exceeds maximum allowed size (4096 bytes)."@
}

/// The verdict on a chat frame of `byte_len` bytes whose JSON reads as `doc`:
/// `Ok(None)` for a blank message, `Ok(Some(text))` for an accepted one, and
/// `Err(detail)` for a rejected one.
pub open spec fn chat_text_verdict(byte_len: nat, doc: JsonShape) -> Result<Option<Seq<char>>, Seq<char>> {
    if byte_len > MAX_FRAME_BYTES {
        Err(frame_too_large())
    } else {
        match doc {
            JsonShape::Malformed => Err("Malformed JSON - message was not delivered."@),
            JsonShape::NotObject => Err("Payload must be a JSON object."@),
            JsonShape::Object(members) => if member_value(members, "sender"@) is Some {
                Err("Field 'sender' is server-owned and must not be sent by clients."@)
            } else {
                match member_value(members, "text"@) {
                    Some(Some(raw_text)) => {
                        let text = trim(raw_text);
                        if text.len() == 0 {
                            Ok(None)
                        } else if text.len() > MAX_TEXT_CHARS {
                            Err("Message text exceeds 1000 characters."@)
                        } else {
                            Ok(Some(text))
                        }
                    },
                    _ => Err("Field 'text' must be a string."@),
                }
            },
        }
    }
}

/// The verdict on the chat frame `raw`; its size is `str::len`, the length
/// of its UTF-8 encoding.
pub open spec fn chat_text_verdict_of(raw: Seq<char>) -> Result<Option<Seq<char>>, Seq<char>> {
    chat_text_verdict((encode_utf8(raw).len() as usize) as nat, json_shape(raw))
}

/// A validation result read as a verdict.
pub open spec fn verdict_view(r: Result<Option<String>, &str>) -> Result<Option<Seq<char>>, Seq<char>> {
    match r {
        Ok(Some(t)) => Ok(Some(t@)),
        Ok(None) => Ok(None),
        Err(e) => Err(e@),
    }
}

/// The verdict on a chat frame of `byte_len` bytes whose JSON parsed as
/// `doc`: the size limit first, then the shape, the server-owned `sender`
/// member, and the string `text` member, trimmed.
pub fn chat_text_from_document(byte_len: usize, doc: JsonDocument) -> (r: Result<Option<String>, &'static str>)
    ensures
        verdict_view(r) == chat_text_verdict(byte_len as nat, doc@),
{
    if byte_len > MAX_FRAME_BYTES {
        return Err("Frame exceeds maximum allowed size (4096 bytes).");
    }
    match doc {
        JsonDocument::Malformed => Err("Malformed JSON - message was not delivered."),
        JsonDocument::NotObject => Err("Payload must be a JSON object."),
        JsonDocument::Object(members) => {
            let sender_key = String::from_str("sender");
            if find_member(&members, &sender_key).is_some() {
                return Err("Field 'sender' is server-owned and must not be sent by clients.");
            }
            let text_key = String::from_str("text");
            match find_member(&members, &text_key) {
                Some(Some(raw_text)) => {
                    let text = trim_str(raw_text.as_str());
                    let count = text.unicode_len();
                    if count == 0 {
                        Ok(None)
                    } else if count > MAX_TEXT_CHARS {
                        Err("Message text exceeds 1000 characters.")
                    } else {
                        Ok(Some(String::from_str(text)))
                    }
                },
                _ => Err("Field 'text' must be a string."),
            }
        },
    }
}

/// Validates a chat frame sent by a client: it must fit in `MAX_FRAME_BYTES`,
/// be a JSON object without a `sender` member, and carry a string `text`
/// whose trimmed form holds at most `MAX_TEXT_CHARS` characters. A blank text
/// gives `Ok(None)`. A frame over the size limit is not parsed.
pub fn parse_and_validate_chat_text(raw: &str) -> (r: Result<Option<String>, &'static str>)
    ensures
        verdict_view(r) == chat_text_verdict_of(raw@),
{
    if raw.len() > MAX_FRAME_BYTES {
        return Err("Frame exceeds maximum allowed size (4096 bytes).");
    }
    let doc = parse_json_document(raw);
    chat_text_from_document(raw.len(), doc)
}

/// A frame's size alone refuses it exactly when its UTF-8 form has more than
/// 4096 bytes: a frame of at most 4096 bytes is never refused for its size,
/// and one of more is refused with the size detail whatever it holds.
pub proof fn lemma_frame_limit_is_4096_bytes(raw: Seq<char>)
    ensures
        encode_utf8(raw).len() <= 4096 ==> chat_text_verdict_of(raw) != Err::<Option<Seq<char>>, Seq<char>>(
            frame_too_large(),
        ),
        4096 < encode_utf8(raw).len() <= usize::MAX ==> chat_text_verdict_of(raw) == Err::<
            Option<Seq<char>>,
            Seq<char>,
        >("Frame exceeds maximum allowed size (4096 bytes)."@),
{
    reveal_strlit("Frame exceeds maximum allowed size (4096 bytes).");
    reveal_strlit("Malformed JSON - message was not delivered.");
    reveal_strlit("Payload must be a JSON object.");
    reveal_strlit("Field 'sender' is server-owned and must not be sent by clients.");
    reveal_strlit("Message text exceeds 1000 characters.");
    reveal_strlit("Field 'text' must be a string.");
    assert(frame_too_large().len() == 48);
    assert("Malformed JSON - message was not delivered."@.len() == 43);
    assert("Payload must be a JSON object."@.len() == 30);
    assert("Field 'sender' is server-owned and must not be sent by clients."@.len() == 63);
    assert("Message text exceeds 1000 characters."@.len() == 37);
    assert("Field 'text' must be a string."@.len() == 30);
}

/// Within the size limit, an object without a `sender` member and with a
/// string `text` is judged by its trimmed text alone, counted in characters:
/// blank is ignored, 1 to 1000 characters are accepted as trimmed, more are
/// refused. A `sender` member refuses the frame whatever `text` holds.
pub proof fn lemma_chat_text_rules(byte_len: nat, members: Seq<(Seq<char>, Option<Seq<char>>)>, raw_text: Seq<char>)
    requires
        byte_len <= 4096,
    ensures
        (member_value(members, "sender"@) is None && member_value(members, "text"@) == Some(Some(raw_text)))
            ==> chat_text_verdict(byte_len, JsonShape::Object(members)) == (if trim(raw_text).len() == 0 {
            Ok::<Option<Seq<char>>, Seq<char>>(None)
        } else if trim(raw_text).len() <= 1000 {
            Ok(Some(trim(raw_text)))
        } else {
            Err("Message text exceeds 1000 characters."@)
        }),
        member_value(members, "sender"@) is Some ==> chat_text_verdict(byte_len, JsonShape::Object(members))
            == Err::<Option<Seq<char>>, Seq<char>>(
            "Field 'sender' is server-owned and must not be sent by clients."@,
        ),
{
}

/// An accepted chat text is not blank, holds at most `MAX_TEXT_CHARS`
/// characters, has no whitespace at either end, and came in a frame of at
/// most `MAX_FRAME_BYTES` bytes.
pub proof fn lemma_accepted_chat_text_is_clean(raw: Seq<char>)
    requires
        chat_text_verdict_of(raw) matches Ok(Some(t)),
    ensures
        ({
            let t = chat_text_verdict_of(raw)->Ok_0->Some_0;
            &&& 0 < t.len() <= MAX_TEXT_CHARS
            &&& trim(t) == t
            &&& (encode_utf8(raw).len() as usize) <= MAX_FRAME_BYTES
        }),
{
    match json_shape(raw) {
        JsonShape::Object(members) => {
            match member_value(members, "text"@) {
                Some(Some(raw_text)) => {
                    crate::text::lemma_trim_idempotent(raw_text);
                },
                _ => {},
            }
        },
        _ => {},
    }
}

} // verus!
