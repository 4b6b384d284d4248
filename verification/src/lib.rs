//! Logic of a small real-time chat service: credential and payload
//! validation, session and message stores, runtime telemetry counters and
//! the decisions taken by the HTTP and websocket handlers.

use vstd::prelude::*;

pub mod aws_lambda;
pub mod clock;
pub mod crypto;
pub mod gateway;
pub mod json;
pub mod numeric;
pub mod runtime_contract;
pub mod server;
pub mod telemetry;
pub mod text;
pub mod text_map;

verus! {

/// The largest chat frame accepted, in bytes of UTF-8.
pub const MAX_FRAME_BYTES: usize = 4096;

/// The most characters a chat message may hold after trimming.
pub const MAX_TEXT_CHARS: usize = 1000;

/// The most characters a display name may hold after trimming.
pub const MAX_SENDER_CHARS: usize = 48;

/// The most characters a username may hold after normalization.
pub const MAX_USERNAME_CHARS: usize = 24;

/// The fewest characters a password may hold.
pub const MIN_PASSWORD_CHARS: usize = 8;

/// The session lifetime used where none is configured.
pub const DEFAULT_SESSION_TTL_SECONDS: i64 = 3600;

/// The browser origins allowed where `ALLOWED_ORIGINS` is not set.
pub const DEFAULT_ALLOWED_ORIGINS: [&'static str; 12] = [
    "http://localhost:5173",
    "http://127.0.0.1:5173",
    "http://localhost:5174",
    "http://127.0.0.1:5174",
    "http://localhost:5175",
    "http://127.0.0.1:5175",
    "http://localhost:5176",
    "http://127.0.0.1:5176",
    "http://localhost:5177",
    "http://127.0.0.1:5177",
    "http://localhost:5178",
    "http://127.0.0.1:5178",
];

} // verus!
