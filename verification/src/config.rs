//! Runtime configuration, read from environment variables. Every value has a
//! default, so the server runs without any.

use vstd::prelude::*;

use crate::table::StrMap;
use crate::text::{decimal, parse_uint};

verus! {

/// The configuration of a server.
#[derive(Clone, Debug)]
pub struct Config {
    pub host: String,
    pub port: u16,
    pub base_url: String,
    /// Where rooms are stored; without it they live in memory only.
    pub database_url: Option<String>,
    pub bcrypt_cost: u32,
    pub default_ttl_seconds: u64,
    pub max_ttl_seconds: u64,
    pub default_max_messages: usize,
    pub max_messages_per_room: usize,
    pub default_max_participants: usize,
    pub max_participants_per_room: usize,
    pub default_rate_limit_seconds: u64,
    pub max_message_length: usize,
    pub ttl_sweep_interval_seconds: u64,
    /// How many rooms an address may open within the window.
    pub room_creation_limit: usize,
    pub room_creation_window_seconds: u64,
}

/// The longest rate limit a room can have, in seconds.
pub const MAX_RATE_LIMIT_SECONDS: u64 = 3600;

/// The text of a variable, or its default.
pub open spec fn text_var(
    vars: Map<Seq<char>, String>,
    key: Seq<char>,
    default: Seq<char>,
) -> Seq<char> {
    if vars.contains_key(key) {
        vars[key]@
    } else {
        default
    }
}

/// The number in a variable. A variable that is missing, or that does not hold
/// a number in range, counts as its default.
pub open spec fn uint_var(
    vars: Map<Seq<char>, String>,
    key: Seq<char>,
    default: int,
    max: int,
) -> int {
    if vars.contains_key(key) {
        match decimal(vars[key]@, max) {
            Some(n) => n,
            None => default,
        }
    } else {
        default
    }
}

/// The value in `[1, max]` nearest to the requested one, or to the default if
/// none was requested.
pub open spec fn clamped(requested: Option<int>, default: int, max: int) -> int {
    let n = match requested {
        Some(n) => n,
        None => default,
    };
    if n < 1 {
        1
    } else if n > max {
        max
    } else {
        n
    }
}

/// A requested rate limit in seconds, cut to the longest one.
pub open spec fn clamped_rate(requested: Option<u64>, default: u64) -> u64 {
    let n = match requested {
        Some(n) => n,
        None => default,
    };
    if n < MAX_RATE_LIMIT_SECONDS {
        n
    } else {
        MAX_RATE_LIMIT_SECONDS
    }
}

/// An optional length as an integer.
pub open spec fn opt_int(n: Option<usize>) -> Option<int> {
    match n {
        Some(n) => Some(n as int),
        None => None,
    }
}

/// An optional number of seconds as an integer.
pub open spec fn opt_seconds(n: Option<u64>) -> Option<int> {
    match n {
        Some(n) => Some(n as int),
        None => None,
    }
}

/// The text of a variable, or its default.
fn read_text(vars: &StrMap<String>, key: &str, default: &str) -> (r: String)
    ensures
        r@ == text_var(vars@, key@, default@),
{
    match vars.get(key) {
        Some(v) => v.clone(),
        None => default.to_owned(),
    }
}

/// The number in a variable, or its default.
fn read_uint(vars: &StrMap<String>, key: &str, default: u64, max: u64) -> (r: u64)
    requires
        default <= max,
    ensures
        r == uint_var(vars@, key@, default as int, max as int),
        r <= max,
{
    match vars.get(key) {
        Some(v) => match parse_uint(v.as_str(), max) {
            Some(n) => n,
            None => default,
        },
        None => default,
    }
}

impl Config {
    /// Whether a room can be opened under this configuration at all: every cap
    /// admits at least 1.
    pub open spec fn usable(self) -> bool {
        &&& self.max_ttl_seconds >= 1
        &&& self.max_messages_per_room >= 1
        &&& self.max_participants_per_room >= 1
    }

    /// Reads the configuration out of environment variables.
    pub fn from_env(vars: &StrMap<String>) -> (r: Config)
        ensures
            r.host@ == text_var(vars@, "HOST"@, "0.0.0.0"@),
            r.port == uint_var(vars@, "PORT"@, 8080, u16::MAX as int),
            r.base_url@ == text_var(vars@, "BASE_URL"@, "http://localhost:8080"@),
            match r.database_url {
                Some(url) => vars@.contains_key("DATABASE_URL"@) && url@
                    == vars@["DATABASE_URL"@]@,
                None => !vars@.contains_key("DATABASE_URL"@),
            },
            r.bcrypt_cost == uint_var(vars@, "BCRYPT_COST"@, 10, u32::MAX as int),
            r.default_ttl_seconds == uint_var(
                vars@,
                "DEFAULT_TTL_SECONDS"@,
                7200,
                u64::MAX as int,
            ),
            r.max_ttl_seconds == uint_var(vars@, "MAX_TTL_SECONDS"@, 86400, u64::MAX as int),
            r.default_max_messages == uint_var(
                vars@,
                "DEFAULT_MAX_MESSAGES"@,
                200,
                usize::MAX as int,
            ),
            r.max_messages_per_room == uint_var(
                vars@,
                "MAX_MESSAGES_PER_ROOM"@,
                1000,
                usize::MAX as int,
            ),
            r.default_max_participants == uint_var(
                vars@,
                "DEFAULT_MAX_PARTICIPANTS"@,
                100,
                usize::MAX as int,
            ),
            r.max_participants_per_room == uint_var(
                vars@,
                "MAX_PARTICIPANTS_PER_ROOM"@,
                500,
                usize::MAX as int,
            ),
            r.default_rate_limit_seconds == uint_var(
                vars@,
                "DEFAULT_RATE_LIMIT_SECONDS"@,
                3,
                u64::MAX as int,
            ),
            r.max_message_length == uint_var(vars@, "MAX_MESSAGE_LENGTH"@, 500, usize::MAX as int),
            r.ttl_sweep_interval_seconds == uint_var(
                vars@,
                "TTL_SWEEP_INTERVAL_SECONDS"@,
                60,
                u64::MAX as int,
            ),
            r.room_creation_limit == uint_var(vars@, "ROOM_CREATION_LIMIT"@, 10, usize::MAX as int),
            r.room_creation_window_seconds == uint_var(
                vars@,
                "ROOM_CREATION_WINDOW_SECONDS"@,
                3600,
                u64::MAX as int,
            ),
    {
        let max_len: u64 = usize::MAX as u64;
        Config {
            host: read_text(vars, "HOST", "0.0.0.0"),
            port: read_uint(vars, "PORT", 8080, u16::MAX as u64) as u16,
            base_url: read_text(vars, "BASE_URL", "http://localhost:8080"),
            database_url: match vars.get("DATABASE_URL") {
                Some(url) => Some(url.clone()),
                None => None,
            },
            bcrypt_cost: read_uint(vars, "BCRYPT_COST", 10, u32::MAX as u64) as u32,
            default_ttl_seconds: read_uint(vars, "DEFAULT_TTL_SECONDS", 7200, u64::MAX),
            max_ttl_seconds: read_uint(vars, "MAX_TTL_SECONDS", 86400, u64::MAX),
            default_max_messages: read_uint(vars, "DEFAULT_MAX_MESSAGES", 200, max_len) as usize,
            max_messages_per_room: read_uint(vars, "MAX_MESSAGES_PER_ROOM", 1000, max_len) as usize,
            default_max_participants: read_uint(
                vars,
                "DEFAULT_MAX_PARTICIPANTS",
                100,
                max_len,
            ) as usize,
            max_participants_per_room: read_uint(
                vars,
                "MAX_PARTICIPANTS_PER_ROOM",
                500,
                max_len,
            ) as usize,
            default_rate_limit_seconds: read_uint(
                vars,
                "DEFAULT_RATE_LIMIT_SECONDS",
                3,
                u64::MAX,
            ),
            max_message_length: read_uint(vars, "MAX_MESSAGE_LENGTH", 500, max_len) as usize,
            ttl_sweep_interval_seconds: read_uint(
                vars,
                "TTL_SWEEP_INTERVAL_SECONDS",
                60,
                u64::MAX,
            ),
            room_creation_limit: read_uint(vars, "ROOM_CREATION_LIMIT", 10, max_len) as usize,
            room_creation_window_seconds: read_uint(
                vars,
                "ROOM_CREATION_WINDOW_SECONDS",
                3600,
                u64::MAX,
            ),
        }
    }

    /// Clamps a requested lifetime in seconds into `[1, max_ttl_seconds]`.
    pub fn clamp_ttl(&self, requested: Option<u64>) -> (r: u64)
        requires
            self.max_ttl_seconds >= 1,
        ensures
            r == clamped(
                opt_seconds(requested),
                self.default_ttl_seconds as int,
                self.max_ttl_seconds as int,
            ),
    {
        let n: u64 = match requested {
            Some(n) => n,
            None => self.default_ttl_seconds,
        };
        if n < 1 {
            1
        } else if n > self.max_ttl_seconds {
            self.max_ttl_seconds
        } else {
            n
        }
    }

    /// Clamps a requested history length into `[1, max_messages_per_room]`.
    pub fn clamp_max_messages(&self, requested: Option<usize>) -> (r: usize)
        requires
            self.max_messages_per_room >= 1,
        ensures
            r == clamped(
                opt_int(requested),
                self.default_max_messages as int,
                self.max_messages_per_room as int,
            ),
    {
        clamp_len(requested, self.default_max_messages, self.max_messages_per_room)
    }

    /// Clamps a requested size into `[1, max_participants_per_room]`.
    pub fn clamp_max_participants(&self, requested: Option<usize>) -> (r: usize)
        requires
            self.max_participants_per_room >= 1,
        ensures
            r == clamped(
                opt_int(requested),
                self.default_max_participants as int,
                self.max_participants_per_room as int,
            ),
    {
        clamp_len(requested, self.default_max_participants, self.max_participants_per_room)
    }

    /// Clamps a requested rate limit in seconds to an hour, so that it can be
    /// turned into milliseconds without overflow.
    pub fn clamp_rate_limit(&self, requested: Option<u64>) -> (r: u64)
        ensures
            r == clamped_rate(requested, self.default_rate_limit_seconds),
    {
        let n: u64 = match requested {
            Some(n) => n,
            None => self.default_rate_limit_seconds,
        };
        if n < MAX_RATE_LIMIT_SECONDS {
            n
        } else {
            MAX_RATE_LIMIT_SECONDS
        }
    }
}

/// The length in `[1, max]` nearest to the requested one, or to the default.
fn clamp_len(requested: Option<usize>, default: usize, max: usize) -> (r: usize)
    requires
        max >= 1,
    ensures
        r == clamped(opt_int(requested), default as int, max as int),
{
    let n: usize = match requested {
        Some(n) => n,
        None => default,
    };
    if n < 1 {
        1
    } else if n > max {
        max
    } else {
        n
    }
}

} // verus!
