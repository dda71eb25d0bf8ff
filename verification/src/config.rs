//! Settings of the dispatcher, read from environment variables.

use vstd::prelude::*;

use crate::text::{decimal_text, parse_u64, parsed_u64, written_numbers_are_read_back};

verus! {

/// Settings of the dispatcher.
#[derive(Debug, Clone)]
pub struct Config {
    pub bind_addr: String,
    pub core_url: String,
    pub auth_url: String,
    pub payments_url: String,
    pub sender_url: String,
    pub database_url: String,
    pub internal_shared_secret: String,
    pub jwks_cache_ttl_secs: u64,
    pub revoked_jtis_poll_secs: u64,
    pub max_body_bytes: usize,
    pub log_level: String,
}

/// The environment variables that the settings come from, absent where they are not set.
#[derive(Debug, Clone)]
pub struct Environment {
    /// `VAPI_BIND_ADDR`
    pub bind_addr: Option<String>,
    /// `VAPI_CORE_URL`
    pub core_url: Option<String>,
    /// `VAPI_AUTH_URL`
    pub auth_url: Option<String>,
    /// `VAPI_PAYMENTS_URL`
    pub payments_url: Option<String>,
    /// `VAPI_SENDER_URL`
    pub sender_url: Option<String>,
    /// `DATABASE_URL`
    pub database_url: Option<String>,
    /// `INTERNAL_SHARED_SECRET`
    pub internal_shared_secret: Option<String>,
    /// `VAPI_JWKS_CACHE_TTL_SECS`
    pub jwks_cache_ttl_secs: Option<String>,
    /// `VAPI_REVOKED_POLL_SECS`
    pub revoked_jtis_poll_secs: Option<String>,
    /// `VAPI_MAX_BODY_BYTES`
    pub max_body_bytes: Option<String>,
    /// `VAPI_LOG_LEVEL`
    pub log_level: Option<String>,
}

/// A variable that should hold a number and does not.
#[derive(Debug)]
pub struct InvalidSetting {
    pub key: &'static str,
    pub value: String,
}

impl InvalidSetting {
    /// What is wrong with the variable.
    pub fn message(&self) -> (message: String)
        ensures
            message@ == "invalid "@ + self.key@ + ": "@ + self.value@,
    {
        "invalid ".to_string().concat(self.key).concat(": ").concat(self.value.as_str())
    }
}

/// The text of a variable, or its default.
pub open spec fn text_setting(var: Option<String>, default: Seq<char>) -> Seq<char> {
    match var {
        Some(value) => value@,
        None => default,
    }
}

/// The number in a variable, or its default; nothing where the variable holds no number.
pub open spec fn number_setting(var: Option<String>, default: u64) -> Option<u64> {
    match var {
        Some(value) => parsed_u64(value@),
        None => Some(default),
    }
}

/// The text of a variable, or its default.
pub fn getenv(var: Option<String>, default: &str) -> (value: String)
    ensures
        value@ == text_setting(var, default@),
{
    match var {
        Some(value) => value,
        None => default.to_string(),
    }
}

/// The number in a variable, or its default.
pub fn env_u64(key: &'static str, var: Option<String>, default: u64) -> (value: Result<
    u64,
    InvalidSetting,
>)
    ensures
        match value {
            Ok(n) => number_setting(var, default) == Some(n),
            Err(e) => number_setting(var, default) is None && e.key@ == key@ && var is Some
                && e.value@ == var->0@,
        },
{
    match var {
        Some(value) => match parse_u64(value.as_str()) {
            Some(n) => Ok(n),
            None => Err(InvalidSetting { key, value }),
        },
        None => Ok(default),
    }
}

impl Environment {
    /// How long fetched keys stay fresh.
    pub open spec fn ttl_secs(&self) -> Option<u64> {
        number_setting(self.jwks_cache_ttl_secs, 60)
    }

    /// How often the revoked token ids are read anew.
    pub open spec fn poll_secs(&self) -> Option<u64> {
        number_setting(self.revoked_jtis_poll_secs, 30)
    }

    /// The largest body that is forwarded.
    pub open spec fn body_bytes(&self) -> Option<u64> {
        number_setting(self.max_body_bytes, 1_048_576)
    }
}

impl Config {
    /// The settings that an environment gives. The first variable that should hold a number and
    /// does not is reported.
    pub fn load(env: Environment) -> (config: Result<Config, InvalidSetting>)
        ensures
            config is Ok <==> env.ttl_secs() is Some && env.poll_secs() is Some && env.body_bytes() is Some,
            config matches Ok(c) ==> {
                &&& c.bind_addr@ == text_setting(env.bind_addr, "127.0.0.1:8090"@)
                &&& c.core_url@ == text_setting(env.core_url, "http://127.0.0.1:8084"@)
                &&& c.auth_url@ == text_setting(env.auth_url, "http://127.0.0.1:8083"@)
                &&& c.payments_url@ == text_setting(env.payments_url, "http://127.0.0.1:8081"@)
                &&& c.sender_url@ == text_setting(env.sender_url, "http://127.0.0.1:8082"@)
                &&& c.database_url@ == text_setting(env.database_url, ""@)
                &&& c.internal_shared_secret@ == text_setting(env.internal_shared_secret, ""@)
                &&& c.jwks_cache_ttl_secs == env.ttl_secs()->0
                &&& c.revoked_jtis_poll_secs == env.poll_secs()->0
                &&& c.max_body_bytes == env.body_bytes()->0 as usize
                &&& c.log_level@ == text_setting(env.log_level, "info"@)
            },
            config matches Err(e) ==> if env.ttl_secs() is None {
                e.key@ == "VAPI_JWKS_CACHE_TTL_SECS"@ && e.value@ == env.jwks_cache_ttl_secs->0@
            } else if env.poll_secs() is None {
                e.key@ == "VAPI_REVOKED_POLL_SECS"@ && e.value@ == env.revoked_jtis_poll_secs->0@
            } else {
                e.key@ == "VAPI_MAX_BODY_BYTES"@ && e.value@ == env.max_body_bytes->0@
            },
    {
        let jwks_cache_ttl_secs: u64 = match env_u64(
            "VAPI_JWKS_CACHE_TTL_SECS",
            env.jwks_cache_ttl_secs,
            60,
        ) {
            Ok(n) => n,
            Err(e) => {
                return Err(e);
            },
        };
        // Notifications carry revocations in real time. Reading them all anew only covers for a
        // lost listening connection.
        let revoked_jtis_poll_secs: u64 = match env_u64(
            "VAPI_REVOKED_POLL_SECS",
            env.revoked_jtis_poll_secs,
            30,
        ) {
            Ok(n) => n,
            Err(e) => {
                return Err(e);
            },
        };
        let max_body_bytes: u64 = match env_u64(
            "VAPI_MAX_BODY_BYTES",
            env.max_body_bytes,
            1_048_576,
        ) {
            Ok(n) => n,
            Err(e) => {
                return Err(e);
            },
        };
        Ok(
            Config {
                bind_addr: getenv(env.bind_addr, "127.0.0.1:8090"),
                core_url: getenv(env.core_url, "http://127.0.0.1:8084"),
                auth_url: getenv(env.auth_url, "http://127.0.0.1:8083"),
                payments_url: getenv(env.payments_url, "http://127.0.0.1:8081"),
                sender_url: getenv(env.sender_url, "http://127.0.0.1:8082"),
                database_url: getenv(env.database_url, ""),
                internal_shared_secret: getenv(env.internal_shared_secret, ""),
                jwks_cache_ttl_secs,
                revoked_jtis_poll_secs,
                max_body_bytes: max_body_bytes as usize,
                log_level: getenv(env.log_level, "info"),
            },
        )
    }
}

/// A text that is set is taken as it is, and the default where it is not.
pub proof fn texts_are_taken_as_they_are(value: String, default: Seq<char>)
    ensures
        text_setting(Some(value), default) == value@,
        text_setting(None, default) == default,
{
}

/// A number that is set is read as such, whatever its default. Keys stay fresh for a minute,
/// revocations are read every half minute and bodies of a mebibyte are forwarded, unless the
/// environment says otherwise.
pub proof fn numbers_are_read_or_default(env: Environment)
    ensures
        env.ttl_secs() == match env.jwks_cache_ttl_secs {
            Some(text) => parsed_u64(text@),
            None => Some(60u64),
        },
        env.poll_secs() == match env.revoked_jtis_poll_secs {
            Some(text) => parsed_u64(text@),
            None => Some(30u64),
        },
        env.body_bytes() == match env.max_body_bytes {
            Some(text) => parsed_u64(text@),
            None => Some(1_048_576u64),
        },
{
}

/// The number in a variable is the one that is written there, and the default where nothing is.
pub proof fn a_written_setting_is_read_back(var: Option<String>, n: u64, default: u64)
    ensures
        var is None ==> number_setting(var, default) == Some(default),
        var matches Some(text) && text@ == decimal_text(n as nat) ==> number_setting(var, default)
            == Some(n),
{
    written_numbers_are_read_back(n);
}

} // verus!
