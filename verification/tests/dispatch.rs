//! Settings, errors, labels, bearers and revocations.

use axum::http::header::{HeaderMap, HeaderValue};
use viralefy_api::auth::{AuthError, Claims, JWKSCache, KeyLookup, RevocationSet};
use viralefy_api::config::{env_u64, getenv, Config, Environment};
use viralefy_api::error::{DispatchError, ErrorReply};
use viralefy_api::metrics::route_label;
use viralefy_api::middleware::{
    claim_is_revoked, enforce_hot_set, enforce_hot_set_verified, extract_bearer, optional_auth,
    optional_auth_verified, require_auth, require_auth_verified, unauthorized,
};
use viralefy_api::routes::{health, ready};
use viralefy_api::text::{
    after_prefix, chars_of, decimal, has_prefix, parse_u64, same_text, trim_end, trim_start,
};

fn empty_environment() -> Environment {
    Environment {
        bind_addr: None,
        core_url: None,
        auth_url: None,
        payments_url: None,
        sender_url: None,
        database_url: None,
        internal_shared_secret: None,
        jwks_cache_ttl_secs: None,
        revoked_jtis_poll_secs: None,
        max_body_bytes: None,
        log_level: None,
    }
}

fn claims(jti: &str) -> Claims {
    Claims {
        sub: "user-7".to_string(),
        typ: "access".to_string(),
        role: "admin".to_string(),
        email: "a@b".to_string(),
        exp: 9,
        iat: -1,
        jti: jti.to_string(),
    }
}

fn revoked(ids: &[&str]) -> RevocationSet {
    RevocationSet::bootstrap(ids.iter().map(|id| id.to_string()).collect())
}

fn authorization(value: &[u8]) -> HeaderMap<HeaderValue> {
    let mut map = HeaderMap::new();
    map.append("authorization", HeaderValue::from_bytes(value).unwrap());
    map
}

fn is_refusal(reply: &ErrorReply, reason: &str) -> bool {
    reply.status == 401 && reply.code == "UNAUTHORIZED" && reply.message == reason
}

#[test]
fn an_empty_environment_gives_the_defaults() {
    let config = Config::load(empty_environment()).unwrap();
    assert_eq!(config.bind_addr, "127.0.0.1:8090");
    assert_eq!(config.core_url, "http://127.0.0.1:8084");
    assert_eq!(config.auth_url, "http://127.0.0.1:8083");
    assert_eq!(config.payments_url, "http://127.0.0.1:8081");
    assert_eq!(config.sender_url, "http://127.0.0.1:8082");
    assert_eq!(config.database_url, "");
    assert_eq!(config.internal_shared_secret, "");
    assert_eq!(config.jwks_cache_ttl_secs, 60);
    assert_eq!(config.revoked_jtis_poll_secs, 30);
    assert_eq!(config.max_body_bytes, 1_048_576);
    assert_eq!(config.log_level, "info");
}

#[test]
fn variables_override_the_defaults() {
    let env = Environment {
        bind_addr: Some("a".to_string()),
        core_url: Some("b".to_string()),
        auth_url: Some(String::new()),
        payments_url: Some("d".to_string()),
        sender_url: Some("e".to_string()),
        database_url: Some("f".to_string()),
        internal_shared_secret: Some("g".to_string()),
        jwks_cache_ttl_secs: Some("1".to_string()),
        revoked_jtis_poll_secs: Some("+2".to_string()),
        max_body_bytes: Some("003".to_string()),
        log_level: Some("h".to_string()),
    };
    let config = Config::load(env).unwrap();
    assert_eq!(config.bind_addr, "a");
    assert_eq!(config.core_url, "b");
    assert_eq!(config.auth_url, "");
    assert_eq!(config.payments_url, "d");
    assert_eq!(config.sender_url, "e");
    assert_eq!(config.database_url, "f");
    assert_eq!(config.internal_shared_secret, "g");
    assert_eq!(config.jwks_cache_ttl_secs, 1);
    assert_eq!(config.revoked_jtis_poll_secs, 2);
    assert_eq!(config.max_body_bytes, 3);
    assert_eq!(config.log_level, "h");
    assert!(JWKSCache::from_config(&config).is_none());
}

#[test]
fn the_first_bad_number_is_reported() {
    let mut env = empty_environment();
    env.max_body_bytes = Some("1 MB".to_string());
    let error = Config::load(env.clone()).unwrap_err();
    assert_eq!(error.message(), "invalid VAPI_MAX_BODY_BYTES: 1 MB");
    env.revoked_jtis_poll_secs = Some("-5".to_string());
    let error = Config::load(env.clone()).unwrap_err();
    assert_eq!(error.message(), "invalid VAPI_REVOKED_POLL_SECS: -5");
    env.jwks_cache_ttl_secs = Some(String::new());
    let error = Config::load(env).unwrap_err();
    assert_eq!(error.message(), "invalid VAPI_JWKS_CACHE_TTL_SECS: ");
}

#[test]
fn single_settings_have_defaults() {
    assert_eq!(getenv(None, "x"), "x");
    assert_eq!(getenv(Some(String::new()), "x"), "");
    assert_eq!(env_u64("KEY", None, 7).unwrap(), 7);
    assert_eq!(env_u64("KEY", Some("8".to_string()), 7).unwrap(), 8);
    let error = env_u64("KEY", Some("x".to_string()), 7).unwrap_err();
    assert_eq!(error.key, "KEY");
    assert_eq!(error.value, "x");
}

#[test]
fn the_settings_give_a_key_cache() {
    let mut env = empty_environment();
    env.auth_url = Some("http://auth/".to_string());
    let cache = JWKSCache::from_config(&Config::load(env).unwrap()).unwrap();
    assert!(matches!(
        cache.get(0),
        KeyLookup::Fetch(url) if url == "http://auth/.well-known/jwks.json"
    ));
}

#[test]
fn errors_have_status_code_and_message() {
    let cases = [
        (DispatchError::PayloadTooLarge(1048576), 413, "PAYLOAD_TOO_LARGE", "body too large: 1048576 bytes"),
        (DispatchError::BadRequest("x".to_string()), 400, "BAD_REQUEST", "invalid request: x"),
        (DispatchError::Unauthorized("x".to_string()), 401, "UNAUTHORIZED", "unauthorized: x"),
        (DispatchError::RateLimited, 429, "RATE_LIMITED", "rate limit exceeded"),
        (
            DispatchError::UpstreamUnavailable("x".to_string()),
            502,
            "BAD_GATEWAY",
            "upstream unavailable: x",
        ),
        (DispatchError::Internal("x".to_string()), 500, "INTERNAL_ERROR", "internal error: x"),
    ];
    for (error, status, code, message) in cases {
        assert_eq!(error.message(), message);
        let reply = error.into_response();
        assert_eq!(reply.status, status);
        assert_eq!(reply.code, code);
        assert_eq!(reply.message, message);
    }
}

#[test]
fn paths_are_counted_by_their_first_segment() {
    assert_eq!(route_label(None, "/v1/plans/123"), "/v1/*");
    assert_eq!(route_label(None, "/v2/anything"), "/v2/*");
    assert_eq!(route_label(None, "/v1/"), "/v1/*");
    assert_eq!(route_label(None, "/"), "/");
    assert_eq!(route_label(None, "/v1"), "/v1");
    assert_eq!(route_label(None, "//v1//x"), "/v1/*");
    assert_eq!(route_label(None, "v1/x"), "/v1/*");
    assert_eq!(route_label(None, "//"), "/other");
    assert_eq!(route_label(None, ""), "/other");
    assert_eq!(route_label(Some("/_health"), "/v1/x"), "/_health");
}

#[test]
fn a_bearer_token_follows_its_scheme() {
    assert_eq!(extract_bearer(&authorization(b"Bearer abc")), Some("abc".to_string()));
    assert_eq!(extract_bearer(&authorization(b"Bearer ")), Some(String::new()));
    assert_eq!(extract_bearer(&authorization(b"Bearer  a b")), Some(" a b".to_string()));
    assert_eq!(extract_bearer(&authorization(b"bearer abc")), None);
    assert_eq!(extract_bearer(&authorization(b"Basic abc")), None);
    assert_eq!(extract_bearer(&authorization(b"Bearer")), None);
    assert_eq!(extract_bearer(&authorization(b"Bearer \xff")), None);
    assert_eq!(extract_bearer(&HeaderMap::new()), None);
    let mut twice = authorization(b"Bearer first");
    twice.append("authorization", HeaderValue::from_static("Bearer second"));
    assert_eq!(extract_bearer(&twice), Some("first".to_string()));
}

#[test]
fn a_token_is_looked_at_where_auth_is_configured() {
    let bearer = authorization(b"Bearer abc");
    let none = HeaderMap::new();
    assert_eq!(enforce_hot_set(true, &bearer), Some("abc".to_string()));
    assert_eq!(enforce_hot_set(false, &bearer), None);
    assert_eq!(enforce_hot_set(true, &none), None);
    assert_eq!(optional_auth(true, &bearer), Some("abc".to_string()));
    assert_eq!(optional_auth(false, &bearer), None);
    assert_eq!(optional_auth(true, &none), None);
    assert_eq!(require_auth(true, &bearer).unwrap(), "abc");
    assert!(is_refusal(&require_auth(false, &bearer).unwrap_err(), "auth not configured"));
    assert!(is_refusal(&require_auth(true, &none).unwrap_err(), "missing bearer token"));
}

#[test]
fn a_revoked_token_is_refused() {
    let set = revoked(&["token-1"]);
    let refusal = enforce_hot_set_verified(&Ok(claims("token-1")), Some(&set)).unwrap();
    assert!(is_refusal(&refusal, "token revoked"));
    assert!(optional_auth_verified(Ok(claims("token-1")), Some(&set)).is_none());
    let refusal = require_auth_verified(Ok(claims("token-1")), Some(&set)).unwrap_err();
    assert!(is_refusal(&refusal, "token revoked"));
}

#[test]
fn a_verified_token_gets_in() {
    let set = revoked(&["token-1"]);
    for known in [Some(&set), None] {
        assert!(enforce_hot_set_verified(&Ok(claims("token-2")), known).is_none());
        assert_eq!(optional_auth_verified(Ok(claims("token-2")), known).unwrap().jti, "token-2");
        let bearer = require_auth_verified(Ok(claims("token-2")), known).unwrap();
        assert_eq!(bearer.sub, "user-7");
        assert_eq!(bearer.iat, -1);
    }
    assert!(require_auth_verified(Ok(claims("token-1")), None).is_ok());
    assert!(require_auth_verified(Ok(claims("")), Some(&revoked(&[""]))).is_ok());
}

#[test]
fn a_token_that_does_not_verify_is_refused_where_required() {
    let cases = [
        (AuthError::Expired, "token expired"),
        (AuthError::Revoked, "token revoked"),
        (AuthError::Malformed, "token malformed"),
        (AuthError::InvalidSignature, "invalid signature"),
        (AuthError::Missing, "auth error"),
        (AuthError::JWKSUnreachable("x".to_string()), "auth error"),
    ];
    for (error, reason) in cases {
        assert!(is_refusal(&require_auth_verified(Err(error), None).unwrap_err(), reason));
    }
    assert!(optional_auth_verified(Err(AuthError::Expired), None).is_none());
    assert!(enforce_hot_set_verified(&Err(AuthError::Expired), Some(&revoked(&["x"]))).is_none());
    assert!(is_refusal(&unauthorized("some reason"), "some reason"));
}

#[test]
fn revocations_come_by_list_and_by_notification() {
    let nothing = RevocationSet::new();
    assert!(!nothing.is_revoked("a"));
    let listed = revoked(&["a", "b", "a"]);
    assert!(listed.is_revoked("a"));
    assert!(listed.is_revoked("b"));
    assert!(!listed.is_revoked("c"));
    let grown = listed.notified("c").unwrap();
    assert!(grown.is_revoked("a"));
    assert!(grown.is_revoked("b"));
    assert!(grown.is_revoked("c"));
    assert!(!grown.is_revoked("d"));
    assert!(!listed.is_revoked("c"));
    let again = grown.notified("c").unwrap();
    assert!(again.is_revoked("a"));
    assert!(again.is_revoked("c"));
    assert!(listed.notified("").is_none());
    assert!(!revoked(&["c"]).is_revoked("a"));
}

#[test]
fn the_order_of_revocations_does_not_matter() {
    let one = revoked(&["a", "b", "b"]);
    let other = revoked(&["b", "a"]);
    for id in ["a", "b", "c", ""] {
        assert_eq!(one.is_revoked(id), other.is_revoked(id));
    }
}

#[test]
fn a_token_without_id_is_never_revoked() {
    assert!(!revoked(&[""]).is_revoked(""));
    assert!(!claim_is_revoked(&claims(""), Some(&revoked(&[""]))));
    assert!(claim_is_revoked(&claims("x"), Some(&revoked(&["x"]))));
    assert!(!claim_is_revoked(&claims("x"), None));
}

#[test]
fn probes_are_answered() {
    let health = health("0.1.0");
    assert_eq!(health.status, "ok");
    assert_eq!(health.service, "viralefy-api");
    assert_eq!(health.stage, "scaffold");
    assert_eq!(health.version, "0.1.0");
    let ready = ready();
    assert!(ready.ready);
    for check in [
        ready.db,
        ready.jwks,
        ready.upstream_core,
        ready.upstream_auth,
        ready.upstream_payments,
        ready.upstream_sender,
    ] {
        assert_eq!(check, "skipped (scaffold)");
    }
}

#[test]
fn numbers_are_read_and_written_in_decimal() {
    assert_eq!(decimal(0), "0");
    assert_eq!(decimal(9), "9");
    assert_eq!(decimal(10), "10");
    assert_eq!(decimal(1234567890), "1234567890");
    assert_eq!(decimal(u64::MAX), "18446744073709551615");
    assert_eq!(parse_u64("0"), Some(0));
    assert_eq!(parse_u64("+17"), Some(17));
    assert_eq!(parse_u64("0017"), Some(17));
    assert_eq!(parse_u64("18446744073709551615"), Some(u64::MAX));
    assert_eq!(parse_u64("18446744073709551616"), None);
    assert_eq!(parse_u64("99999999999999999999"), None);
    assert_eq!(parse_u64(""), None);
    assert_eq!(parse_u64("+"), None);
    assert_eq!(parse_u64("-1"), None);
    assert_eq!(parse_u64(" 1"), None);
    assert_eq!(parse_u64("1x"), None);
    for text in ["0", "+0", "++1", "1_000", "007", "", "18446744073709551616"] {
        assert_eq!(parse_u64(text), text.parse::<u64>().ok());
    }
}

#[test]
fn texts_are_taken_by_character() {
    assert_eq!(chars_of("a\u{e9}"), ['a', '\u{e9}']);
    assert!(same_text("a\u{e9}", "a\u{e9}"));
    assert!(!same_text("a", "ab"));
    assert!(!same_text("ab", "ac"));
    assert!(has_prefix("\u{e9}ab", "\u{e9}a"));
    assert!(has_prefix("a", ""));
    assert!(!has_prefix("a", "ab"));
    assert!(!has_prefix("ba", "a"));
    assert_eq!(after_prefix("\u{e9}ab", "\u{e9}"), Some("ab"));
    assert_eq!(after_prefix("ab", "b"), None);
    assert_eq!(trim_end("/a//", '/'), "/a");
    assert_eq!(trim_end("//", '/'), "");
    assert_eq!(trim_start("//a/", '/'), "a/");
    assert_eq!(trim_start("", '/'), "");
}
