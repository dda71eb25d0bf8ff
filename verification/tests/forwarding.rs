//! Routing, and what goes through in either direction.

use axum::http::header::{HeaderMap, HeaderName, HeaderValue};
use viralefy_api::config::{Config, Environment};
use viralefy_api::error::DispatchError;
use viralefy_api::headers::{
    client_headers, is_forwarded_header, is_hop_by_hop_header, upstream_headers,
    MAX_FORWARDED_NAMES,
};
use viralefy_api::proxy::{
    forward, forward_body, forward_reply, proxy_handler, resolve_upstream, resolve_upstream_opt,
    upstream_cut_off, upstream_label, upstream_unreachable, BodyFailure, Upstream,
};

fn empty_environment() -> Environment {
    Environment {
        bind_addr: None,
        core_url: None,
        auth_url: None,
        payments_url: None,
        sender_url: None,
        database_url: None,
        internal_shared_secret: None,
        jwks_cache_ttl_secs: None,
        revoked_jtis_poll_secs: None,
        max_body_bytes: None,
        log_level: None,
    }
}

fn config() -> Config {
    let mut env = empty_environment();
    env.core_url = Some("http://core".to_string());
    env.auth_url = Some("http://auth///".to_string());
    env.payments_url = Some("http://payments/base/".to_string());
    env.internal_shared_secret = Some("shared secret".to_string());
    Config::load(env).unwrap()
}

fn headers(list: &[(&str, &str)]) -> HeaderMap<HeaderValue> {
    let mut map = HeaderMap::new();
    for (name, value) in list {
        map.append(
            HeaderName::from_bytes(name.as_bytes()).unwrap(),
            HeaderValue::from_str(value).unwrap(),
        );
    }
    map
}

/// A name that a header map takes as it is, though it holds blanks.
fn odd_name() -> &'static str {
    "x-forwarded-a name of more than sixty-four characters with some blanks in it"
}

fn values(map: &HeaderMap<HeaderValue>, name: &str) -> Vec<String> {
    map.get_all(name).iter().map(|v| v.to_str().unwrap().to_string()).collect()
}

#[test]
fn auth_paths_go_to_auth() {
    for path in [
        "/v1/auth",
        "/v1/auth/refresh",
        "/v1/authors",
        "/.well-known/jwks.json",
        "/.well-known/jwks.json5",
        "/v1/login",
        "/v1/register",
        "/v1/refresh",
        "/v1/logout",
    ] {
        assert_eq!(resolve_upstream(path), Upstream::Auth);
        assert_eq!(resolve_upstream_opt(path), Some(Upstream::Auth));
    }
}

#[test]
fn payment_callbacks_go_to_payments() {
    for provider in ["stripe", "heleket", "woovi", "abacatepay"] {
        let path = format!("/v1/webhooks/{}", provider);
        assert_eq!(resolve_upstream(&path), Upstream::Payments);
        assert_eq!(resolve_upstream(&format!("{}/x", path)), Upstream::Payments);
    }
}

#[test]
fn everything_else_goes_to_core() {
    for path in [
        "",
        "/",
        "/v1/plans",
        "/v1/me",
        "/v1/admin",
        "/v1/checkout",
        "/v2/anything",
        "/v2/login",
        "/v1/login/",
        "/v1/logins",
        "/v1/webhooks/other",
        "/v1/webhooks",
    ] {
        assert_eq!(resolve_upstream(path), Upstream::Core);
    }
}

#[test]
fn upstreams_have_addresses_and_names() {
    let config = config();
    assert_eq!(Upstream::Core.base_url(&config), "http://core");
    assert_eq!(Upstream::Auth.base_url(&config), "http://auth///");
    assert_eq!(Upstream::Payments.base_url(&config), "http://payments/base/");
    assert_eq!(Upstream::Sender.base_url(&config), "http://127.0.0.1:8082");
    assert_eq!(upstream_label(Upstream::Core), "core");
    assert_eq!(upstream_label(Upstream::Auth), "auth");
    assert_eq!(upstream_label(Upstream::Payments), "payments");
    assert_eq!(upstream_label(Upstream::Sender), "sender");
}

#[test]
fn a_request_goes_to_its_upstream_with_its_query() {
    let incoming = headers(&[("accept", "text/html"), ("cookie", "a=b")]);
    let plan = forward(&config(), "/v1/plans", Some("/v1/plans?page=2"), &incoming).unwrap();
    assert_eq!(plan.upstream, Upstream::Core);
    assert_eq!(plan.target_url, "http://core/v1/plans?page=2");
    assert_eq!(values(&plan.headers, "accept"), ["text/html"]);
    assert_eq!(values(&plan.headers, "x-internal-token"), ["shared secret"]);
    assert_eq!(plan.headers.len(), 2);
    let plan = forward(&config(), "/v1/login", None, &incoming).unwrap();
    assert_eq!(plan.upstream, Upstream::Auth);
    assert_eq!(plan.target_url, "http://auth/v1/login");
}

#[test]
fn slashes_behind_an_address_do_not_matter() {
    let plain = config();
    let mut slashed = config();
    slashed.core_url = "http://core////".to_string();
    let none = headers(&[]);
    assert_eq!(
        forward(&plain, "/v2/x", None, &none).unwrap().target_url,
        forward(&slashed, "/v2/x", None, &none).unwrap().target_url
    );
}

#[test]
fn unsafe_paths_are_not_forwarded() {
    let refused = proxy_handler(&config(), "/../x", Some("/../x"), &headers(&[]));
    assert!(matches!(refused, Err(DispatchError::BadRequest(text)) if text == "unsafe path"));
    let refused = proxy_handler(&config(), "/v1/me", Some("/v1/me?x=../y"), &headers(&[]));
    assert!(matches!(refused, Err(DispatchError::BadRequest(text)) if text == "unsafe path"));
    let plan = proxy_handler(&config(), "/v1/me", Some("/v1/me?x=1"), &headers(&[]));
    assert!(matches!(plan, Ok(plan) if plan.target_url == "http://core/v1/me?x=1"));
}

#[test]
fn only_listed_headers_reach_an_upstream() {
    let listed = [
        "accept",
        "accept-encoding",
        "accept-language",
        "authorization",
        "content-type",
        "content-length",
        "user-agent",
        "x-real-ip",
        "x-forwarded-for",
        "x-forwarded-host",
        "x-forwarded-proto",
        "x-forwarded-port",
        "x-forwarded-anything",
        "x-request-id",
        "traceparent",
        "tracestate",
        "idempotency-key",
        "x-api-key",
        "stripe-signature",
        "x-webhook-signature",
    ];
    let mut incoming = headers(&[("cookie", "a"), ("host", "b"), ("origin", "c"), ("te", "d")]);
    for name in listed {
        assert!(is_forwarded_header(name));
        incoming.append(name, HeaderValue::from_static("kept"));
    }
    for name in ["cookie", "host", "origin", "te", "", "Accept", "x-real-ip2", "x-forwarded", "x-internal-token"] {
        assert!(!is_forwarded_header(name));
    }
    let outgoing = upstream_headers(&incoming, "").unwrap();
    assert_eq!(outgoing.len(), listed.len());
    for name in listed {
        assert_eq!(values(&outgoing, name), ["kept"]);
    }
}

#[test]
fn a_repeated_request_header_keeps_its_last_value() {
    let incoming = headers(&[("accept", "a"), ("user-agent", "x"), ("accept", "b"), ("accept", "c")]);
    let outgoing = upstream_headers(&incoming, "").unwrap();
    assert_eq!(values(&outgoing, "accept"), ["c"]);
    assert_eq!(values(&outgoing, "user-agent"), ["x"]);
}

#[test]
fn a_client_cannot_choose_the_internal_token() {
    let incoming = headers(&[("X-Internal-Token", "guess"), ("x-internal-token", "again")]);
    assert_eq!(values(&upstream_headers(&incoming, "secret").unwrap(), "x-internal-token"), ["secret"]);
    assert_eq!(
        values(&upstream_headers(&headers(&[]), "secret").unwrap(), "x-internal-token"),
        ["secret"]
    );
}

#[test]
fn a_secret_that_no_header_carries_is_not_sent() {
    let incoming = headers(&[("x-internal-token", "guess"), ("accept", "a")]);
    for secret in ["", "a\nb", "\u{7f}"] {
        let sent = upstream_headers(&incoming, secret).unwrap();
        assert!(!sent.contains_key("x-internal-token"));
        assert_eq!(values(&sent, "accept"), ["a"]);
    }
    let sent = upstream_headers(&incoming, "segr\u{e9}do\t").unwrap();
    assert_eq!(sent.get("x-internal-token").unwrap().as_bytes(), "segr\u{e9}do\t".as_bytes());
    assert_eq!(sent.get_all("x-internal-token").iter().count(), 1);
}

#[test]
fn a_client_cannot_inject_the_internal_token() {
    let mut config = config();
    config.internal_shared_secret = String::new();
    let incoming = headers(&[("x-internal-token", "evil")]);
    let plan = forward(&config, "/v1/plans", Some("/v1/plans"), &incoming).unwrap();
    assert_eq!(plan.headers.len(), 0);
}

fn many_headers(count: usize) -> HeaderMap<HeaderValue> {
    let mut map = HeaderMap::new();
    for i in 0..count {
        let name = HeaderName::from_bytes(format!("x-forwarded-{}", i).as_bytes()).unwrap();
        map.insert(name, HeaderValue::from_static("x"));
    }
    map
}

#[test]
fn more_headers_than_fit_are_refused() {
    let fits = upstream_headers(&many_headers(MAX_FORWARDED_NAMES), "secret").unwrap();
    assert_eq!(fits.len(), MAX_FORWARDED_NAMES + 1);
    let too_many = many_headers(MAX_FORWARDED_NAMES + 1);
    assert!(upstream_headers(&too_many, "").is_none());
    let refused = forward(&config(), "/v1/plans", None, &too_many);
    assert!(matches!(refused, Err(DispatchError::BadRequest(text)) if text == "too many headers"));
    let refused = proxy_handler(&config(), "/v1/plans", None, &too_many);
    assert!(matches!(refused, Err(DispatchError::BadRequest(text)) if text == "too many headers"));
}

#[test]
fn a_long_response_is_relayed() {
    for count in [1000, 3000, 6553, 6554, 12000] {
        let mut upstream = many_headers(count);
        let reply = forward_reply(404, &upstream);
        assert_eq!(reply.status, 404);
        assert_eq!(reply.headers, upstream);
        upstream.append("connection", HeaderValue::from_static("close"));
        upstream.append("connection", HeaderValue::from_static("x"));
        assert_eq!(forward_reply(200, &upstream).headers.len(), count);
    }
}

#[test]
fn a_full_response_is_relayed() {
    let mut upstream = HeaderMap::new();
    let mut count = 0;
    loop {
        let name = HeaderName::from_bytes(format!("x-{}", count).as_bytes()).unwrap();
        if upstream.try_append(name, HeaderValue::from_static("x")).is_err() {
            break;
        }
        count += 1;
    }
    assert_eq!(client_headers(&upstream), upstream);
}

#[test]
fn odd_entries_are_carried_as_they_are() {
    let mut upstream = HeaderMap::new();
    let odd = odd_name();
    upstream.insert(odd, HeaderValue::from_static("x"));
    let outgoing = client_headers(&upstream);
    assert_eq!(outgoing, upstream);
    assert_eq!(upstream_headers(&upstream, "").unwrap(), upstream);
    let mut secretive = HeaderMap::new();
    let mut value = HeaderValue::from_static("x");
    value.set_sensitive(true);
    secretive.insert("authorization", value);
    assert!(upstream_headers(&secretive, "").unwrap()["authorization"].is_sensitive());
    assert!(client_headers(&secretive)["authorization"].is_sensitive());
}

#[test]
fn bytes_of_a_header_value_are_kept() {
    let mut incoming = HeaderMap::new();
    incoming.append("user-agent", HeaderValue::from_bytes(b"\xff\xfe x").unwrap());
    let outgoing = upstream_headers(&incoming, "").unwrap();
    assert_eq!(outgoing.get("user-agent").unwrap().as_bytes(), b"\xff\xfe x");
}

#[test]
fn hop_by_hop_headers_do_not_reach_the_client() {
    let dropped = [
        "connection",
        "transfer-encoding",
        "keep-alive",
        "proxy-authenticate",
        "proxy-authorization",
        "te",
        "trailers",
        "upgrade",
    ];
    let mut upstream = headers(&[("set-cookie", "a"), ("content-type", "b"), ("set-cookie", "c")]);
    for name in dropped {
        assert!(is_hop_by_hop_header(name));
        upstream.append(name, HeaderValue::from_static("x"));
    }
    assert!(!is_hop_by_hop_header("set-cookie"));
    assert!(!is_hop_by_hop_header("trailer"));
    upstream.append("set-cookie", HeaderValue::from_static("d"));
    let outgoing = client_headers(&upstream);
    assert_eq!(outgoing.len(), 4);
    assert_eq!(values(&outgoing, "set-cookie"), ["a", "c", "d"]);
    assert_eq!(values(&outgoing, "content-type"), ["b"]);
}

#[test]
fn a_response_keeps_its_status() {
    let upstream = headers(&[("content-type", "text/plain"), ("connection", "close")]);
    for (status, relayed) in
        [(200, 200), (404, 404), (100, 100), (999, 999), (99, 500), (1000, 500), (0, 500)]
    {
        let reply = forward_reply(status, &upstream);
        assert_eq!(reply.status, relayed);
        assert_eq!(reply.headers.len(), 1);
        assert_eq!(values(&reply.headers, "content-type"), ["text/plain"]);
    }
}

#[test]
fn a_body_is_sent_unless_empty_or_too_large() {
    assert!(matches!(forward_body(Ok(vec![1, 2]), 9), Ok(Some(bytes)) if bytes == [1, 2]));
    assert!(matches!(forward_body(Ok(vec![7; 9]), 9), Ok(Some(bytes)) if bytes == [7; 9]));
    assert!(matches!(forward_body(Ok(vec![7; 10]), 9), Err(DispatchError::PayloadTooLarge(9))));
    assert!(matches!(forward_body(Ok(Vec::new()), 9), Ok(None)));
    assert!(matches!(
        forward_body(Err(BodyFailure::TooLarge), 9),
        Err(DispatchError::PayloadTooLarge(9))
    ));
}

#[test]
fn a_body_that_breaks_off_is_a_bad_request() {
    let broken = forward_body(Err(BodyFailure::Broken("closed".to_string())), 9);
    let reply = broken.unwrap_err().into_response();
    assert_eq!(reply.status, 400);
    assert_eq!(reply.message, "invalid request: closed");
}

#[test]
fn a_lost_upstream_is_named() {
    assert_eq!(
        upstream_unreachable(Upstream::Core, "connection refused").message(),
        "upstream unavailable: core: connection refused"
    );
    assert_eq!(
        upstream_cut_off(Upstream::Payments, "closed").message(),
        "upstream unavailable: payments: read body: closed"
    );
}
