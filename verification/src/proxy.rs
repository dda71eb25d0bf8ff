//! Routing of requests to the upstreams, and what goes through in either direction.

use axum::http::header::{HeaderMap, HeaderValue};
use vstd::prelude::*;

use crate::config::Config;
use crate::error::DispatchError;
use crate::headers::{
    client_headers, client_values, exceeds_headers, header_values, hop_by_hop_names,
    only_thousands_of_headers_are_too_many, upstream_headers, upstream_values, values_under,
};
use crate::security::{optional_text, path_denied, request_denied, request_is_safe};
use crate::text::{
    a_run_at_the_end_is_cut_off, decimal_text, has_prefix, same_text, trim_end, trimmed_end,
};

verus! {

/// A service behind the dispatcher.
#[derive(Debug, Clone, Copy, PartialEq, Eq, Structural)]
pub enum Upstream {
    Core,
    Auth,
    Payments,
    Sender,
}

impl Upstream {
    /// The configured address of the service.
    pub open spec fn spec_base_url(&self, config: &Config) -> Seq<char> {
        match self {
            Upstream::Core => config.core_url@,
            Upstream::Auth => config.auth_url@,
            Upstream::Payments => config.payments_url@,
            Upstream::Sender => config.sender_url@,
        }
    }

    /// The configured address of the service.
    pub fn base_url<'a>(&self, config: &'a Config) -> (url: &'a str)
        ensures
            url@ == self.spec_base_url(config),
    {
        match self {
            Upstream::Core => config.core_url.as_str(),
            Upstream::Auth => config.auth_url.as_str(),
            Upstream::Payments => config.payments_url.as_str(),
            Upstream::Sender => config.sender_url.as_str(),
        }
    }
}

/// Paths that belong to the auth service.
pub open spec fn is_auth_path(path: Seq<char>) -> bool {
    ||| "/v1/auth"@.is_prefix_of(path)
    ||| "/.well-known/jwks.json"@.is_prefix_of(path)
    ||| path == "/v1/login"@
    ||| path == "/v1/register"@
    ||| path == "/v1/refresh"@
    ||| path == "/v1/logout"@
}

/// Paths on which payment providers call back.
pub open spec fn is_payment_path(path: Seq<char>) -> bool {
    ||| "/v1/webhooks/stripe"@.is_prefix_of(path)
    ||| "/v1/webhooks/heleket"@.is_prefix_of(path)
    ||| "/v1/webhooks/woovi"@.is_prefix_of(path)
    ||| "/v1/webhooks/abacatepay"@.is_prefix_of(path)
}

/// The service that a path belongs to. The core serves whatever no other service claims.
pub open spec fn upstream_of(path: Seq<char>) -> Upstream {
    if is_auth_path(path) {
        Upstream::Auth
    } else if is_payment_path(path) {
        Upstream::Payments
    } else {
        Upstream::Core
    }
}

/// The service that a path belongs to.
pub fn resolve_upstream(path: &str) -> (upstream: Upstream)
    ensures
        upstream == upstream_of(path@),
{
    if has_prefix(path, "/v1/auth") || has_prefix(path, "/.well-known/jwks.json") || same_text(
        path,
        "/v1/login",
    ) || same_text(path, "/v1/register") || same_text(path, "/v1/refresh") || same_text(
        path,
        "/v1/logout",
    ) {
        return Upstream::Auth;
    }
    if has_prefix(path, "/v1/webhooks/stripe") || has_prefix(path, "/v1/webhooks/heleket")
        || has_prefix(path, "/v1/webhooks/woovi") || has_prefix(path, "/v1/webhooks/abacatepay") {
        return Upstream::Payments;
    }
    Upstream::Core
}

/// The service that a path belongs to: there always is one.
pub fn resolve_upstream_opt(path: &str) -> (upstream: Option<Upstream>)
    ensures
        upstream == Some(upstream_of(path@)),
{
    Some(resolve_upstream(path))
}

/// The name of a service in error messages.
pub open spec fn label_of(upstream: Upstream) -> Seq<char> {
    match upstream {
        Upstream::Core => "core"@,
        Upstream::Auth => "auth"@,
        Upstream::Payments => "payments"@,
        Upstream::Sender => "sender"@,
    }
}

/// The name of a service in error messages.
pub fn upstream_label(upstream: Upstream) -> (label: &'static str)
    ensures
        label@ == label_of(upstream),
{
    match upstream {
        Upstream::Core => "core",
        Upstream::Auth => "auth",
        Upstream::Payments => "payments",
        Upstream::Sender => "sender",
    }
}

/// A request as it goes to its upstream. Method and body are the client's.
pub struct ForwardPlan {
    pub upstream: Upstream,
    pub target_url: String,
    pub headers: HeaderMap<HeaderValue>,
}

/// The address that a request is forwarded to: the upstream's, without slashes at its end, then
/// the path and query of the request.
pub open spec fn target_of(
    config: &Config,
    path: Seq<char>,
    path_and_query: Option<Seq<char>>,
) -> Seq<char> {
    trimmed_end(upstream_of(path).spec_base_url(config), '/') + match path_and_query {
        Some(full) => full,
        None => path,
    }
}

/// What a request is forwarded as.
pub open spec fn is_plan_for(
    plan: &ForwardPlan,
    config: &Config,
    path: Seq<char>,
    path_and_query: Option<Seq<char>>,
    headers: Map<Seq<char>, Seq<Seq<u8>>>,
) -> bool {
    &&& plan.upstream == upstream_of(path)
    &&& plan.target_url@ == target_of(config, path, path_and_query)
    &&& header_values(plan.headers) == upstream_values(headers, config.internal_shared_secret@)
}

/// What comes of planning the forwarding of a request: a plan, unless there are too many headers.
pub open spec fn is_forwarding(
    outcome: Result<ForwardPlan, DispatchError>,
    config: &Config,
    path: Seq<char>,
    path_and_query: Option<Seq<char>>,
    headers: Map<Seq<char>, Seq<Seq<u8>>>,
) -> bool {
    if exceeds_headers(headers) {
        outcome matches Err(DispatchError::BadRequest(detail)) && detail@ == "too many headers"@
    } else {
        outcome matches Ok(plan) && is_plan_for(&plan, config, path, path_and_query, headers)
    }
}

/// Plans the forwarding of a request.
pub fn forward(
    config: &Config,
    path: &str,
    path_and_query: Option<&str>,
    headers: &HeaderMap<HeaderValue>,
) -> (plan: Result<ForwardPlan, DispatchError>)
    ensures
        is_forwarding(
            plan,
            config,
            path@,
            optional_text(path_and_query),
            header_values(*headers),
        ),
{
    let upstream = resolve_upstream(path);
    let base = trim_end(upstream.base_url(config), '/');
    let full = match path_and_query {
        Some(full) => full,
        None => path,
    };
    let target_url = base.to_string().concat(full);
    match upstream_headers(headers, config.internal_shared_secret.as_str()) {
        Some(headers) => Ok(ForwardPlan { upstream, target_url, headers }),
        None => Err(DispatchError::BadRequest("too many headers".to_string())),
    }
}

/// What comes of a request that no route of the dispatcher itself answers: it is forwarded, unless
/// its path or query is unsafe.
pub open spec fn is_handling(
    outcome: Result<ForwardPlan, DispatchError>,
    config: &Config,
    path: Seq<char>,
    path_and_query: Option<Seq<char>>,
    headers: Map<Seq<char>, Seq<Seq<u8>>>,
) -> bool {
    if request_denied(path, path_and_query) {
        outcome matches Err(DispatchError::BadRequest(detail)) && detail@ == "unsafe path"@
    } else {
        is_forwarding(outcome, config, path, path_and_query, headers)
    }
}

/// Plans the forwarding of a request that no route of the dispatcher itself answers. An unsafe
/// path or query is refused.
pub fn proxy_handler(
    config: &Config,
    path: &str,
    path_and_query: Option<&str>,
    headers: &HeaderMap<HeaderValue>,
) -> (plan: Result<ForwardPlan, DispatchError>)
    ensures
        is_handling(
            plan,
            config,
            path@,
            optional_text(path_and_query),
            header_values(*headers),
        ),
{
    if !request_is_safe(path, path_and_query) {
        return Err(DispatchError::BadRequest("unsafe path".to_string()));
    }
    forward(config, path, path_and_query, headers)
}

/// Why the body of a request could not be read.
#[derive(Debug)]
pub enum BodyFailure {
    /// It is longer than the limit.
    TooLarge,
    /// It broke off, for this reason.
    Broken(String),
}

/// The body that goes with a forwarded request, given what came of reading the client's. An empty
/// body is not sent, and one over the limit never is.
pub fn forward_body(read: Result<Vec<u8>, BodyFailure>, limit: usize) -> (body: Result<
    Option<Vec<u8>>,
    DispatchError,
>)
    ensures
        match read {
            Err(BodyFailure::TooLarge) => body matches Err(e) && e
                == DispatchError::PayloadTooLarge(limit),
            Err(BodyFailure::Broken(reason)) => body matches Err(DispatchError::BadRequest(detail))
                && detail@ == reason@,
            Ok(bytes) => if bytes@.len() > limit {
                body matches Err(e) && e == DispatchError::PayloadTooLarge(limit)
            } else if bytes@.len() == 0 {
                body matches Ok(sent) && sent is None
            } else {
                body matches Ok(sent) && sent == Some(bytes)
            },
        },
{
    match read {
        Err(BodyFailure::TooLarge) => Err(DispatchError::PayloadTooLarge(limit)),
        Err(BodyFailure::Broken(reason)) => Err(DispatchError::BadRequest(reason)),
        Ok(bytes) => if bytes.len() > limit {
            Err(DispatchError::PayloadTooLarge(limit))
        } else if bytes.len() == 0 {
            Ok(None)
        } else {
            Ok(Some(bytes))
        },
    }
}

/// The error for an upstream that could not be asked.
pub fn upstream_unreachable(upstream: Upstream, detail: &str) -> (error: DispatchError)
    ensures
        error matches DispatchError::UpstreamUnavailable(text) && text@ == label_of(upstream)
            + ": "@ + detail@,
{
    DispatchError::UpstreamUnavailable(
        upstream_label(upstream).to_string().concat(": ").concat(detail),
    )
}

/// The error for an upstream whose response broke off.
pub fn upstream_cut_off(upstream: Upstream, detail: &str) -> (error: DispatchError)
    ensures
        error matches DispatchError::UpstreamUnavailable(text) && text@ == label_of(upstream)
            + ": read body: "@ + detail@,
{
    DispatchError::UpstreamUnavailable(
        upstream_label(upstream).to_string().concat(": read body: ").concat(detail),
    )
}

/// What the client gets of an upstream's response, besides its body.
pub struct ForwardReply {
    pub status: u16,
    pub headers: HeaderMap<HeaderValue>,
}

/// The status that the client sees: the upstream's, where it is one at all.
pub open spec fn relayed_status(status: u16) -> u16 {
    if 100 <= status < 1000 {
        status
    } else {
        500
    }
}

/// Turns an upstream's response into the client's. The body stays as it is.
pub fn forward_reply(status: u16, headers: &HeaderMap<HeaderValue>) -> (reply: ForwardReply)
    ensures
        reply.status == relayed_status(status),
        header_values(reply.headers) == client_values(header_values(*headers)),
{
    let status: u16 = if 100 <= status && status < 1000 {
        status
    } else {
        500
    };
    ForwardReply { status, headers: client_headers(headers) }
}

/// No path leads to the sender.
pub proof fn sender_is_never_routed_to(path: Seq<char>)
    ensures
        upstream_of(path) != Upstream::Sender,
{
}

/// Plans, accounts, administration, checkout and everything of the second version of the
/// interface belong to the core.
pub proof fn core_serves_the_domain(path: Seq<char>)
    requires
        ({
            ||| "/v1/plans"@.is_prefix_of(path)
            ||| "/v1/me"@.is_prefix_of(path)
            ||| "/v1/admin"@.is_prefix_of(path)
            ||| "/v1/checkout"@.is_prefix_of(path)
            ||| "/v2/"@.is_prefix_of(path)
        }),
    ensures
        upstream_of(path) == Upstream::Core,
{
    reveal_strlit("/v1/plans");
    reveal_strlit("/v1/me");
    reveal_strlit("/v1/admin");
    reveal_strlit("/v1/checkout");
    reveal_strlit("/v2/");
    reveal_strlit("/v1/auth");
    reveal_strlit("/.well-known/jwks.json");
    reveal_strlit("/v1/login");
    reveal_strlit("/v1/register");
    reveal_strlit("/v1/refresh");
    reveal_strlit("/v1/logout");
    reveal_strlit("/v1/webhooks/stripe");
    reveal_strlit("/v1/webhooks/heleket");
    reveal_strlit("/v1/webhooks/woovi");
    reveal_strlit("/v1/webhooks/abacatepay");
    assert(path[1] == 'v' && (path[2] == '2' || (path[4] != 'l' && path[4] != 'r' && path[4] != 'w'
        && path[5] != 'u'))) by {
        assert forall|prefix: Seq<char>, i: int|
            #![trigger prefix.is_prefix_of(path), prefix[i]]
            prefix.is_prefix_of(path) && 0 <= i < prefix.len() implies path[i] == prefix[i] by {
            assert(path.subrange(0, prefix.len() as int)[i] == prefix[i]);
        }
        let plans = "/v1/plans"@;
        let me = "/v1/me"@;
        let admin = "/v1/admin"@;
        let checkout = "/v1/checkout"@;
        let second = "/v2/"@;
        assert(plans[1] == 'v' && plans[4] == 'p' && plans[5] == 'l');
        assert(me[1] == 'v' && me[4] == 'm' && me[5] == 'e');
        assert(admin[1] == 'v' && admin[4] == 'a' && admin[5] == 'd');
        assert(checkout[1] == 'v' && checkout[4] == 'c' && checkout[5] == 'h');
        assert(second[1] == 'v' && second[2] == '2');
    }
    let at: int = if path[2] == '2' {
        2
    } else {
        4
    };
    lemma_no_prefix("/v1/auth"@, path, if path[2] == '2' {
        2
    } else {
        5
    });
    lemma_no_prefix("/.well-known/jwks.json"@, path, 1);
    lemma_no_prefix("/v1/login"@, path, at);
    lemma_no_prefix("/v1/register"@, path, at);
    lemma_no_prefix("/v1/refresh"@, path, at);
    lemma_no_prefix("/v1/logout"@, path, at);
    lemma_no_prefix("/v1/webhooks/stripe"@, path, at);
    lemma_no_prefix("/v1/webhooks/heleket"@, path, at);
    lemma_no_prefix("/v1/webhooks/woovi"@, path, at);
    lemma_no_prefix("/v1/webhooks/abacatepay"@, path, at);
}

/// A text that differs in one character is neither the path nor a prefix of it.
proof fn lemma_no_prefix(text: Seq<char>, path: Seq<char>, at: int)
    requires
        0 <= at < text.len(),
        path[at] != text[at],
    ensures
        !text.is_prefix_of(path),
        path != text,
{
    if text.is_prefix_of(path) {
        assert(path.subrange(0, text.len() as int)[at] == text[at]);
    }
}

/// A slash at the end of a configured address changes nothing.
pub proof fn slash_behind_an_address_is_ignored(
    with_slash: &Config,
    without: &Config,
    path: Seq<char>,
    path_and_query: Option<Seq<char>>,
)
    requires
        upstream_of(path).spec_base_url(with_slash) == upstream_of(path).spec_base_url(
            without,
        ).push('/'),
    ensures
        target_of(with_slash, path, path_and_query) == target_of(without, path, path_and_query),
{
    let address = upstream_of(path).spec_base_url(without);
    assert(address.push('/').drop_last() =~= address);
}

/// Whether two outcomes of planning say the same.
pub open spec fn same_outcome(
    one: Result<ForwardPlan, DispatchError>,
    other: Result<ForwardPlan, DispatchError>,
) -> bool {
    match (one, other) {
        (Ok(a), Ok(b)) => a.upstream == b.upstream && a.target_url@ == b.target_url@
            && header_values(a.headers) == header_values(b.headers),
        (Err(a), Err(b)) => a.spec_status() == b.spec_status() && a.spec_message()
            == b.spec_message(),
        _ => false,
    }
}

/// An unsafe request is refused and goes to no upstream. Any other is handled as it is forwarded.
pub proof fn safe_requests_are_forwarded(
    handled: Result<ForwardPlan, DispatchError>,
    forwarded: Result<ForwardPlan, DispatchError>,
    config: &Config,
    path: Seq<char>,
    path_and_query: Option<Seq<char>>,
    headers: Map<Seq<char>, Seq<Seq<u8>>>,
)
    requires
        is_handling(handled, config, path, path_and_query, headers),
        is_forwarding(forwarded, config, path, path_and_query, headers),
    ensures
        request_denied(path, path_and_query) ==> (handled matches Err(
            DispatchError::BadRequest(detail),
        ) && detail@ == "unsafe path"@),
        !request_denied(path, path_and_query) ==> same_outcome(handled, forwarded),
{
}

/// Every answer of an upstream is relayed: with its status, and with all values of all its headers
/// but the hop-by-hop ones.
pub proof fn answers_are_relayed(
    status: u16,
    headers: Map<Seq<char>, Seq<Seq<u8>>>,
    name: Seq<char>,
)
    requires
        100 <= status < 1000,
    ensures
        relayed_status(status) == status,
        values_under(client_values(headers), name) == if hop_by_hop_names().contains(name) {
            seq![]
        } else {
            values_under(headers, name)
        },
{
}

/// Which service a path belongs to: the auth service for these, the payment service for the
/// callbacks of the four providers, and the core for everything else.
pub proof fn paths_belong_to_services(path: Seq<char>)
    ensures
        ({
            let auth = {
                ||| "/v1/auth"@.is_prefix_of(path)
                ||| "/.well-known/jwks.json"@.is_prefix_of(path)
                ||| path == "/v1/login"@
                ||| path == "/v1/register"@
                ||| path == "/v1/refresh"@
                ||| path == "/v1/logout"@
            };
            let payments = {
                ||| "/v1/webhooks/stripe"@.is_prefix_of(path)
                ||| "/v1/webhooks/heleket"@.is_prefix_of(path)
                ||| "/v1/webhooks/woovi"@.is_prefix_of(path)
                ||| "/v1/webhooks/abacatepay"@.is_prefix_of(path)
            };
            &&& upstream_of(path) == Upstream::Auth <==> auth
            &&& upstream_of(path) == Upstream::Payments <==> payments
            &&& upstream_of(path) == Upstream::Core <==> !auth && !payments
        }),
{
    reveal_strlit("/v1/auth");
    reveal_strlit("/.well-known/jwks.json");
    reveal_strlit("/v1/login");
    reveal_strlit("/v1/register");
    reveal_strlit("/v1/refresh");
    reveal_strlit("/v1/logout");
    reveal_strlit("/v1/webhooks/stripe");
    reveal_strlit("/v1/webhooks/heleket");
    reveal_strlit("/v1/webhooks/woovi");
    reveal_strlit("/v1/webhooks/abacatepay");
    if is_payment_path(path) {
        assert(path[1] == 'v' && path[4] == 'w') by {
            assert forall|prefix: Seq<char>, i: int|
                #![trigger prefix.is_prefix_of(path), prefix[i]]
                prefix.is_prefix_of(path) && 0 <= i < prefix.len() implies path[i] == prefix[i] by {
                assert(path.subrange(0, prefix.len() as int)[i] == prefix[i]);
            }
            let stripe = "/v1/webhooks/stripe"@;
            let heleket = "/v1/webhooks/heleket"@;
            let woovi = "/v1/webhooks/woovi"@;
            let abacatepay = "/v1/webhooks/abacatepay"@;
            assert(stripe[1] == 'v' && stripe[4] == 'w');
            assert(heleket[1] == 'v' && heleket[4] == 'w');
            assert(woovi[1] == 'v' && woovi[4] == 'w');
            assert(abacatepay[1] == 'v' && abacatepay[4] == 'w');
        }
        lemma_no_prefix("/v1/auth"@, path, 4);
        lemma_no_prefix("/.well-known/jwks.json"@, path, 1);
        lemma_no_prefix("/v1/login"@, path, 4);
        lemma_no_prefix("/v1/register"@, path, 4);
        lemma_no_prefix("/v1/refresh"@, path, 4);
        lemma_no_prefix("/v1/logout"@, path, 4);
    }
}

/// Each service has its own address and its own name.
pub proof fn services_have_their_own_addresses(config: &Config)
    ensures
        Upstream::Core.spec_base_url(config) == config.core_url@,
        Upstream::Auth.spec_base_url(config) == config.auth_url@,
        Upstream::Payments.spec_base_url(config) == config.payments_url@,
        Upstream::Sender.spec_base_url(config) == config.sender_url@,
        label_of(Upstream::Core) == "core"@,
        label_of(Upstream::Auth) == "auth"@,
        label_of(Upstream::Payments) == "payments"@,
        label_of(Upstream::Sender) == "sender"@,
{
}

/// A request with no more than 6553 header names is forwarded to the service that its path belongs
/// to: to the address of that service, without slashes at its end, and then the path and query of
/// the request, or the path where there is nothing more.
pub proof fn requests_are_forwarded_whole(
    outcome: Result<ForwardPlan, DispatchError>,
    config: &Config,
    path: Seq<char>,
    path_and_query: Option<Seq<char>>,
    headers: Map<Seq<char>, Seq<Seq<u8>>>,
    address: Seq<char>,
    slashes: nat,
)
    requires
        is_forwarding(outcome, config, path, path_and_query, headers),
        headers.dom().finite(),
        headers.dom().len() <= 6553,
        address.len() == 0 || address[address.len() - 1] != '/',
        address + Seq::new(slashes, |i: int| '/') == match upstream_of(path) {
            Upstream::Core => config.core_url@,
            Upstream::Auth => config.auth_url@,
            Upstream::Payments => config.payments_url@,
            Upstream::Sender => config.sender_url@,
        },
    ensures
        outcome is Ok,
        outcome->Ok_0.upstream == upstream_of(path),
        path_and_query matches Some(full) ==> outcome->Ok_0.target_url@ == address + full,
        path_and_query is None ==> outcome->Ok_0.target_url@ == address + path,
{
    only_thousands_of_headers_are_too_many(headers);
    a_run_at_the_end_is_cut_off(address, '/', slashes);
}

/// A forwarded request carries the client's headers that are listed for it, each with the last
/// value that the client gave it, the shared secret where a header can carry it, and nothing more.
pub proof fn requests_carry_their_headers(
    outcome: Result<ForwardPlan, DispatchError>,
    config: &Config,
    path: Seq<char>,
    path_and_query: Option<Seq<char>>,
    headers: Map<Seq<char>, Seq<Seq<u8>>>,
)
    requires
        is_forwarding(outcome, config, path, path_and_query, headers),
        outcome is Ok,
    ensures
        header_values(outcome->Ok_0.headers) == upstream_values(
            headers,
            config.internal_shared_secret@,
        ),
{
}

/// A request that is not forwarded has too many headers, and is told so.
pub proof fn requests_are_refused_for_their_headers_only(
    outcome: Result<ForwardPlan, DispatchError>,
    config: &Config,
    path: Seq<char>,
    path_and_query: Option<Seq<char>>,
    headers: Map<Seq<char>, Seq<Seq<u8>>>,
)
    requires
        is_forwarding(outcome, config, path, path_and_query, headers),
        headers.dom().finite(),
        outcome is Err,
    ensures
        headers.dom().len() > 6553,
        outcome->Err_0 matches DispatchError::BadRequest(detail) && detail@ == "too many headers"@,
{
    only_thousands_of_headers_are_too_many(headers);
}

/// A request is refused as unsafe exactly if its path is denied, or its path and query together
/// are. Any other is handled as it is forwarded.
pub proof fn unsafe_requests_are_refused(
    outcome: Result<ForwardPlan, DispatchError>,
    config: &Config,
    path: Seq<char>,
    path_and_query: Option<Seq<char>>,
    headers: Map<Seq<char>, Seq<Seq<u8>>>,
)
    requires
        is_handling(outcome, config, path, path_and_query, headers),
    ensures
        path_denied(path) || (path_and_query matches Some(full) && path_denied(full)) ==> (
        outcome matches Err(DispatchError::BadRequest(detail)) && detail@ == "unsafe path"@),
        !path_denied(path) && (path_and_query matches Some(full) ==> !path_denied(full))
            ==> is_forwarding(outcome, config, path, path_and_query, headers),
{
}

/// A status is relayed as it is if it has three digits, and as an internal error otherwise.
pub proof fn statuses_of_three_digits_are_relayed(status: u16)
    ensures
        decimal_text(status as nat).len() == 3 ==> relayed_status(status) == status,
        decimal_text(status as nat).len() != 3 ==> relayed_status(status) == 500,
{
    reveal_with_fuel(decimal_text, 6);
}

/// The text of an optional string is the string's, where there is one.
pub proof fn optional_texts_are_texts(text: &str)
    ensures
        optional_text(Some(text)) == Some(text@),
        optional_text(None) is None,
{
}

} // verus!
