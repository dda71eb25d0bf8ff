//! What stands between a request and its handler.
//!
//! Each check that needs a token comes in two parts: one that finds the token to verify, and one
//! that takes the outcome of the verification and decides.

use axum::http::header::{HeaderMap, HeaderValue};
use vstd::prelude::*;

use crate::auth::{counts_as_revoked, AuthError, Claims, RevocationSet};
use crate::error::ErrorReply;
use crate::headers::{
    first_text, header_text, header_values, is_name_char, the_first_value_is_read_as_text,
};
use crate::security::{optional_text, request_denied, request_is_safe};
use crate::text::after_prefix;

verus! {

/// The token in the text of an authorization header.
pub open spec fn bearer_in(text: Seq<char>) -> Option<Seq<char>> {
    if "Bearer "@.is_prefix_of(text) {
        Some(text.skip(7))
    } else {
        None
    }
}

/// The bearer token that a request carries.
pub open spec fn bearer_of(values: Map<Seq<char>, Seq<Seq<u8>>>) -> Option<Seq<char>> {
    match first_text(values, "authorization"@) {
        Some(text) => bearer_in(text),
        None => None,
    }
}

/// The bearer token that a request carries.
pub fn extract_bearer(headers: &HeaderMap<HeaderValue>) -> (token: Option<String>)
    ensures
        token is Some <==> bearer_of(header_values(*headers)) is Some,
        token matches Some(t) ==> bearer_of(header_values(*headers)) == Some(t@),
{
    proof {
        reveal_strlit("authorization");
        reveal_strlit("Bearer ");
        let name = "authorization"@;
        assert forall|i: int| 0 <= i < name.len() implies is_name_char(#[trigger] name[i]) && name[i]
            != '"' by {
            assert(name.len() == 13);
        }
    }
    let text = match header_text(headers, "authorization") {
        Some(text) => text,
        None => {
            return None;
        },
    };
    match after_prefix(text.as_str(), "Bearer ") {
        Some(token) => Some(token.to_string()),
        None => None,
    }
}

/// Whether the token behind these claims is revoked, where revocations are known at all.
pub open spec fn is_revoked_claim(claims: &Claims, revoked: Option<&RevocationSet>) -> bool {
    match revoked {
        Some(set) => counts_as_revoked(set@, claims.jti@),
        None => false,
    }
}

/// Whether the token behind these claims is revoked, where revocations are known at all.
pub fn claim_is_revoked(claims: &Claims, revoked: Option<&RevocationSet>) -> (is_revoked: bool)
    ensures
        is_revoked == is_revoked_claim(claims, revoked),
{
    if claims.jti.as_str().is_empty() {
        return false;
    }
    match revoked {
        Some(set) => set.is_revoked(claims.jti.as_str()),
        None => false,
    }
}

/// Whether a reply is the refusal of a bearer for this reason.
pub open spec fn is_unauthorized(reply: ErrorReply, reason: Seq<char>) -> bool {
    reply.status == 401 && reply.code@ == "UNAUTHORIZED"@ && reply.message@ == reason
}

/// The refusal of a bearer.
pub fn unauthorized(reason: &str) -> (reply: ErrorReply)
    ensures
        is_unauthorized(reply, reason@),
{
    ErrorReply { status: 401, code: "UNAUTHORIZED", message: reason.to_string() }
}

/// Refuses an unsafe path or query.
pub fn enforce_path_safety(path: &str, path_and_query: Option<&str>) -> (refusal: Option<
    ErrorReply,
>)
    ensures
        refusal is Some <==> request_denied(path@, optional_text(path_and_query)),
        refusal matches Some(reply) ==> reply.status == 400 && reply.code@ == "BAD_REQUEST"@
            && reply.message@ == "unsafe path"@,
{
    if request_is_safe(path, path_and_query) {
        None
    } else {
        Some(
            ErrorReply {
                status: 400,
                code: "BAD_REQUEST",
                message: "unsafe path".to_string(),
            },
        )
    }
}

/// The token whose revocation is to be checked, where there is one and tokens can be verified.
pub fn enforce_hot_set(auth_configured: bool, headers: &HeaderMap<HeaderValue>) -> (token: Option<
    String,
>)
    ensures
        token is Some <==> auth_configured && bearer_of(header_values(*headers)) is Some,
        token matches Some(t) ==> bearer_of(header_values(*headers)) == Some(t@),
{
    match extract_bearer(headers) {
        Some(token) => if auth_configured {
            Some(token)
        } else {
            None
        },
        None => None,
    }
}

/// Whether a request is refused because of its token: the token verified and is revoked.
pub open spec fn hot_set_refuses(
    verified: Result<Claims, AuthError>,
    revoked: Option<&RevocationSet>,
) -> bool {
    verified matches Ok(claims) && is_revoked_claim(&claims, revoked)
}

/// Refuses a request with a verified token that is revoked. A token that did not verify is left
/// for the upstream to refuse.
pub fn enforce_hot_set_verified(
    verified: &Result<Claims, AuthError>,
    revoked: Option<&RevocationSet>,
) -> (refusal: Option<ErrorReply>)
    ensures
        refusal is Some <==> hot_set_refuses(*verified, revoked),
        refusal matches Some(reply) ==> is_unauthorized(reply, "token revoked"@),
{
    if let Ok(claims) = verified {
        if claim_is_revoked(claims, revoked) {
            return Some(unauthorized("token revoked"));
        }
    }
    None
}

/// The token to verify on a route that serves anonymous requests too, where there is one and
/// tokens can be verified.
pub fn optional_auth(auth_configured: bool, headers: &HeaderMap<HeaderValue>) -> (token: Option<
    String,
>)
    ensures
        token is Some <==> auth_configured && bearer_of(header_values(*headers)) is Some,
        token matches Some(t) ==> bearer_of(header_values(*headers)) == Some(t@),
{
    enforce_hot_set(auth_configured, headers)
}

/// The bearer that a handler sees on a route that serves anonymous requests too: none where the
/// token did not verify or is revoked.
pub open spec fn optional_bearer(
    verified: Result<Claims, AuthError>,
    revoked: Option<&RevocationSet>,
) -> Option<Claims> {
    match verified {
        Ok(claims) => if is_revoked_claim(&claims, revoked) {
            None
        } else {
            Some(claims)
        },
        Err(_) => None,
    }
}

/// The bearer that a handler sees on a route that serves anonymous requests too.
pub fn optional_auth_verified(
    verified: Result<Claims, AuthError>,
    revoked: Option<&RevocationSet>,
) -> (bearer: Option<Claims>)
    ensures
        bearer == optional_bearer(verified, revoked),
{
    match verified {
        Ok(claims) => if claim_is_revoked(&claims, revoked) {
            None
        } else {
            Some(claims)
        },
        Err(_) => None,
    }
}

/// The token to verify on a route that requires one, or the refusal of the request.
pub fn require_auth(auth_configured: bool, headers: &HeaderMap<HeaderValue>) -> (token: Result<
    String,
    ErrorReply,
>)
    ensures
        match token {
            Ok(t) => auth_configured && bearer_of(header_values(*headers)) == Some(t@),
            Err(reply) => if !auth_configured {
                is_unauthorized(reply, "auth not configured"@)
            } else {
                bearer_of(header_values(*headers)) is None && is_unauthorized(
                    reply,
                    "missing bearer token"@,
                )
            },
        },
{
    if !auth_configured {
        return Err(unauthorized("auth not configured"));
    }
    match extract_bearer(headers) {
        Some(token) => Ok(token),
        None => Err(unauthorized("missing bearer token")),
    }
}

/// What the bearer of a token that did not verify is told.
pub open spec fn refusal_reason(error: AuthError) -> Seq<char> {
    match error {
        AuthError::Expired => "token expired"@,
        AuthError::Revoked => "token revoked"@,
        AuthError::Malformed => "token malformed"@,
        AuthError::InvalidSignature => "invalid signature"@,
        _ => "auth error"@,
    }
}

/// The bearer that a handler sees on a route that requires one, or why there is none.
pub open spec fn required_bearer(
    verified: Result<Claims, AuthError>,
    revoked: Option<&RevocationSet>,
) -> Result<Claims, Seq<char>> {
    match verified {
        Ok(claims) => if is_revoked_claim(&claims, revoked) {
            Err("token revoked"@)
        } else {
            Ok(claims)
        },
        Err(error) => Err(refusal_reason(error)),
    }
}

/// The bearer that a handler sees on a route that requires one, or the refusal of the request.
pub fn require_auth_verified(
    verified: Result<Claims, AuthError>,
    revoked: Option<&RevocationSet>,
) -> (bearer: Result<Claims, ErrorReply>)
    ensures
        match required_bearer(verified, revoked) {
            Ok(claims) => bearer == Ok::<Claims, ErrorReply>(claims),
            Err(reason) => bearer matches Err(reply) && is_unauthorized(reply, reason),
        },
{
    let claims = match verified {
        Ok(claims) => claims,
        Err(AuthError::Expired) => {
            return Err(unauthorized("token expired"));
        },
        Err(AuthError::Revoked) => {
            return Err(unauthorized("token revoked"));
        },
        Err(AuthError::Malformed) => {
            return Err(unauthorized("token malformed"));
        },
        Err(AuthError::InvalidSignature) => {
            return Err(unauthorized("invalid signature"));
        },
        Err(_) => {
            return Err(unauthorized("auth error"));
        },
    };
    if claim_is_revoked(&claims, revoked) {
        return Err(unauthorized("token revoked"));
    }
    Ok(claims)
}

/// Where a token is required, a bearer gets in exactly if the token verified and is not revoked.
pub proof fn bearers_are_verified_and_not_revoked(
    verified: Result<Claims, AuthError>,
    revoked: Option<&RevocationSet>,
)
    ensures
        required_bearer(verified, revoked) is Ok <==> verified is Ok && !is_revoked_claim(
            &verified->Ok_0,
            revoked,
        ),
        required_bearer(verified, revoked) matches Ok(claims) ==> verified->Ok_0 == claims,
{
}

/// The checks agree: what is refused on every route gets in on none, and a bearer is seen where a
/// token is optional exactly where one would be where it is required.
pub proof fn checks_agree_on_revocation(
    verified: Result<Claims, AuthError>,
    revoked: Option<&RevocationSet>,
)
    ensures
        hot_set_refuses(verified, revoked) ==> required_bearer(verified, revoked) == Err::<
            Claims,
            Seq<char>,
        >("token revoked"@),
        optional_bearer(verified, revoked) == match required_bearer(verified, revoked) {
            Ok(claims) => Some(claims),
            Err(_) => None,
        },
{
}

/// Without known revocations no verified token is refused.
pub proof fn nothing_is_refused_without_revocations(verified: Result<Claims, AuthError>)
    ensures
        !hot_set_refuses(verified, None),
{
}

/// Once a token is known to be revoked, no check lets its bearer in.
pub proof fn revoked_bearers_are_kept_out(
    verified: Result<Claims, AuthError>,
    revoked: &RevocationSet,
)
    requires
        verified is Ok,
        verified->Ok_0.jti@.len() > 0,
        revoked@.contains(verified->Ok_0.jti@),
    ensures
        hot_set_refuses(verified, Some(revoked)),
        optional_bearer(verified, Some(revoked)) is None,
        required_bearer(verified, Some(revoked)) == Err::<Claims, Seq<char>>("token revoked"@),
{
}

/// Whatever follows the word `Bearer` and a blank is the token, down to the last character. A text
/// that does not start so holds none.
pub proof fn bearer_tokens_are_taken_whole(text: Seq<char>, token: Seq<char>)
    ensures
        bearer_in("Bearer "@ + token) == Some(token),
        bearer_in(text) == Some(token) <==> text == "Bearer "@ + token,
        bearer_in(text) is None <==> !"Bearer "@.is_prefix_of(text),
{
    reveal_strlit("Bearer ");
    let whole = "Bearer "@ + token;
    assert(whole.subrange(0, 7) =~= "Bearer "@);
    assert(whole.skip(7) =~= token);
    if "Bearer "@.is_prefix_of(text) {
        assert(text =~= "Bearer "@ + text.skip(7));
    }
}

/// The token of a request is what follows the word `Bearer` and a blank in the first value of its
/// authorization header, if that value is tabs and visible ASCII throughout.
pub proof fn the_authorization_header_holds_the_token(
    values: Map<Seq<char>, Seq<Seq<u8>>>,
    token: Seq<char>,
)
    ensures
        bearer_of(values) == Some(token) <==> values.contains_key("authorization"@)
            && values["authorization"@].len() > 0 && values["authorization"@][0].len() == ("Bearer "@
            + token).len() && (forall|i: int|
            0 <= i < ("Bearer "@ + token).len() ==> (#[trigger] ("Bearer "@ + token)[i]) as int
                == values["authorization"@][0][i] as int && (("Bearer "@ + token)[i] == '\t' || ' '
                <= ("Bearer "@ + token)[i] <= '~')),
{
    let text = "Bearer "@ + token;
    the_first_value_is_read_as_text(values, "authorization"@, text);
    bearer_tokens_are_taken_whole(text, token);
    if let Some(read) = first_text(values, "authorization"@) {
        bearer_tokens_are_taken_whole(read, token);
    }
}

/// A verified bearer gets in and is seen, unless the token has an id and the id is among the
/// revoked ones: then it is refused everywhere as revoked.
pub proof fn verified_bearers_get_in_unless_revoked(claims: Claims, revoked: &RevocationSet)
    ensures
        ({
            let out = claims.jti@.len() > 0 && revoked@.contains(claims.jti@);
            let verified = Ok::<Claims, AuthError>(claims);
            &&& is_revoked_claim(&claims, Some(revoked)) <==> out
            &&& !is_revoked_claim(&claims, None)
            &&& hot_set_refuses(verified, Some(revoked)) <==> out
            &&& out ==> optional_bearer(verified, Some(revoked)) is None
            &&& out ==> required_bearer(verified, Some(revoked)) == Err::<Claims, Seq<char>>(
                "token revoked"@,
            )
            &&& !out ==> optional_bearer(verified, Some(revoked)) == Some(claims)
            &&& !out ==> required_bearer(verified, Some(revoked)) == Ok::<Claims, Seq<char>>(claims)
            &&& !hot_set_refuses(verified, None)
            &&& optional_bearer(verified, None) == Some(claims)
            &&& required_bearer(verified, None) == Ok::<Claims, Seq<char>>(claims)
        }),
{
}

/// A bearer whose token did not verify is seen nowhere, passes the check on every route, and is
/// told what is wrong with the token where one is required.
pub proof fn unverified_bearers_are_told_why(error: AuthError, revoked: Option<&RevocationSet>)
    ensures
        ({
            let verified = Err::<Claims, AuthError>(error);
            &&& !hot_set_refuses(verified, revoked)
            &&& optional_bearer(verified, revoked) is None
            &&& required_bearer(verified, revoked) == Err::<Claims, Seq<char>>(
                match error {
                    AuthError::Expired => "token expired"@,
                    AuthError::Revoked => "token revoked"@,
                    AuthError::Malformed => "token malformed"@,
                    AuthError::InvalidSignature => "invalid signature"@,
                    AuthError::Missing => "auth error"@,
                    AuthError::JWKSUnreachable(_) => "auth error"@,
                },
            )
        }),
{
}

/// The refusal of a bearer has status 401, its code, and nothing but the reason in its message.
pub proof fn refusals_are_unauthorized(reply: ErrorReply, reason: Seq<char>)
    ensures
        is_unauthorized(reply, reason) <==> reply.status == 401 && reply.code@ == "UNAUTHORIZED"@
            && reply.message@ == reason,
{
}

} // verus!
