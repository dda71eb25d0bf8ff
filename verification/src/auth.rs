//! Offline verification of access tokens.
//!
//! Keys come from the auth service and are cached; revoked token ids come from the database and
//! are held as a set. Fetching and listening happen outside: this module says when to fetch, what
//! to make of what came back, and what a token is worth.

use vstd::hash_set::StringHashSet;
use vstd::prelude::*;

use crate::config::Config;
use crate::jwt::{
    checked_at, decode_current, decode_head, keys_view, parse_jwks, parsed_jwks, read_payload,
    registered_claims, signature_fault, token_head, token_payload, Jwk, JwkView, JwtFailure,
    SignatureFault, CLOCK_SKEW_SECS,
};
use crate::text::{same_text, trim_end, trimmed_end};

verus! {

/// What an access token says of its bearer.
#[derive(Debug, Clone)]
pub struct Claims {
    pub sub: String,
    pub typ: String,
    pub role: String,
    pub email: String,
    pub exp: i64,
    pub iat: i64,
    pub jti: String,
}

/// Why a token is not accepted.
#[derive(Debug)]
pub enum AuthError {
    Missing,
    Malformed,
    Expired,
    Revoked,
    InvalidSignature,
    JWKSUnreachable(String),
}

impl AuthError {
    /// What the error says.
    pub open spec fn spec_message(&self) -> Seq<char> {
        match self {
            AuthError::Missing => "token missing"@,
            AuthError::Malformed => "token malformed"@,
            AuthError::Expired => "token expired"@,
            AuthError::Revoked => "token revoked"@,
            AuthError::InvalidSignature => "invalid signature"@,
            AuthError::JWKSUnreachable(detail) => "upstream JWKS unreachable: "@ + detail@,
        }
    }

    /// What the error says.
    pub fn message(&self) -> (message: String)
        ensures
            message@ == self.spec_message(),
    {
        match self {
            AuthError::Missing => "token missing".to_string(),
            AuthError::Malformed => "token malformed".to_string(),
            AuthError::Expired => "token expired".to_string(),
            AuthError::Revoked => "token revoked".to_string(),
            AuthError::InvalidSignature => "invalid signature".to_string(),
            AuthError::JWKSUnreachable(detail) => "upstream JWKS unreachable: ".to_string().concat(
                detail.as_str(),
            ),
        }
    }
}

/// Whether an error is an unreachable key set for this reason.
pub open spec fn is_unreachable(error: AuthError, detail: Seq<char>) -> bool {
    error matches AuthError::JWKSUnreachable(text) && text@ == detail
}

/// Keys that were fetched, and when. Times count nanoseconds from a start that never changes.
#[derive(Debug)]
pub struct CachedKeys {
    pub keys: Vec<Jwk>,
    pub fetched_at: u128,
}

/// The keys of the auth service, kept for a while after they were fetched.
#[derive(Debug)]
pub struct JWKSCache {
    auth_url: String,
    ttl_secs: u64,
    cached: Option<CachedKeys>,
}

/// Keys to verify tokens with, or where to fetch them.
pub enum KeyLookup<'a> {
    Fresh(&'a Vec<Jwk>),
    Fetch(String),
}

/// What happened while keys were fetched.
pub enum FetchEvent {
    /// The request could not be sent, for this reason.
    Unsent(String),
    /// A response came in, with this status and this text for it.
    Status { code: u16, text: String },
    /// The body broke off, for this reason.
    BodyLost(String),
    /// The body is complete.
    Body(Vec<u8>),
}

/// What to do next in fetching keys.
pub enum FetchStep {
    ReadBody,
    Stored,
    Failed(AuthError),
}

impl JWKSCache {
    /// The address of the auth service, without slashes at its end.
    pub closed spec fn address(&self) -> Seq<char> {
        self.auth_url@
    }

    /// How many seconds fetched keys stay fresh.
    pub closed spec fn ttl(&self) -> u64 {
        self.ttl_secs
    }

    /// The keys that were fetched last, and when.
    pub closed spec fn held(&self) -> Option<(Seq<JwkView>, u128)> {
        match self.cached {
            Some(cached) => Some((keys_view(cached.keys@), cached.fetched_at)),
            None => None,
        }
    }

    /// Whether keys are held that are still fresh.
    pub open spec fn is_fresh(&self, now: u128) -> bool {
        self.held() matches Some((_, at)) && within_ttl(at, now, self.ttl())
    }

    /// Where the keys are.
    pub open spec fn jwks_url(&self) -> Seq<char> {
        self.address() + "/.well-known/jwks.json"@
    }

    /// A cache that holds nothing yet.
    pub fn new(auth_url: &str, ttl_secs: u64) -> (cache: JWKSCache)
        ensures
            cache.address() == trimmed_end(auth_url@, '/'),
            cache.ttl() == ttl_secs,
            cache.held() is None,
    {
        JWKSCache { auth_url: trim_end(auth_url, '/').to_string(), ttl_secs, cached: None }
    }

    /// The cache that the settings ask for: none where no auth service is configured.
    pub fn from_config(config: &Config) -> (cache: Option<JWKSCache>)
        ensures
            cache is None <==> config.auth_url@.len() == 0,
            cache matches Some(c) ==> c.address() == trimmed_end(config.auth_url@, '/') && c.ttl()
                == config.jwks_cache_ttl_secs && c.held() is None,
    {
        if config.auth_url.as_str().is_empty() {
            None
        } else {
            Some(JWKSCache::new(config.auth_url.as_str(), config.jwks_cache_ttl_secs))
        }
    }

    /// The held keys while they are fresh, else where to fetch them.
    pub fn get(&self, now: u128) -> (lookup: KeyLookup<'_>)
        ensures
            match lookup {
                KeyLookup::Fresh(keys) => self.is_fresh(now) && keys_view(keys@)
                    == (self.held()->0).0,
                KeyLookup::Fetch(url) => !self.is_fresh(now) && url@ == self.jwks_url(),
            },
    {
        if let Some(cached) = &self.cached {
            let elapsed: u128 = now.saturating_sub(cached.fetched_at);
            if elapsed < self.ttl_secs as u128 * 1_000_000_000 {
                return KeyLookup::Fresh(&cached.keys);
            }
        }
        KeyLookup::Fetch(self.auth_url.clone().concat("/.well-known/jwks.json"))
    }

    /// The keys that were fetched last, fresh or not.
    pub fn keys(&self) -> (keys: Option<&Vec<Jwk>>)
        ensures
            keys is Some <==> self.held() is Some,
            keys matches Some(list) ==> keys_view(list@) == (self.held()->0).0,
    {
        match &self.cached {
            Some(cached) => Some(&cached.keys),
            None => None,
        }
    }

    /// Takes the next event of fetching keys. Keys are replaced by a complete and readable answer
    /// only, and are fresh from then on.
    pub fn refresh(&mut self, event: FetchEvent, now: u128) -> (step: FetchStep)
        ensures
            final(self).address() == old(self).address(),
            final(self).ttl() == old(self).ttl(),
            match event {
                FetchEvent::Unsent(detail) => step matches FetchStep::Failed(e) && is_unreachable(
                    e,
                    detail@,
                ),
                FetchEvent::Status { code, text } => if 200 <= code < 300 {
                    step is ReadBody
                } else {
                    step matches FetchStep::Failed(e) && is_unreachable(e, "HTTP "@ + text@)
                },
                FetchEvent::BodyLost(detail) => step matches FetchStep::Failed(e)
                    && is_unreachable(e, "decode: "@ + detail@),
                FetchEvent::Body(body) => match parsed_jwks(body@) {
                    Some(keys) => step is Stored,
                    None => step matches FetchStep::Failed(e) && is_unreachable(
                        e,
                        "decode: error decoding response body"@,
                    ),
                },
            },
            final(self).held() == match event {
                FetchEvent::Body(body) => match parsed_jwks(body@) {
                    Some(keys) => Some((keys, now)),
                    None => old(self).held(),
                },
                _ => old(self).held(),
            },
    {
        match event {
            FetchEvent::Unsent(detail) => FetchStep::Failed(AuthError::JWKSUnreachable(detail)),
            FetchEvent::Status { code, text } => {
                if 200 <= code && code < 300 {
                    FetchStep::ReadBody
                } else {
                    FetchStep::Failed(
                        AuthError::JWKSUnreachable("HTTP ".to_string().concat(text.as_str())),
                    )
                }
            },
            FetchEvent::BodyLost(detail) => FetchStep::Failed(
                AuthError::JWKSUnreachable("decode: ".to_string().concat(detail.as_str())),
            ),
            FetchEvent::Body(body) => match parse_jwks(body.as_slice()) {
                Some(keys) => {
                    self.cached = Some(CachedKeys { keys, fetched_at: now });
                    FetchStep::Stored
                },
                None => FetchStep::Failed(
                    AuthError::JWKSUnreachable("decode: error decoding response body".to_string()),
                ),
            },
        }
    }

    /// Verifies a token with the held keys, or says where to fetch keys first. A token whose
    /// header names no key is refused without fetching.
    pub fn verify(&self, token: &str, now: u128) -> (step: VerifyStep)
        ensures
            named_kid(token@) is None ==> step == VerifyStep::Refused(AuthError::Malformed),
            named_kid(token@) is Some && !self.is_fresh(now) ==> (step matches VerifyStep::Fetch(
                url,
            ) && url@ == self.jwks_url()),
            named_kid(token@) is Some && self.is_fresh(now) ==> match step {
                VerifyStep::Signed(signed) => is_verdict(
                    Ok(signed),
                    (self.held()->0).0,
                    token@,
                ),
                VerifyStep::Refused(e) => is_verdict(Err(e), (self.held()->0).0, token@),
                VerifyStep::Fetch(_) => false,
            },
    {
        if token_kid(token).is_none() {
            return VerifyStep::Refused(AuthError::Malformed);
        }
        match self.get(now) {
            KeyLookup::Fetch(url) => VerifyStep::Fetch(url),
            KeyLookup::Fresh(keys) => match verify_with(keys, token) {
                Ok(signed) => VerifyStep::Signed(signed),
                Err(e) => VerifyStep::Refused(e),
            },
        }
    }
}

/// Whether less than `ttl_secs` seconds have passed since `at`.
pub open spec fn within_ttl(at: u128, now: u128, ttl_secs: u64) -> bool {
    let elapsed: int = if now >= at {
        now - at
    } else {
        0
    };
    elapsed < ttl_secs * 1_000_000_000
}

/// How far the verification of a token has come.
pub enum VerifyStep {
    /// Keys have to be fetched from here.
    Fetch(String),
    /// The signature is good. The claims are to be read and settled with [`finish_verify`].
    Signed(SignedClaims),
    Refused(AuthError),
}

/// The claims of a token with a good signature, as JSON text.
#[derive(Debug)]
pub struct SignedClaims {
    pub payload: Vec<u8>,
    pub expired: bool,
}

/// The key id that a token's header names, if it can be read and names one.
pub open spec fn named_kid(token: Seq<char>) -> Option<Seq<char>> {
    match token_head(token) {
        Some(head) => head.key_id,
        None => None,
    }
}

/// The key id that a token's header names.
pub fn token_kid(token: &str) -> (kid: Option<String>)
    ensures
        kid is Some <==> named_kid(token@) is Some,
        kid matches Some(id) ==> named_kid(token@) == Some(id@),
{
    match decode_head(token) {
        Some(head) => head.key_id,
        None => None,
    }
}

/// The document of the first key with an id.
pub open spec fn key_named(keys: Seq<JwkView>, kid: Seq<char>) -> Option<Seq<char>>
    decreases keys.len(),
{
    if keys.len() == 0 {
        None
    } else if keys[0].key_id == Some(kid) {
        Some(keys[0].document)
    } else {
        key_named(keys.drop_first(), kid)
    }
}

/// The first key with an id.
pub fn find_key<'a>(keys: &'a Vec<Jwk>, kid: &str) -> (key: Option<&'a Jwk>)
    ensures
        key is Some <==> key_named(keys_view(keys@), kid@) is Some,
        key matches Some(k) ==> key_named(keys_view(keys@), kid@) == Some(k.document@),
        key matches Some(k) ==> k@.key_id == Some(kid@) && keys@.contains(*k),
{
    let ghost all = keys_view(keys@);
    assert(all.skip(0) =~= all);
    let mut i: usize = 0;
    while i < keys.len()
        invariant
            i <= keys@.len(),
            all == keys_view(keys@),
            key_named(all, kid@) == key_named(all.skip(i as int), kid@),
        decreases keys@.len() - i,
    {
        assert(all.skip(i as int)[0] == keys@[i as int]@);
        assert(all.skip(i as int).drop_first() =~= all.skip(i + 1));
        if let Some(id) = &keys[i].key_id {
            if same_text(id.as_str(), kid) {
                return Some(&keys[i]);
            }
        }
        i += 1;
    }
    None
}

/// Whether an outcome is what a token is worth, given what came of holding it to its signature and
/// the clock. An expired token still has its claims, because claims that cannot be read count
/// before expiry does.
pub open spec fn is_worth(
    verdict: Result<SignedClaims, AuthError>,
    check: Result<(), JwtFailure>,
    token: Seq<char>,
) -> bool {
    match check {
        Err(JwtFailure::Key) => verdict matches Err(e) && e == AuthError::InvalidSignature,
        Err(JwtFailure::Signature) => verdict matches Err(e) && e == AuthError::InvalidSignature,
        Err(JwtFailure::Other) => verdict matches Err(e) && e == AuthError::Malformed,
        _ => match token_payload(token) {
            Some(payload) => verdict matches Ok(signed) && signed.payload@ == payload
                && signed.expired == (check is Err),
            None => verdict matches Err(e) && e == AuthError::Malformed,
        },
    }
}

/// The algorithm that tokens are signed with.
pub open spec fn signing_algorithm() -> Seq<char> {
    "RS256"@
}

/// Whether an outcome is that of verifying a token while the clock shows `now`, in seconds since
/// 1970. A token without a key id is malformed, and one that names an unknown key, or is not signed
/// by the key it names, has an invalid signature.
pub open spec fn is_verdict_at(
    verdict: Result<SignedClaims, AuthError>,
    keys: Seq<JwkView>,
    token: Seq<char>,
    now: u64,
) -> bool {
    match named_kid(token) {
        None => verdict matches Err(e) && e == AuthError::Malformed,
        Some(kid) => match key_named(keys, kid) {
            None => verdict matches Err(e) && e == AuthError::InvalidSignature,
            Some(document) => is_worth(
                verdict,
                checked_at(
                    signature_fault(token, document, signing_algorithm()),
                    registered_claims(token_payload(token)->0),
                    CLOCK_SKEW_SECS,
                    now,
                ),
                token,
            ),
        },
    }
}

/// Whether an outcome is one that a token can have under a list of keys: it is the outcome for
/// some reading of the clock, and good only for a token that names the right algorithm.
pub open spec fn is_verdict(
    verdict: Result<SignedClaims, AuthError>,
    keys: Seq<JwkView>,
    token: Seq<char>,
) -> bool {
    &&& exists|now: u64| #[trigger] is_verdict_at(verdict, keys, token, now)
    &&& verdict is Ok ==> (token_head(token) matches Some(head) && head.algorithm
        == signing_algorithm())
}

/// Verifies a token against a list of keys.
pub fn verify_with(keys: &Vec<Jwk>, token: &str) -> (verdict: Result<SignedClaims, AuthError>)
    ensures
        is_verdict(verdict, keys_view(keys@), token@),
{
    let kid = match token_kid(token) {
        Some(kid) => kid,
        None => {
            let verdict = Err(AuthError::Malformed);
            assert(is_verdict_at(verdict, keys_view(keys@), token@, 0));
            return verdict;
        },
    };
    let key = match find_key(keys, kid.as_str()) {
        Some(key) => key,
        None => {
            let verdict = Err(AuthError::InvalidSignature);
            assert(is_verdict_at(verdict, keys_view(keys@), token@, 0));
            return verdict;
        },
    };
    let check = decode_current(token, key.document.as_str(), "RS256", CLOCK_SKEW_SECS);
    let ghost document = key.document@;
    let ghost now = choose|now: u64|
        check == #[trigger] checked_at(
            signature_fault(token@, document, signing_algorithm()),
            registered_claims(token_payload(token@)->0),
            CLOCK_SKEW_SECS,
            now,
        );
    let verdict = weigh(check, token);
    assert(is_verdict_at(verdict, keys_view(keys@), token@, now));
    verdict
}

/// What a token is worth, given what came of holding it to its signature and the clock.
pub fn weigh(check: Result<(), JwtFailure>, token: &str) -> (verdict: Result<
    SignedClaims,
    AuthError,
>)
    ensures
        is_worth(verdict, check, token@),
{
    let expired: bool = match check {
        Ok(_) => false,
        Err(JwtFailure::Expired) => true,
        Err(JwtFailure::Key) => {
            return Err(AuthError::InvalidSignature);
        },
        Err(JwtFailure::Signature) => {
            return Err(AuthError::InvalidSignature);
        },
        Err(JwtFailure::Other) => {
            return Err(AuthError::Malformed);
        },
    };
    match read_payload(token) {
        Some(payload) => Ok(SignedClaims { payload, expired }),
        None => Err(AuthError::Malformed),
    }
}

/// What a token with a good signature is settled as, given its claims as far as they could be
/// read.
pub open spec fn settled(claims: Option<Claims>, expired: bool) -> Result<Claims, AuthError> {
    match claims {
        None => Err(AuthError::Malformed),
        Some(c) => if expired {
            Err(AuthError::Expired)
        } else {
            Ok(c)
        },
    }
}

/// Settles a token with a good signature, given its claims as far as they could be read.
pub fn finish_verify(claims: Option<Claims>, expired: bool) -> (verdict: Result<Claims, AuthError>)
    ensures
        verdict == settled(claims, expired),
{
    match claims {
        None => Err(AuthError::Malformed),
        Some(claims) => if expired {
            Err(AuthError::Expired)
        } else {
            Ok(claims)
        },
    }
}

/// The ids of revoked tokens.
pub struct RevocationSet {
    /// The ids in the order they were reported.
    reported: Vec<String>,
    jtis: StringHashSet,
}

impl View for RevocationSet {
    type V = Set<Seq<char>>;

    closed spec fn view(&self) -> Set<Seq<char>> {
        self.jtis@
    }
}

/// The ids in a list.
pub open spec fn ids_in(rows: Seq<String>) -> Set<Seq<char>>
    decreases rows.len(),
{
    if rows.len() == 0 {
        Set::empty()
    } else {
        ids_in(rows.drop_last()).insert(rows.last()@)
    }
}

/// Whether a list holds an id.
pub open spec fn lists(rows: Seq<String>, jti: Seq<char>) -> bool {
    exists|i: int| 0 <= i < rows.len() && (#[trigger] rows[i])@ == jti
}

/// Whether a token id counts as revoked. A token without an id never does.
pub open spec fn counts_as_revoked(revoked: Set<Seq<char>>, jti: Seq<char>) -> bool {
    jti.len() > 0 && revoked.contains(jti)
}

impl RevocationSet {
    #[verifier::type_invariant]
    spec fn well_formed(self) -> bool {
        self.jtis@ == ids_in(self.reported@)
    }

    /// No revoked token.
    pub fn new() -> (set: RevocationSet)
        ensures
            set@ == Set::<Seq<char>>::empty(),
    {
        RevocationSet { reported: Vec::new(), jtis: StringHashSet::new() }
    }

    /// The revoked tokens that the database lists, whatever was known before.
    pub fn bootstrap(rows: Vec<String>) -> (set: RevocationSet)
        ensures
            set@ == ids_in(rows@),
    {
        let mut jtis = StringHashSet::with_capacity(rows.len());
        let mut i: usize = 0;
        while i < rows.len()
            invariant
                i <= rows@.len(),
                jtis@ == ids_in(rows@.take(i as int)),
            decreases rows@.len() - i,
        {
            assert(rows@.take(i + 1).drop_last() =~= rows@.take(i as int));
            jtis.insert(rows[i].clone());
            i += 1;
        }
        assert(rows@.take(rows@.len() as int) =~= rows@);
        RevocationSet { reported: rows, jtis }
    }

    /// The set after a notification of a revoked token. A notification without an id changes
    /// nothing.
    pub fn notified(&self, payload: &str) -> (set: Option<RevocationSet>)
        ensures
            set is None <==> payload@.len() == 0,
            set matches Some(s) ==> s@ == self@.insert(payload@),
    {
        if payload.is_empty() {
            return None;
        }
        proof {
            use_type_invariant(self);
        }
        let mut rows: Vec<String> = Vec::with_capacity(self.reported.len());
        let mut i: usize = 0;
        while i < self.reported.len()
            invariant
                i <= self.reported@.len(),
                rows@ =~= self.reported@.take(i as int),
            decreases self.reported@.len() - i,
        {
            rows.push(self.reported[i].clone());
            i += 1;
        }
        assert(rows@ =~= self.reported@);
        if self.jtis.contains(payload) {
            assert(self@.insert(payload@) =~= self@);
        } else {
            rows.push(payload.to_string());
            assert(rows@.drop_last() =~= self.reported@);
        }
        Some(RevocationSet::bootstrap(rows))
    }

    /// Whether a token id counts as revoked.
    pub fn is_revoked(&self, jti: &str) -> (revoked: bool)
        ensures
            revoked == counts_as_revoked(self@, jti@),
    {
        if jti.is_empty() {
            return false;
        }
        self.jtis.contains(jti)
    }
}

/// How many seconds to wait before listening for revocations again.
pub fn listen_wait(failed: bool) -> (secs: u64)
    ensures
        secs == if failed {
            5u64
        } else {
            0u64
        },
{
    if failed {
        5
    } else {
        0
    }
}

/// Keys are used for as long as the settings say after they were fetched, and no longer.
pub proof fn keys_are_used_until_they_expire(
    cache: &JWKSCache,
    keys: Seq<JwkView>,
    at: u128,
    now: u128,
)
    requires
        cache.held() == Some((keys, at)),
        at <= now,
    ensures
        cache.is_fresh(now) <==> now < at + cache.ttl() * 1_000_000_000,
{
}

/// Claims come only out of a token that is signed, with the algorithm in use, by a key that the
/// auth service lists under the id that the token names.
pub proof fn claims_are_signed_by_a_listed_key(
    signed: SignedClaims,
    keys: Seq<JwkView>,
    token: Seq<char>,
)
    requires
        is_verdict(Ok(signed), keys, token),
    ensures
        token_head(token) matches Some(head) && head.algorithm == "RS256"@,
        token_payload(token) == Some(signed.payload@),
        exists|i: int|
            0 <= i < keys.len() && named_kid(token) == (#[trigger] keys[i]).key_id
                && named_kid(token) is Some && signature_fault(
                token,
                keys[i].document,
                signing_algorithm(),
            ) is None,
{
    lemma_key_is_listed(keys, named_kid(token)->0);
}

/// A token that says when it expires and is signed by the key it names has expired exactly where
/// that time lies back by more than clocks may differ. Until then its claims are good, unless it
/// is for an audience.
pub proof fn signed_tokens_expire(
    verdict: Result<SignedClaims, AuthError>,
    keys: Seq<JwkView>,
    token: Seq<char>,
    now: u64,
    claims: Claims,
)
    requires
        is_verdict_at(verdict, keys, token, now),
        named_kid(token) is Some,
        key_named(keys, named_kid(token)->0) matches Some(document) && signature_fault(
            token,
            document,
            signing_algorithm(),
        ) is None,
        token_payload(token) is Some,
        registered_claims(token_payload(token)->0).expiry is Some,
    ensures
        ({
            let expiry = registered_claims(token_payload(token)->0).expiry->0;
            let late = expiry < now - CLOCK_SKEW_SECS;
            &&& late <==> (verdict matches Ok(signed) && settled(Some(claims), signed.expired)
                == Err::<Claims, AuthError>(AuthError::Expired))
            &&& !late && !registered_claims(token_payload(token)->0).audience <==> (
            verdict matches Ok(signed) && settled(Some(claims), signed.expired) == Ok::<
                Claims,
                AuthError,
            >(claims))
        }),
{
}

/// A token that names no listed key is refused.
pub proof fn unlisted_keys_verify_nothing(
    verdict: Result<SignedClaims, AuthError>,
    keys: Seq<JwkView>,
    token: Seq<char>,
)
    requires
        is_verdict(verdict, keys, token),
        forall|i: int|
            0 <= i < keys.len() ==> (#[trigger] keys[i]).key_id is None || keys[i].key_id
                != named_kid(token),
    ensures
        verdict is Err,
{
    if named_kid(token) is Some && key_named(keys, named_kid(token)->0) is Some {
        lemma_key_is_listed(keys, named_kid(token)->0);
    }
}

proof fn lemma_key_is_listed(keys: Seq<JwkView>, kid: Seq<char>)
    requires
        key_named(keys, kid) is Some,
    ensures
        exists|i: int|
            0 <= i < keys.len() && (#[trigger] keys[i]).key_id == Some(kid) && keys[i].document
                == key_named(keys, kid)->0,
    decreases keys.len(),
{
    if keys[0].key_id != Some(kid) {
        let rest = keys.drop_first();
        lemma_key_is_listed(rest, kid);
        let i = choose|i: int|
            0 <= i < rest.len() && (#[trigger] rest[i]).key_id == Some(kid) && rest[i].document
                == key_named(rest, kid)->0;
        assert(keys[i + 1] == rest[i]);
    }
}

/// A notification revokes the token that it names, and no other.
pub proof fn notification_revokes_one_token(
    revoked: Set<Seq<char>>,
    jti: Seq<char>,
    other: Seq<char>,
)
    ensures
        jti.len() > 0 ==> counts_as_revoked(revoked.insert(jti), jti),
        other != jti ==> (counts_as_revoked(revoked.insert(jti), other) <==> counts_as_revoked(
            revoked,
            other,
        )),
{
}

/// After the revoked tokens were read anew, those that the database lists are revoked and no
/// others, however often and in whatever order it lists them.
pub proof fn exactly_the_listed_tokens_are_revoked(rows: Seq<String>, jti: Seq<char>)
    ensures
        counts_as_revoked(ids_in(rows), jti) <==> jti.len() > 0 && lists(rows, jti),
{
    lemma_ids_in(rows, jti);
}

/// Reading the same revoked tokens again changes nothing.
pub proof fn reading_anew_is_idempotent(first: Seq<String>, second: Seq<String>)
    requires
        forall|jti: Seq<char>| #[trigger] lists(first, jti) <==> lists(second, jti),
    ensures
        ids_in(first) == ids_in(second),
{
    assert forall|jti: Seq<char>| ids_in(first).contains(jti) <==> ids_in(second).contains(
        jti,
    ) by {
        lemma_ids_in(first, jti);
        lemma_ids_in(second, jti);
    }
    assert(ids_in(first) =~= ids_in(second));
}

proof fn lemma_ids_in(rows: Seq<String>, jti: Seq<char>)
    ensures
        ids_in(rows).contains(jti) <==> lists(rows, jti),
    decreases rows.len(),
{
    if rows.len() > 0 {
        let rest = rows.drop_last();
        lemma_ids_in(rest, jti);
        if lists(rest, jti) {
            let i = choose|i: int| 0 <= i < rest.len() && (#[trigger] rest[i])@ == jti;
            assert(rows[i]@ == jti);
        }
        if lists(rows, jti) {
            let i = choose|i: int| 0 <= i < rows.len() && (#[trigger] rows[i])@ == jti;
            if i < rest.len() {
                assert(rest[i]@ == jti);
            }
        }
        assert(rows[rows.len() - 1]@ == rows.last()@);
    }
}

/// The key that verifies a token is looked up by the id in the token's header, whatever the id is.
pub proof fn keys_are_looked_up_by_the_id_in_the_header(token: Seq<char>)
    ensures
        token_head(token) matches Some(head) ==> named_kid(token) == head.key_id,
        token_head(token) is None ==> named_kid(token) is None,
{
}

/// Of the keys with an id the first counts, and no other key does.
pub proof fn the_first_key_of_an_id_counts(keys: Seq<JwkView>, kid: Seq<char>, at: int)
    requires
        0 <= at <= keys.len(),
        forall|i: int| 0 <= i < at ==> (#[trigger] keys[i]).key_id != Some(kid),
        at < keys.len() ==> keys[at].key_id == Some(kid),
    ensures
        at < keys.len() ==> key_named(keys, kid) == Some(keys[at].document),
        at == keys.len() ==> key_named(keys, kid) is None,
    decreases keys.len(),
{
    if keys.len() > 0 && at > 0 {
        let rest = keys.drop_first();
        assert forall|i: int| 0 <= i < at - 1 implies (#[trigger] rest[i]).key_id != Some(kid) by {
            assert(rest[i] == keys[i + 1]);
        }
        assert(keys[0].key_id != Some(kid));
        the_first_key_of_an_id_counts(rest, kid, at - 1);
    }
}

/// What a token is worth. Its header must be readable and name a key. The first listed key of that
/// id must have signed it with RS256. It must say when it expires. Then, while that lies back by
/// no more than a minute and the token names no audience, its claims are good; later on they are
/// good but expired.
pub proof fn tokens_are_worth_what_they_say(
    verdict: Result<SignedClaims, AuthError>,
    keys: Seq<JwkView>,
    token: Seq<char>,
    kid: Seq<char>,
    at: int,
    payload: Seq<u8>,
    expiry: u64,
    now: u64,
)
    requires
        is_verdict_at(verdict, keys, token, now),
        token_head(token) matches Some(head) && head.key_id == Some(kid),
        0 <= at < keys.len(),
        keys[at].key_id == Some(kid),
        forall|i: int| 0 <= i < at ==> (#[trigger] keys[i]).key_id != Some(kid),
        signature_fault(token, keys[at].document, "RS256"@) is None,
        token_payload(token) == Some(payload),
        registered_claims(payload).expiry == Some(expiry),
    ensures
        expiry + 60 >= now && !registered_claims(payload).audience ==> (verdict matches Ok(signed)
            && signed.payload@ == payload && !signed.expired),
        expiry + 60 >= now && registered_claims(payload).audience ==> verdict == Err::<
            SignedClaims,
            AuthError,
        >(AuthError::Malformed),
        expiry + 60 < now ==> (verdict matches Ok(signed) && signed.payload@ == payload
            && signed.expired),
{
    the_first_key_of_an_id_counts(keys, kid, at);
}

/// Whatever the clock shows, the claims of a token that is signed by the key it names, says when
/// it expires and names no audience come out as they are.
pub proof fn signed_claims_come_out(
    verdict: Result<SignedClaims, AuthError>,
    keys: Seq<JwkView>,
    token: Seq<char>,
    kid: Seq<char>,
    at: int,
    payload: Seq<u8>,
)
    requires
        is_verdict(verdict, keys, token),
        token_head(token) matches Some(head) && head.key_id == Some(kid),
        0 <= at < keys.len(),
        keys[at].key_id == Some(kid),
        forall|i: int| 0 <= i < at ==> (#[trigger] keys[i]).key_id != Some(kid),
        signature_fault(token, keys[at].document, "RS256"@) is None,
        token_payload(token) == Some(payload),
        registered_claims(payload).expiry is Some,
        !registered_claims(payload).audience,
    ensures
        verdict matches Ok(signed) && signed.payload@ == payload,
        registered_claims(payload).expiry == Some(0xffff_ffff_ffff_ffffu64) ==> (
        verdict matches Ok(signed) && !signed.expired),
{
    let now = choose|now: u64| #[trigger] is_verdict_at(verdict, keys, token, now);
    let expiry = registered_claims(payload).expiry->0;
    tokens_are_worth_what_they_say(verdict, keys, token, kid, at, payload, expiry, now);
}

/// Whatever the clock shows, a token is malformed if its header cannot be read or names no key. It
/// has an invalid signature if no listed key has the id it names, if that key cannot be used, or if
/// that key has not signed it.
pub proof fn bad_tokens_are_refused(
    verdict: Result<SignedClaims, AuthError>,
    keys: Seq<JwkView>,
    token: Seq<char>,
    kid: Seq<char>,
    at: int,
)
    requires
        is_verdict(verdict, keys, token),
        0 <= at <= keys.len(),
        forall|i: int| 0 <= i < at ==> (#[trigger] keys[i]).key_id != Some(kid),
        at < keys.len() ==> keys[at].key_id == Some(kid),
    ensures
        token_head(token) is None ==> verdict == Err::<SignedClaims, AuthError>(
            AuthError::Malformed,
        ),
        token_head(token) matches Some(head) && head.key_id is None ==> verdict == Err::<
            SignedClaims,
            AuthError,
        >(AuthError::Malformed),
        token_head(token) matches Some(head) && head.key_id == Some(kid) ==> {
            &&& at == keys.len() ==> verdict == Err::<SignedClaims, AuthError>(
                AuthError::InvalidSignature,
            )
            &&& at < keys.len() ==> match signature_fault(token, keys[at].document, "RS256"@) {
                Some(SignatureFault::Key) => verdict == Err::<SignedClaims, AuthError>(
                    AuthError::InvalidSignature,
                ),
                Some(SignatureFault::Signature) => verdict == Err::<SignedClaims, AuthError>(
                    AuthError::InvalidSignature,
                ),
                Some(SignatureFault::Shape) => verdict == Err::<SignedClaims, AuthError>(
                    AuthError::Malformed,
                ),
                None => match token_payload(token) {
                    Some(payload) => registered_claims(payload).expiry is None ==> verdict == Err::<
                        SignedClaims,
                        AuthError,
                    >(AuthError::Malformed),
                    None => verdict == Err::<SignedClaims, AuthError>(AuthError::Malformed),
                },
            }
        },
        verdict is Ok ==> (token_head(token) matches Some(head) && head.algorithm == "RS256"@),
{
    let now = choose|now: u64| #[trigger] is_verdict_at(verdict, keys, token, now);
    the_first_key_of_an_id_counts(keys, kid, at);
}

/// What a check came to decides what a token is worth: an unusable key or a wrong signature makes
/// it unsigned, expiry leaves its claims with a mark, and any other fault makes it malformed.
pub proof fn checks_decide_what_a_token_is_worth(
    verdict: Result<SignedClaims, AuthError>,
    token: Seq<char>,
    payload: Seq<u8>,
)
    requires
        token_payload(token) == Some(payload),
    ensures
        is_worth(verdict, Ok(()), token) <==> (verdict matches Ok(signed) && signed.payload@ == payload
            && !signed.expired),
        is_worth(verdict, Err(JwtFailure::Expired), token) <==> (verdict matches Ok(signed)
            && signed.payload@ == payload && signed.expired),
        is_worth(verdict, Err(JwtFailure::Key), token) <==> verdict == Err::<
            SignedClaims,
            AuthError,
        >(AuthError::InvalidSignature),
        is_worth(verdict, Err(JwtFailure::Signature), token) <==> verdict == Err::<
            SignedClaims,
            AuthError,
        >(AuthError::InvalidSignature),
        is_worth(verdict, Err(JwtFailure::Other), token) <==> verdict == Err::<
            SignedClaims,
            AuthError,
        >(AuthError::Malformed),
{
}

/// Without readable claims no check makes a token good.
pub proof fn unreadable_claims_are_malformed(
    verdict: Result<SignedClaims, AuthError>,
    token: Seq<char>,
)
    requires
        token_payload(token) is None,
    ensures
        is_worth(verdict, Ok(()), token) <==> verdict == Err::<SignedClaims, AuthError>(
            AuthError::Malformed,
        ),
        is_worth(verdict, Err(JwtFailure::Expired), token) <==> verdict == Err::<
            SignedClaims,
            AuthError,
        >(AuthError::Malformed),
{
}

/// Claims that were read are good unless they have expired. Claims that were not are malformed,
/// expired or not.
pub proof fn claims_settle_a_token(claims: Claims, expired: bool)
    ensures
        settled(Some(claims), false) == Ok::<Claims, AuthError>(claims),
        settled(Some(claims), true) == Err::<Claims, AuthError>(AuthError::Expired),
        settled(None, expired) == Err::<Claims, AuthError>(AuthError::Malformed),
{
}

/// A list revokes the tokens whose ids it holds, however long the ids are, and no others. A token
/// without an id is never revoked.
pub proof fn a_list_revokes_what_it_holds(rows: Seq<String>, jti: Seq<char>)
    ensures
        ids_in(rows).contains(jti) <==> exists|i: int|
            0 <= i < rows.len() && (#[trigger] rows[i])@ == jti,
        counts_as_revoked(ids_in(rows), jti) <==> jti.len() > 0 && exists|i: int|
            0 <= i < rows.len() && (#[trigger] rows[i])@ == jti,
{
    lemma_ids_in(rows, jti);
}

/// A token counts as revoked exactly if it has an id and the id is among the revoked ones.
pub proof fn revoked_ids_count(revoked: Set<Seq<char>>, jti: Seq<char>)
    ensures
        counts_as_revoked(revoked.insert(jti), jti) <==> jti != Seq::<char>::empty(),
        !counts_as_revoked(revoked.remove(jti), jti),
{
    if jti.len() == 0 {
        assert(jti =~= Seq::<char>::empty());
    }
}

/// Keys are fetched from a fixed place below the auth service's address, and are fresh as soon as
/// they are stored unless they never are.
pub proof fn keys_come_from_the_auth_service(
    cache: &JWKSCache,
    keys: Seq<JwkView>,
    at: u128,
    now: u128,
)
    ensures
        cache.jwks_url() == cache.address() + "/.well-known/jwks.json"@,
        cache.held() is None ==> !cache.is_fresh(now),
        cache.held() == Some((keys, at)) && now <= at ==> (cache.is_fresh(now) <==> cache.ttl()
            > 0),
{
}

/// What an error says of a token or of the keys.
pub proof fn auth_errors_tell_what_went_wrong(detail: String)
    ensures
        AuthError::Missing.spec_message() == "token missing"@,
        AuthError::Malformed.spec_message() == "token malformed"@,
        AuthError::Expired.spec_message() == "token expired"@,
        AuthError::Revoked.spec_message() == "token revoked"@,
        AuthError::InvalidSignature.spec_message() == "invalid signature"@,
        AuthError::JWKSUnreachable(detail).spec_message() == "upstream JWKS unreachable: "@
            + detail@,
        is_unreachable(AuthError::JWKSUnreachable(detail), detail@),
{
}

/// Keys are unreachable for exactly the reason that the error holds.
pub proof fn unreachable_keys_have_a_reason(error: AuthError, detail: Seq<char>)
    ensures
        is_unreachable(error, detail) <==> (error matches AuthError::JWKSUnreachable(text) && text@
            == detail),
        is_unreachable(error, detail) ==> error.spec_message() == "upstream JWKS unreachable: "@
            + detail,
{
}

} // verus!
