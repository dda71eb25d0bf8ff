//! Signed tokens and the keys that verify them, as `jsonwebtoken` reads them.

use base64::engine::general_purpose::URL_SAFE_NO_PAD;
use base64::Engine;
use jsonwebtoken::errors::ErrorKind;
use jsonwebtoken::{DecodingKey, Validation};
use serde::de::IgnoredAny;
use vstd::prelude::*;

use crate::text::chars_of;

verus! {

/// A public key of the auth service.
#[derive(Debug, Clone)]
pub struct Jwk {
    /// The id by which tokens name the key.
    pub key_id: Option<String>,
    /// The key as a JSON Web Key document.
    pub document: String,
}

/// A public key, by what it holds.
pub struct JwkView {
    pub key_id: Option<Seq<char>>,
    pub document: Seq<char>,
}

impl View for Jwk {
    type V = JwkView;

    open spec fn view(&self) -> JwkView {
        JwkView {
            key_id: match self.key_id {
                Some(id) => Some(id@),
                None => None,
            },
            document: self.document@,
        }
    }
}

/// A list of keys, by what they hold.
pub open spec fn keys_view(keys: Seq<Jwk>) -> Seq<JwkView> {
    keys.map_values(|key: Jwk| key@)
}

/// The keys in a result of reading a key set.
pub open spec fn jwks_view(keys: Option<Vec<Jwk>>) -> Option<Seq<JwkView>> {
    match keys {
        Some(list) => Some(keys_view(list@)),
        None => None,
    }
}

/// The keys in a JWK set document, nothing where the document is none.
pub uninterp spec fn parsed_jwks(body: Seq<u8>) -> Option<Seq<JwkView>>;

/// `serde_json::from_slice` into a `jsonwebtoken::jwk::JwkSet`: the keys of a JWK set document in
/// their order, each with its id and the document of it alone.
#[verifier::external_body]
pub(crate) fn parse_jwks(body: &[u8]) -> (keys: Option<Vec<Jwk>>)
    ensures
        jwks_view(keys) == parsed_jwks(body@),
{
    let set: jsonwebtoken::jwk::JwkSet = serde_json::from_slice(body).ok()?;
    let mut keys = Vec::new();
    for key in set.keys {
        let document = serde_json::to_string(&key).ok()?;
        keys.push(Jwk { key_id: key.common.key_id, document });
    }
    Some(keys)
}

/// What the header of a token says.
#[derive(Debug)]
pub struct TokenHead {
    /// The name of the algorithm that the token claims to be signed with.
    pub algorithm: String,
    /// The id of the key that the token claims to be signed with.
    pub key_id: Option<String>,
}

/// What the header of a token says.
pub struct TokenHeadView {
    pub algorithm: Seq<char>,
    pub key_id: Option<Seq<char>>,
}

impl View for TokenHead {
    type V = TokenHeadView;

    open spec fn view(&self) -> TokenHeadView {
        TokenHeadView {
            algorithm: self.algorithm@,
            key_id: match self.key_id {
                Some(id) => Some(id@),
                None => None,
            },
        }
    }
}

/// The header in a result of reading one.
pub open spec fn head_view(head: Option<TokenHead>) -> Option<TokenHeadView> {
    match head {
        Some(h) => Some(h@),
        None => None,
    }
}

/// What the header of a token says, nothing where it cannot be read.
pub uninterp spec fn token_head(token: Seq<char>) -> Option<TokenHeadView>;

/// `jsonwebtoken::decode_header`: reads the header of a token, with the algorithm by its name. The
/// token is not verified.
#[verifier::external_body]
pub(crate) fn decode_head(token: &str) -> (head: Option<TokenHead>)
    ensures
        head_view(head) == token_head(token@),
{
    match jsonwebtoken::decode_header(token) {
        Ok(header) => Some(
            TokenHead { algorithm: format!("{:?}", header.alg), key_id: header.kid },
        ),
        Err(_) => None,
    }
}

/// The position of the last `c`, or -1 where there is none.
pub open spec fn last_position(text: Seq<char>, c: char) -> int
    decreases text.len(),
{
    if text.len() == 0 {
        -1
    } else if text.last() == c {
        text.len() - 1
    } else {
        last_position(text.drop_last(), c)
    }
}

/// The part of a token that holds its claims: what stands between its last two dots.
pub open spec fn claims_part(token: Seq<char>) -> Option<Seq<char>> {
    let end = last_position(token, '.');
    let start = last_position(token.take(end), '.');
    if end < 0 || start < 0 {
        None
    } else {
        Some(token.subrange(start + 1, end))
    }
}

/// The bytes that a text spells in base64, with the URL-safe alphabet and without padding; nothing
/// where it spells none.
pub uninterp spec fn base64_bytes(text: Seq<char>) -> Option<Seq<u8>>;

/// The bytes in a result of reading base64.
pub open spec fn bytes_view(bytes: Option<Vec<u8>>) -> Option<Seq<u8>> {
    match bytes {
        Some(b) => Some(b@),
        None => None,
    }
}

/// `base64::Engine::decode` of the engine `URL_SAFE_NO_PAD`, by which `jsonwebtoken` reads the
/// parts of a token.
#[verifier::external_body]
fn decode_base64(text: &str) -> (bytes: Option<Vec<u8>>)
    ensures
        bytes_view(bytes) == base64_bytes(text@),
{
    URL_SAFE_NO_PAD.decode(text).ok()
}

/// The claims of a token, as the bytes of their JSON text.
pub open spec fn token_payload(token: Seq<char>) -> Option<Seq<u8>> {
    match claims_part(token) {
        Some(part) => base64_bytes(part),
        None => None,
    }
}

/// The number of characters in front of the last `c` among the first `end`, if there is one.
fn before_last(chars: &Vec<char>, end: usize, c: char) -> (position: Option<usize>)
    requires
        end <= chars@.len(),
    ensures
        match position {
            Some(at) => last_position(chars@.take(end as int), c) == at && at < end,
            None => last_position(chars@.take(end as int), c) < 0,
        },
{
    let mut i: usize = end;
    while i > 0
        invariant
            i <= end <= chars@.len(),
            last_position(chars@.take(end as int), c) == last_position(chars@.take(i as int), c),
        decreases i,
    {
        assert(chars@.take(i as int).drop_last() =~= chars@.take(i - 1));
        if chars[i - 1] == c {
            return Some(i - 1);
        }
        i = i - 1;
    }
    None
}

/// The claims of a token, as the bytes of their JSON text. The token is not verified.
pub fn read_payload(token: &str) -> (payload: Option<Vec<u8>>)
    ensures
        payload is Some <==> token_payload(token@) is Some,
        payload matches Some(bytes) ==> token_payload(token@) == Some(bytes@),
{
    let chars: Vec<char> = chars_of(token);
    assert(chars@.take(chars@.len() as int) =~= token@);
    let end: usize = match before_last(&chars, chars.len(), '.') {
        Some(end) => end,
        None => {
            return None;
        },
    };
    let start: usize = match before_last(&chars, end, '.') {
        Some(start) => start,
        None => {
            return None;
        },
    };
    let part = token.substring_char(start + 1, end);
    assert(part@ =~= token@.subrange(start + 1, end as int));
    decode_base64(part)
}

/// Why a token is not accepted under a key.
#[derive(Debug, Clone, Copy, PartialEq, Eq, Structural)]
pub enum JwtFailure {
    /// The key cannot be used.
    Key,
    /// The signature is not the key's.
    Signature,
    /// The token has expired.
    Expired,
    /// Anything else, from a wrong number of parts to a claim that is missing.
    Other,
}

/// What is wrong with a token before its claims are looked at.
pub enum SignatureFault {
    /// The key cannot be used.
    Key,
    /// The signature is not the key's.
    Signature,
    /// The token is signed with another algorithm, or its parts are not what they should be.
    Shape,
}

/// What is wrong with a token that should be signed by a key with an algorithm, nothing where
/// its shape and signature are good.
pub uninterp spec fn signature_fault(
    token: Seq<char>,
    jwk: Seq<char>,
    algorithm: Seq<char>,
) -> Option<SignatureFault>;

/// The claims that a token is held to.
pub struct RegisteredClaims {
    /// When the token expires, in seconds since 1970.
    pub expiry: Option<u64>,
    /// Whether the token names an audience.
    pub audience: bool,
}

/// The claims that `jsonwebtoken` finds in the JSON text of a payload and holds a token to.
pub uninterp spec fn registered_claims(payload: Seq<u8>) -> RegisteredClaims;

/// What comes of a token while the clock shows `now`, in seconds since 1970, where clocks may
/// differ by `leeway` seconds. A token must say when it expires, and must not be for an audience.
pub open spec fn checked_at(
    fault: Option<SignatureFault>,
    claims: RegisteredClaims,
    leeway: u64,
    now: u64,
) -> Result<(), JwtFailure> {
    match fault {
        Some(SignatureFault::Key) => Err(JwtFailure::Key),
        Some(SignatureFault::Signature) => Err(JwtFailure::Signature),
        Some(SignatureFault::Shape) => Err(JwtFailure::Other),
        None => match claims.expiry {
            None => Err(JwtFailure::Other),
            Some(expiry) => if expiry < now - leeway {
                Err(JwtFailure::Expired)
            } else if claims.audience {
                Err(JwtFailure::Other)
            } else {
                Ok(())
            },
        },
    }
}

/// Whether a token claims to be signed with an algorithm, and its claims can be got at.
pub open spec fn is_signed_with(token: Seq<char>, algorithm: Seq<char>) -> bool {
    &&& token_head(token) matches Some(head) && head.algorithm == algorithm
    &&& token_payload(token) is Some
}

/// How far, in seconds, clocks may differ.
pub const CLOCK_SKEW_SECS: u64 = 60;

/// `jsonwebtoken::decode` under one algorithm, given by its name, with the key that
/// `DecodingKey::from_jwk` makes of a JWK document, and with the claims held against the clock,
/// which is read once. What the clock shows is left unsaid, so that the leeway is fixed from the
/// start: another would look like another time. A token that passes, or fails for its
/// expiry alone, names the algorithm in its header and holds its claims in base64.
#[verifier::external_body]
pub(crate) fn decode_current(token: &str, jwk: &str, algorithm: &str, leeway: u64) -> (check:
    Result<(), JwtFailure>)
    requires
        leeway == CLOCK_SKEW_SECS,
    ensures
        exists|now: u64|
            check == #[trigger] checked_at(
                signature_fault(token@, jwk@, algorithm@),
                registered_claims(token_payload(token@)->0),
                leeway,
                now,
            ),
        check is Ok ==> is_signed_with(token@, algorithm@),
        check matches Err(JwtFailure::Expired) ==> is_signed_with(token@, algorithm@),
{
    let Ok(jwk) = serde_json::from_str(jwk) else { return Err(JwtFailure::Key) };
    let Ok(key) = DecodingKey::from_jwk(&jwk) else { return Err(JwtFailure::Key) };
    let Ok(algorithm) = algorithm.parse() else { return Err(JwtFailure::Other) };
    let mut validation = Validation::new(algorithm);
    validation.leeway = leeway;
    match jsonwebtoken::decode::<IgnoredAny>(token, &key, &validation) {
        Ok(_) => Ok(()),
        Err(error) => match error.kind() {
            ErrorKind::ExpiredSignature => Err(JwtFailure::Expired),
            ErrorKind::InvalidSignature => Err(JwtFailure::Signature),
            _ => Err(JwtFailure::Other),
        },
    }
}

/// The claims of a token are what stands in base64 between its last two dots.
pub proof fn claims_stand_between_the_last_two_dots(
    head: Seq<char>,
    claims: Seq<char>,
    signature: Seq<char>,
)
    requires
        forall|i: int| 0 <= i < claims.len() ==> claims[i] != '.',
        forall|i: int| 0 <= i < signature.len() ==> signature[i] != '.',
    ensures
        token_payload(head + seq!['.'] + claims + seq!['.'] + signature) == base64_bytes(claims),
{
    let front = head + seq!['.'] + claims;
    let token = front + seq!['.'] + signature;
    lemma_last_position(front, signature);
    assert(token.take(front.len() as int) =~= front);
    lemma_last_position(head, claims);
    assert(token.subrange(head.len() as int + 1, front.len() as int) =~= claims);
}

proof fn lemma_last_position(before: Seq<char>, after: Seq<char>)
    requires
        forall|i: int| 0 <= i < after.len() ==> after[i] != '.',
    ensures
        last_position(before + seq!['.'] + after, '.') == before.len(),
    decreases after.len(),
{
    let whole = before + seq!['.'] + after;
    if after.len() > 0 {
        let shorter = after.drop_last();
        assert(whole.drop_last() =~= before + seq!['.'] + shorter);
        lemma_last_position(before, shorter);
    } else {
        assert(whole =~= before.push('.'));
    }
}

/// A token with fewer than two dots has no claims.
pub proof fn a_token_needs_two_dots(front: Seq<char>, back: Seq<char>)
    requires
        forall|i: int| 0 <= i < front.len() ==> front[i] != '.',
        forall|i: int| 0 <= i < back.len() ==> back[i] != '.',
    ensures
        token_payload(front) is None,
        token_payload(front + seq!['.'] + back) is None,
{
    lemma_no_position(front);
    lemma_last_position(front, back);
    assert((front + seq!['.'] + back).take(front.len() as int) =~= front);
}

proof fn lemma_no_position(text: Seq<char>)
    requires
        forall|i: int| 0 <= i < text.len() ==> text[i] != '.',
    ensures
        last_position(text, '.') == -1,
    decreases text.len(),
{
    if text.len() > 0 {
        lemma_no_position(text.drop_last());
    }
}

/// A list of keys is seen key by key, each with its id and its document.
pub proof fn keys_are_seen_one_by_one(keys: Seq<Jwk>, i: int)
    requires
        0 <= i < keys.len(),
    ensures
        keys_view(keys).len() == keys.len(),
        keys_view(keys)[i].document == keys[i].document@,
        keys[i].key_id matches Some(id) ==> keys_view(keys)[i].key_id == Some(id@),
        keys[i].key_id is None ==> keys_view(keys)[i].key_id is None,
{
}

/// A header is seen with its algorithm and its key id.
pub proof fn heads_are_seen_whole(head: TokenHead)
    ensures
        head@.algorithm == head.algorithm@,
        head.key_id matches Some(id) ==> head@.key_id == Some(id@),
        head.key_id is None ==> head@.key_id is None,
        head_view(Some(head)) == Some(head@),
        head_view(None) is None,
{
}

/// What was read is seen as it is.
pub proof fn results_are_seen_as_they_are(keys: Vec<Jwk>, bytes: Vec<u8>)
    ensures
        jwks_view(Some(keys)) == Some(keys_view(keys@)),
        jwks_view(None) is None,
        bytes_view(Some(bytes)) == Some(bytes@),
        bytes_view(None) is None,
{
}

} // verus!
