//! Tokens signed with RS256, verified against published keys.

use viralefy_api::auth::{
    find_key, finish_verify, listen_wait, token_kid, verify_with, weigh, AuthError, Claims, FetchEvent,
    FetchStep, JWKSCache, KeyLookup, SignedClaims, VerifyStep,
};
use viralefy_api::jwt::{read_payload, Jwk, JwtFailure};

const HEADER: &str = r#"{"alg":"RS256","typ":"JWT","kid":"key-1"}"#;

const GOOD_CLAIMS: &str =
    r#"{"sub":"user-7","role":"admin","exp":4102444800,"iat":1700000000,"jti":"token-1"}"#;

const EXPIRED_CLAIMS: &str = r#"{"sub":"user-7","exp":1000000000,"jti":"token-1"}"#;

const MODULUS: &[&str] = &[
    "uVmWgWQpAyQAdGQwjCEshDox1tqxTPBCMAonJnKjKQuSlYRsKSoAcZSkQBowtMNf5Sp32gTeeHRN",
    "UH84DYeGyUnMNNkycYrBaBItPmMAQyiWNp5XQ-Pc1-0U1jx8wgDRosfD__r6pRMDgyhToepGTZKX",
    "zwormYr86PXyETDfv73bMD_sQIkBhh3ZF6cvJEqcxf8Br1QEljOLBWO9FZ3hmU8pjYzD5Pz4vDia",
    "fI4DMrWabxpBQKJa-htNuvEDTzQLkNt5KuZ549xpGvSnCaTERF_wEYMcDf7J7M95uwhHuXHaTjW7",
    "C7xEVRKf9ZKzBoHqhC7X5hllURAZ8h7yOPIo2w",
];

const GOOD_SIGNATURE: &[&str] = &[
    "OCsEYFO2mzi5OZwUqVY8Sg6qr-G_BJ53cWqxNHYQ2XXfIlWT6WOsYZYyVgwIsa19mQmFAbko67rU",
    "JjKTTs-kvfS97k3-JkQ0cDVweO4tSWl2nRq3Gd-2aB9YvcRzrdgrqzMT4WLtm9pgiNsgNfqGzqlq",
    "T923Z476bD07HsubhNzkJVrUv1y9v7nPIhw33ASng7JHfGFmMU7OREoxbWO2viNSmWSixMxDScfR",
    "xE0sAZz1RYOgJJ5emeOQmwP8eDywryuZokTnTXutx-uAHiUYaEds_JuYl-lSk21UXoCE01qO548f",
    "Y2w6lhjBmDplGohfHH8NgaUMGYMnSYebVLJPIw",
];

const EXPIRED_SIGNATURE: &[&str] = &[
    "eALYk_trHeiDJZ13t5IIYnW-71PODPom2ZbsHSjbhYUyv8uwJ9h6zOhkoqTs2a2CJeSQYQy9JoZk",
    "7YEutmkblSKMFMYjYbJBWoRCjQyHWwmLkYd4sioeWrhKAHUqTPIt4tdFu_l-QXQ5_boLWXLIlMeK",
    "VSAkJ-JQoUe40-oDc0DejushmlF8dqcKiDetoGpqSfFotzpGaqRYSKehXDOS1M1StvQZTWAghY_I",
    "2inDKZmwUWy6rUj6A3LOnzvuufE2mTuSfGyZEhSAb8RL4QeFXJYle-NybfVQuAPcDvw6tPge7Q8-",
    "7wkEIMDhtkqCu2Jgcg-Nn_EBXNJG0hEF6k1h_Q",
];

const AUDIENCE_SIGNATURE: &[&str] = &[
    "kz4KyA3Tq5byRebtGcGn6pLcskj4Vzm773OoRFvmdiV8STnv4METPXheFzBfZV4O11H3YscfUBvn",
    "Vzyjd2Dm0qm1G91q7VLb3YdsVR3xjQjBhULfy0p49kHa3jIFtlukMDNY3mqgmuQ-VRZVttv9crQL",
    "AxT7NQwOkKZieRHtaRz1Wt1Pvmncr1-71ZeYVxoy7iSQWU6FLFi2OAuuB3wqeApmbrBS1aruD9_E",
    "Xsj0vg3JHw4qSObBNrrIwj05Ylj9I39nmWx4tPCdOPC1GVZQCRHuSvRB6Ob6440gxm7rroy6J5NC",
    "prk5a26QQ2Ly4nTf4HmqYR15aOruoerzklacEQ",
];

const NO_EXPIRY_SIGNATURE: &[&str] = &[
    "nfE19kHOt5r4dX8lj2ehQvw81agRkzjiHWYsnymMzzP6qgKXdNtbCUtX8b-x3dtJ-ITAkcgnwLeq",
    "MXU4OId7UVZkYGGinYuKnk5b9eDTSeTS2m3IaP4dlSRxc8FgvocV67LAhvOctk8QEkh0YzqW4I0M",
    "f-QVt4Xo2cl0ApbczxH51ifSDPpwXsHSC2GXtwKU844DCE3mvniDi7kz143tFKnaWnlMzhpXUJEi",
    "NcFpswndffkgtpesnJSjRB4BlXi1vtNJyY3MqH9RObgc9wjoXDFjtDnqRWZMdHM6elEwhZMurdn4",
    "8Q2yBlFAGReqSnLK-48zAUnE5egAUYBU1GMYKg",
];

const FORGED_SIGNATURE: &[&str] = &[
    "SkWKVxn3IMrzCGZc6xcax6TYadAamUGaGD0Pdkj3-pCrlemorUxBxrv-dLShLR9D8P8hiOTaNTfa",
    "D7bdvIjWiRneV_uLxYiHCRENKNPI6cfNcm6fu-t1LBYrz8d2K2Us5uvMGLq8X12MnnsYcfokY4tS",
    "ByCtEsm6TWGVsU3xfbs6uJ_5VdlE3NpcfeYlntCW0FP0h-Fg5y9uZq7_TCS79icJ8S_Lw0qnzSui",
    "pOw9TrQk2cQzthiBaKWig5EyyK8WjRvK9nH5Y2lOSpS8VoAkQd7uOsJ1c9hjEqpetbtZAGMsJZdz",
    "pP1OQoBqIhHPuYZvVIbW8N4XURcyU-8pLRuuVQ",
];

const NO_OBJECT_SIGNATURE: &[&str] = &[
    "BORx6DTAlGrPfUN18n_ZpyVO3jTLFlLYNG8bjIs_RI76q2NC_kuw2KLys-gKgjv3rhmTc94tplhC",
    "l-FolH_i3YrydX8MTU4jRdkEgxajA3yTDQ9xFQflo47P6yt4HMLGtM4LKTQu4tOFbGl7AhDLjvK5",
    "d96dz5-gOYSg5HjoN7xOA23LBkcI9hhBV3XK7SfMdocHJUGQOATNf015DSwU57OkZ39MbCXnrjuS",
    "8ETOOEor57eSKfJRwrjQPh6wZC0tFVRMDzm8fbxDV3if-NLGWJFSDhRwTcgNrHZs96cSDwBKoDB1",
    "Trc7chZR-NIl23TygKXoDKwoJZeOmCBAeNbRNg",
];

const NO_JSON_SIGNATURE: &[&str] = &[
    "Anbqec0Iq5LrNAaxK37jSvAz-XuCWN-MljabJ9Ptu7Cw6TrJ3LliAfRUJBzD76Qb1mA8SvtozDam",
    "kxvoMT-abKVxYjh5S5eBhw30f3u93atNmhqvq5WKkP8r3ioPjd2W5e3BzQHHhJG3YtsIjoAlCles",
    "0om4o7GB0vnYgo_jjeYanDADSahZhkwWwgfjSGIkGZ-vnX8PVp9Wbo3SNDQtVhb5zfKo1PiOthDC",
    "IPs_TP-OgQ70Kq9HFV5cm4lPzdV2eOMRbVUbbJp0cptojFTip1C5ZekUqez709Y0ioRN6pIRv6wT",
    "nsldRXO9Cst3FTY6nxCg6YPxFhelfkAucpfMYA",
];

const ODD_BYTES_SIGNATURE: &[&str] = &[
    "SX9iShGo7VZNgJ5Qor-IGWhGETwFYkb_4UHXr8QUN-nFfhFbQSquWg95KMRpwuTjVq-4CMUHAGXP",
    "3GU3sXz_HVVYe9_MRJ34SPDJDvcZ5W9KmFm-i6shWqvZqSIb8uyv2AjiaU8oyC5CevGRlTSEjldv",
    "uzYnHoPZYLMddmVXEjxZ2gOLF7jNEZ5I6HUwJfc5bDeBQGQUhwcaPfnEFEaND6BbdejZSaPksaKF",
    "Ji3jVwkPRNmMGPdJBx38OsXD0elpvqZSWAclekHE1EHElzNmSROizs_tsvTLSJ3N2sR5silpaYYu",
    "9ri2gKNGSCf8SZa_DaRTvrTjd0dTwQfEV-vBXg",
];

const SECOND: u128 = 1_000_000_000;

fn base64url(bytes: &[u8]) -> String {
    let alphabet: Vec<char> =
        "ABCDEFGHIJKLMNOPQRSTUVWXYZabcdefghijklmnopqrstuvwxyz0123456789-_".chars().collect();
    let mut text = String::new();
    for chunk in bytes.chunks(3) {
        let mut group: u32 = 0;
        for i in 0..3 {
            group = group << 8 | *chunk.get(i).unwrap_or(&0) as u32;
        }
        for i in 0..chunk.len() + 1 {
            text.push(alphabet[(group >> (18 - 6 * i) & 63) as usize]);
        }
    }
    text
}

fn token_of(header: &str, claims: &[u8], signature: &[&str]) -> String {
    format!("{}.{}.{}", base64url(header.as_bytes()), base64url(claims), signature.concat())
}

fn token(header: &str, claims: &str, signature: &[&str]) -> String {
    token_of(header, claims.as_bytes(), signature)
}

fn good_token() -> String {
    token(HEADER, GOOD_CLAIMS, GOOD_SIGNATURE)
}

fn published_keys() -> String {
    format!(
        r#"{{"keys":[{{"kty":"RSA","kid":"other","n":"AQAB","e":"AQAB"}},{{"kty":"RSA","use":"sig","alg":"RS256","kid":"key-1","n":"{}","e":"AQAB"}}]}}"#,
        MODULUS.concat()
    )
}

fn filled_cache(ttl_secs: u64, now: u128) -> JWKSCache {
    let mut cache = JWKSCache::new("http://auth", ttl_secs);
    let step = cache.refresh(FetchEvent::Body(published_keys().into_bytes()), now);
    assert!(matches!(step, FetchStep::Stored));
    cache
}

fn held_keys() -> Vec<Jwk> {
    filled_cache(60, 0).keys().unwrap().clone()
}

fn verdict(token: &str) -> Result<SignedClaims, AuthError> {
    verify_with(&held_keys(), token)
}

fn claims(jti: &str) -> Claims {
    Claims {
        sub: "user-7".to_string(),
        typ: String::new(),
        role: String::new(),
        email: String::new(),
        exp: 4102444800,
        iat: 0,
        jti: jti.to_string(),
    }
}

#[test]
fn a_signed_token_gives_its_claims() {
    let signed = verdict(&good_token()).unwrap();
    assert_eq!(signed.payload, GOOD_CLAIMS.as_bytes());
    assert!(!signed.expired);
}

#[test]
fn an_expired_token_is_marked() {
    let signed = verdict(&token(HEADER, EXPIRED_CLAIMS, EXPIRED_SIGNATURE)).unwrap();
    assert_eq!(signed.payload, EXPIRED_CLAIMS.as_bytes());
    assert!(signed.expired);
}

#[test]
fn a_signature_of_another_key_is_invalid() {
    let forged = token(HEADER, GOOD_CLAIMS, FORGED_SIGNATURE);
    assert!(matches!(verdict(&forged), Err(AuthError::InvalidSignature)));
}

#[test]
fn changed_claims_are_not_signed() {
    let changed = token(HEADER, EXPIRED_CLAIMS, GOOD_SIGNATURE);
    assert!(matches!(verdict(&changed), Err(AuthError::InvalidSignature)));
}

#[test]
fn a_token_for_another_audience_is_malformed() {
    let claims = r#"{"sub":"user-7","exp":4102444800,"aud":"elsewhere"}"#;
    assert!(matches!(
        verdict(&token(HEADER, claims, AUDIENCE_SIGNATURE)),
        Err(AuthError::Malformed)
    ));
}

#[test]
fn a_token_without_expiry_is_malformed() {
    let claims = r#"{"sub":"user-7"}"#;
    assert!(matches!(
        verdict(&token(HEADER, claims, NO_EXPIRY_SIGNATURE)),
        Err(AuthError::Malformed)
    ));
}

#[test]
fn signed_text_that_is_no_set_of_claims_is_malformed() {
    assert!(matches!(
        verdict(&token(HEADER, r#""user-7""#, NO_OBJECT_SIGNATURE)),
        Err(AuthError::Malformed)
    ));
    assert!(matches!(
        verdict(&token(HEADER, "user-7", NO_JSON_SIGNATURE)),
        Err(AuthError::Malformed)
    ));
}

#[test]
fn another_algorithm_is_malformed() {
    for name in ["HS256", "RS384", "RS512", "PS256", "ES256", "EdDSA", "none"] {
        let header = format!(r#"{{"alg":"{}","typ":"JWT","kid":"key-1"}}"#, name);
        assert!(matches!(
            verdict(&token(&header, GOOD_CLAIMS, GOOD_SIGNATURE)),
            Err(AuthError::Malformed)
        ));
    }
}

#[test]
fn a_token_without_key_id_is_malformed() {
    let header = r#"{"alg":"RS256","typ":"JWT"}"#;
    let nameless = token(header, GOOD_CLAIMS, GOOD_SIGNATURE);
    assert_eq!(token_kid(&nameless), None);
    assert!(matches!(verdict(&nameless), Err(AuthError::Malformed)));
    assert_eq!(token_kid("no token"), None);
    assert!(matches!(verdict("no token"), Err(AuthError::Malformed)));
}

#[test]
fn an_unknown_key_verifies_nothing() {
    assert!(matches!(
        verify_with(&Vec::new(), &good_token()),
        Err(AuthError::InvalidSignature)
    ));
    let header = r#"{"alg":"RS256","typ":"JWT","kid":"key-2"}"#;
    assert!(matches!(
        verdict(&token(header, GOOD_CLAIMS, GOOD_SIGNATURE)),
        Err(AuthError::InvalidSignature)
    ));
}

#[test]
fn an_unusable_key_verifies_nothing() {
    let broken = vec![Jwk {
        key_id: Some("key-1".to_string()),
        document: r#"{"kty":"RSA","kid":"key-1","n":"!!","e":"AQAB"}"#.to_string(),
    }];
    assert!(matches!(
        verify_with(&broken, &good_token()),
        Err(AuthError::InvalidSignature)
    ));
    let no_key = vec![Jwk { key_id: Some("key-1".to_string()), document: "{}".to_string() }];
    assert!(matches!(
        verify_with(&no_key, &good_token()),
        Err(AuthError::InvalidSignature)
    ));
}

#[test]
fn a_token_names_its_key() {
    assert_eq!(token_kid(&good_token()), Some("key-1".to_string()));
}

#[test]
fn the_first_key_of_a_name_is_found() {
    let keys = vec![
        Jwk { key_id: None, document: "nameless".to_string() },
        Jwk { key_id: Some("a".to_string()), document: "first".to_string() },
        Jwk { key_id: Some("a".to_string()), document: "second".to_string() },
    ];
    assert_eq!(find_key(&keys, "a").unwrap().document, "first");
    assert!(find_key(&keys, "b").is_none());
}

#[test]
fn the_outcome_of_a_check_is_weighed() {
    let current = weigh(Ok(()), &good_token()).unwrap();
    assert_eq!(current.payload, GOOD_CLAIMS.as_bytes());
    assert!(!current.expired);
    let late = weigh(Err(JwtFailure::Expired), &good_token()).unwrap();
    assert_eq!(late.payload, GOOD_CLAIMS.as_bytes());
    assert!(late.expired);
    let good = good_token();
    assert!(matches!(weigh(Ok(()), "a.b"), Err(AuthError::Malformed)));
    assert!(matches!(weigh(Err(JwtFailure::Expired), "a.?.c"), Err(AuthError::Malformed)));
    assert!(matches!(weigh(Err(JwtFailure::Key), &good), Err(AuthError::InvalidSignature)));
    assert!(matches!(weigh(Err(JwtFailure::Signature), &good), Err(AuthError::InvalidSignature)));
    assert!(matches!(weigh(Err(JwtFailure::Other), &good), Err(AuthError::Malformed)));
}

#[test]
fn claims_keep_bytes_that_are_no_text() {
    let claims = b"{\"sub\":\"user-7\",\"exp\":4102444800,\"note\":\"\xff\"}";
    let signed = verdict(&token_of(HEADER, claims, ODD_BYTES_SIGNATURE)).unwrap();
    assert_eq!(signed.payload, claims);
    assert!(!signed.expired);
}

#[test]
fn claims_stand_between_the_last_two_dots() {
    assert_eq!(read_payload("YQ.YWI.YWJj"), Some(b"ab".to_vec()));
    assert_eq!(read_payload("x.y.YQ.YWI.YWJj"), Some(b"ab".to_vec()));
    assert_eq!(read_payload(".."), Some(Vec::new()));
    assert_eq!(read_payload("YWI.YWJj"), None);
    assert_eq!(read_payload("YWI"), None);
    assert_eq!(read_payload(""), None);
    assert_eq!(read_payload("a.b.c"), None);
}

#[test]
fn base64_is_read_strictly() {
    let read = |text: &str| read_payload(&format!("x.{}.y", text));
    assert_eq!(read(""), Some(Vec::new()));
    assert_eq!(read("YQ"), Some(b"a".to_vec()));
    assert_eq!(read("YWI"), Some(b"ab".to_vec()));
    assert_eq!(read("YWJj"), Some(b"abc".to_vec()));
    assert_eq!(read("YWJjZA"), Some(b"abcd".to_vec()));
    assert_eq!(read("-_09"), Some(vec![0xfb, 0xfd, 0x3d]));
    assert_eq!(read("____"), Some(vec![255, 255, 255]));
    for text in ["Y", "YWJjZ", "YR", "YWJ", "YQ==", "+/AA", "Y WI", "YWJ\u{e9}"] {
        assert_eq!(read(text), None);
    }
    let all: Vec<u8> = (0..=255).collect();
    for length in 0..all.len() {
        assert_eq!(read(&base64url(&all[..length])), Some(all[..length].to_vec()));
    }
}

#[test]
fn listening_starts_again_after_a_while() {
    assert_eq!(listen_wait(true), 5);
    assert_eq!(listen_wait(false), 0);
}

#[test]
fn claims_settle_a_signed_token() {
    assert_eq!(finish_verify(Some(claims("token-1")), false).unwrap().jti, "token-1");
    assert!(matches!(finish_verify(Some(claims("token-1")), true), Err(AuthError::Expired)));
    assert!(matches!(finish_verify(None, false), Err(AuthError::Malformed)));
    assert!(matches!(finish_verify(None, true), Err(AuthError::Malformed)));
}

#[test]
fn an_empty_cache_asks_for_keys() {
    let cache = JWKSCache::new("http://auth//", 60);
    assert!(matches!(
        cache.get(5),
        KeyLookup::Fetch(url) if url == "http://auth/.well-known/jwks.json"
    ));
    assert!(cache.keys().is_none());
    assert!(matches!(
        cache.verify(&good_token(), 5),
        VerifyStep::Fetch(url) if url == "http://auth/.well-known/jwks.json"
    ));
    assert!(matches!(
        cache.verify("no token", 5),
        VerifyStep::Refused(AuthError::Malformed)
    ));
}

#[test]
fn keys_are_fresh_until_they_expire() {
    let cache = filled_cache(60, 7 * SECOND);
    assert!(matches!(cache.get(7 * SECOND), KeyLookup::Fresh(keys) if keys.len() == 2));
    assert!(matches!(cache.get(67 * SECOND - 1), KeyLookup::Fresh(_)));
    assert!(matches!(cache.get(67 * SECOND), KeyLookup::Fetch(_)));
    assert!(matches!(cache.get(0), KeyLookup::Fresh(_)));
    assert!(matches!(
        cache.verify(&good_token(), 8 * SECOND),
        VerifyStep::Signed(signed) if signed.payload == GOOD_CLAIMS.as_bytes()
    ));
    assert!(matches!(cache.verify(&good_token(), 67 * SECOND), VerifyStep::Fetch(_)));
}

#[test]
fn keys_that_expire_at_once_are_never_fresh() {
    let cache = filled_cache(0, 7);
    assert!(matches!(cache.get(7), KeyLookup::Fetch(_)));
    assert_eq!(cache.keys().unwrap().len(), 2);
}

#[test]
fn published_keys_keep_their_order_and_names() {
    let keys = held_keys();
    assert_eq!(keys.len(), 2);
    assert_eq!(keys[0].key_id, Some("other".to_string()));
    assert_eq!(keys[1].key_id, Some("key-1".to_string()));
    assert!(keys[1].document.contains(&MODULUS.concat()));
}

#[test]
fn a_failed_fetch_keeps_the_held_keys() {
    let mut cache = filled_cache(60, 0);
    let step = cache.refresh(FetchEvent::Unsent("refused".to_string()), 50 * SECOND);
    assert!(matches!(
        step,
        FetchStep::Failed(AuthError::JWKSUnreachable(text)) if text == "refused"
    ));
    let step = cache.refresh(
        FetchEvent::Status { code: 503, text: "503 Service Unavailable".to_string() },
        50 * SECOND,
    );
    assert!(matches!(
        step,
        FetchStep::Failed(AuthError::JWKSUnreachable(text)) if text == "HTTP 503 Service Unavailable"
    ));
    let step = cache.refresh(FetchEvent::BodyLost("closed".to_string()), 50 * SECOND);
    assert!(matches!(
        step,
        FetchStep::Failed(AuthError::JWKSUnreachable(text)) if text == "decode: closed"
    ));
    let step = cache.refresh(FetchEvent::Body(b"no json".to_vec()), 50 * SECOND);
    assert!(matches!(
        step,
        FetchStep::Failed(AuthError::JWKSUnreachable(text))
            if text == "decode: error decoding response body"
    ));
    assert_eq!(cache.keys().unwrap().len(), 2);
    assert!(matches!(cache.get(60 * SECOND), KeyLookup::Fetch(_)));
}

#[test]
fn a_good_status_asks_for_the_body() {
    let mut cache = JWKSCache::new("http://auth", 60);
    for code in [200, 204, 299] {
        let step = cache.refresh(FetchEvent::Status { code, text: String::new() }, 0);
        assert!(matches!(step, FetchStep::ReadBody));
    }
    for code in [199, 300] {
        let step = cache.refresh(FetchEvent::Status { code, text: String::new() }, 0);
        assert!(matches!(step, FetchStep::Failed(_)));
    }
    assert!(cache.keys().is_none());
}

#[test]
fn auth_errors_say_what_is_wrong() {
    assert_eq!(AuthError::Missing.message(), "token missing");
    assert_eq!(AuthError::Malformed.message(), "token malformed");
    assert_eq!(AuthError::Expired.message(), "token expired");
    assert_eq!(AuthError::Revoked.message(), "token revoked");
    assert_eq!(AuthError::InvalidSignature.message(), "invalid signature");
    assert_eq!(
        AuthError::JWKSUnreachable("HTTP 500".to_string()).message(),
        "upstream JWKS unreachable: HTTP 500"
    );
}
