//! Stateless signed-token issuance and verification: the authentication
//! gate the session protocol relies on.
//!
//! Tokens are JSON Web Tokens signed with HMAC-SHA512 under an
//! operator-configured secret. Verification failures are distinguished
//! by kind, so the gateway can choose between letting the client retry
//! and tearing the connection down.

use vstd::prelude::*;

verus! {

/// The claims embedded in a session token.
pub struct Claims {
    pub sub: String,
    pub company: String,
    pub exp: usize,
    pub user: String,
}

/// How a token verification ended.
pub enum JwtDecodeResult {
    InvalidToken,
    InvalidSignature,
    ExpiredSignature,
    GeneralError,
    Claims(Claims),
}

/// The kind of a verification failure, told apart for the caller.
pub enum JwtErrorKind {
    InvalidToken,
    InvalidSignature,
    ExpiredSignature,
    Other,
}

/// The token `jsonwebtoken::encode` produces for an HMAC-SHA512 secret
/// key and these claims. It is a pure function of its arguments: the
/// serialized header and claims are base64-encoded and HMAC-signed,
/// with no randomness, clock or machine state involved.
pub uninterp spec fn hs512_token_of(
    key: Seq<u8>,
    kid: Seq<char>,
    sub: Seq<char>,
    company: Seq<char>,
    exp: u64,
    user: Seq<char>,
) -> Seq<char>;

#[verifier::external_type_specification]
#[verifier::external_body]
pub struct ExJwtError(jsonwebtoken::errors::Error);

/// Relies on `jsonwebtoken::encode` with `Algorithm::HS512` and a
/// secret key: the token is deterministic in the key, the header's key
/// id, and the claims. This path cannot fail: a secret key belongs to
/// the HMAC family, so the algorithm-family check passes; serializing
/// the fixed header and these string and integer claims cannot fail;
/// and HMAC signing always returns a signature.
#[verifier::external_body]
fn jwt_encode_hs512(key: &[u8], kid: &str, sub: &str, company: &str, exp: u64, user: &str) -> (r:
    Option<String>)
    ensures
        r is Some,
        r matches Some(t) ==> t@ == hs512_token_of(key@, kid@, sub@, company@, exp, user@),
{
    let mut m = serde_json::Map::new();
    m.insert("sub".to_string(), serde_json::Value::from(sub));
    m.insert("company".to_string(), serde_json::Value::from(company));
    m.insert("exp".to_string(), serde_json::Value::from(exp));
    m.insert("user".to_string(), serde_json::Value::from(user));
    let h = jsonwebtoken::Header {
        kid: Some(kid.to_string()),
        alg: jsonwebtoken::Algorithm::HS512,
        ..Default::default()
    };
    let k = jsonwebtoken::EncodingKey::from_secret(key);
    jsonwebtoken::encode(&h, &serde_json::Value::Object(m), &k).ok()
}

/// Relies on `jsonwebtoken::decode` with `Algorithm::HS512`: verifies
/// the signature and the expiry against the clock, and hands back the
/// four claim fields exactly as the token carries them — absent fields
/// stay absent, nothing is substituted. Nothing is promised of the
/// outcome: it depends on the clock.
#[verifier::external_body]
fn jwt_decode_hs512(key: &[u8], token: &str) -> Result<
    (Option<String>, Option<String>, Option<usize>, Option<String>),
    jsonwebtoken::errors::Error,
> {
    let k = jsonwebtoken::DecodingKey::from_secret(key);
    let v = jsonwebtoken::Validation::new(jsonwebtoken::Algorithm::HS512);
    let t = jsonwebtoken::decode::<serde_json::Value>(token, &k, &v)?.claims;
    let s = |n: &str| t.get(n).and_then(|x| x.as_str()).map(|x| x.to_string());
    let exp = t.get("exp").and_then(|x| x.as_u64()).map(|x| x as usize);
    Ok((s("sub"), s("company"), exp, s("user")))
}

/// Relies on `jsonwebtoken::errors::Error::kind`: tells the failure
/// kinds apart, one arm each.
#[verifier::external_body]
fn jwt_error_kind(e: &jsonwebtoken::errors::Error) -> JwtErrorKind {
    match e.kind() {
        jsonwebtoken::errors::ErrorKind::InvalidToken => JwtErrorKind::InvalidToken,
        jsonwebtoken::errors::ErrorKind::InvalidSignature => JwtErrorKind::InvalidSignature,
        jsonwebtoken::errors::ErrorKind::ExpiredSignature => JwtErrorKind::ExpiredSignature,
        _ => JwtErrorKind::Other,
    }
}

/// Issues a signed session token for the user, embedding the fixed
/// subject, issuer and expiry the gateway uses. Issuance always
/// succeeds: HMAC signing under a secret key cannot fail.
pub fn encode_hs512_token(key: &[u8], username: &str) -> (r: Option<String>)
    ensures
        r is Some,
        r matches Some(t) ==> t@ == hs512_token_of(
            key@,
            "signing_key"@,
            "b@b.com"@,
            "ACME"@,
            10000000000u64,
            username@,
        ),
{
    jwt_encode_hs512(key, "signing_key", "b@b.com", "ACME", 10000000000u64, username)
}

/// The verification outcome a raw decode result stands for. A verified
/// token yields its claims only when all four fields are present: a
/// validly signed token missing a claim is a general failure, as it was
/// when the claims were decoded into a typed struct. Each failure kind
/// keeps its own outcome, so the caller can tell retryable failures
/// from fatal ones.
pub fn decode_outcome(
    res: Result<(Option<String>, Option<String>, Option<usize>, Option<String>), JwtErrorKind>,
) -> (r: JwtDecodeResult)
    ensures
        (res matches Ok(f) && f.0 is Some && f.1 is Some && f.2 is Some && f.3 is Some) ==> (r
            matches JwtDecodeResult::Claims(c) && c.sub == res->Ok_0.0->0 && c.company
            == res->Ok_0.1->0 && c.exp == res->Ok_0.2->0 && c.user == res->Ok_0.3->0),
        (res matches Ok(f) && !(f.0 is Some && f.1 is Some && f.2 is Some && f.3 is Some))
            ==> r is GeneralError,
        res matches Err(k) ==> ({
            &&& k is InvalidToken ==> r is InvalidToken
            &&& k is InvalidSignature ==> r is InvalidSignature
            &&& k is ExpiredSignature ==> r is ExpiredSignature
            &&& k is Other ==> r is GeneralError
        }),
{
    match res {
        Result::Ok((Some(sub), Some(company), Some(exp), Some(user))) => JwtDecodeResult::Claims(
            Claims { sub, company, exp, user },
        ),
        Result::Ok(_) => JwtDecodeResult::GeneralError,
        Result::Err(JwtErrorKind::InvalidToken) => JwtDecodeResult::InvalidToken,
        Result::Err(JwtErrorKind::InvalidSignature) => JwtDecodeResult::InvalidSignature,
        Result::Err(JwtErrorKind::ExpiredSignature) => JwtDecodeResult::ExpiredSignature,
        Result::Err(JwtErrorKind::Other) => JwtDecodeResult::GeneralError,
    }
}

/// Verifies a session token. The outcome depends on the clock (expiry
/// is checked against the time of the call), so no contract can pin it
/// to the inputs; `decode_outcome` fixes, per raw outcome, exactly
/// which result each verification ending yields, and the session
/// protocol fixes the response to every result.
pub fn decode_hs512_token(key: &[u8], token: &str) -> JwtDecodeResult {
    match jwt_decode_hs512(key, token) {
        Result::Ok(fields) => decode_outcome(Result::Ok(fields)),
        Result::Err(e) => decode_outcome(Result::Err(jwt_error_kind(&e))),
    }
}

} // verus!
