//! The token service: issuing and validating the signed credential that
//! binds a request to a session. Signing is delegated to the
//! jsonwebtoken crate through trusted wrappers; the bearer-header
//! parsing and the mapping of validation failures to the error taxonomy
//! are verified here.

use vstd::prelude::*;

use crate::errors::{JsonError, JsonErrorModel};

verus! {

/// Claims carried by a token: the session id and the absolute expiry
/// instant, in seconds.
#[derive(Clone, Copy, Debug, PartialEq, Eq, Structural)]
pub struct Claims {
    pub session_id: u64,
    pub exp: u64,
}

/// A decoded token together with its claims.
#[derive(Debug, PartialEq, Eq)]
pub struct JWT {
    pub claims: Claims,
    pub token: String,
}

/// Mathematical image of a `JWT`.
#[verifier::ext_equal]
pub struct JWTModel {
    pub claims: Claims,
    pub token: Seq<char>,
}

impl View for JWT {
    type V = JWTModel;

    open spec fn view(&self) -> JWTModel {
        JWTModel { claims: self.claims, token: self.token@ }
    }
}

/// Why validating a token failed: its expiry has passed, it is not a
/// well-formed token, or something else went wrong.
#[derive(Clone, Copy, Debug, PartialEq, Eq, Structural)]
pub enum TokenFault {
    Expired,
    Malformed,
    Other,
}

/// The HS512 token over the claims `(session_id, exp)` signed with
/// `secret`.
pub uninterp spec fn jwt_of(session_id: u64, exp: u64, secret: Seq<char>) -> Seq<char>;

/// Whether signing the claims `(session_id, exp)` with `secret`
/// succeeds. Under the crate's built-in crypto provider the HMAC signer
/// accepts a secret of any length and signing is infallible, so the
/// outcome depends on the arguments alone.
pub uninterp spec fn jwt_signing_ok(session_id: u64, exp: u64, secret: Seq<char>) -> bool;

/// Relies on jsonwebtoken::encode with an HS512 header: the token is an
/// HMAC-signed encoding of the two claims, and both the token and the
/// call's success are functions of the claims and the secret alone.
#[verifier::external_body]
fn encode_token(session_id: u64, exp: u64, secret: &str) -> (r: Result<String, ()>)
    ensures
        r is Ok <==> jwt_signing_ok(session_id, exp, secret@),
        r is Ok ==> r->Ok_0@ == jwt_of(session_id, exp, secret@),
{
    let mut claims = serde_json::Map::new();
    claims.insert("session_id".to_string(), serde_json::Value::from(session_id));
    claims.insert("exp".to_string(), serde_json::Value::from(exp));
    let header = jsonwebtoken::Header::new(jsonwebtoken::Algorithm::HS512);
    let key = jsonwebtoken::EncodingKey::from_secret(secret.as_bytes());
    jsonwebtoken::encode(&header, &serde_json::Value::Object(claims), &key).map_err(|_| ())
}

/// Relies on jsonwebtoken::decode with HS512 validation: the signature
/// and the `exp` claim are checked against the secret and the clock, so
/// success is not promised; expired and malformed tokens are told apart
/// as the crate reports them. When the token is exactly the named
/// encoding of some claims under this secret and decoding succeeds, the
/// claims come back unchanged: a successfully verified payload is
/// deserialized as it was serialized.
#[verifier::external_body]
fn decode_token(token: &str, secret: &str) -> (r: Result<(u64, u64), TokenFault>)
    ensures
        forall|sid: u64, e: u64|
            r is Ok && token@ == #[trigger] jwt_of(sid, e, secret@) ==> r->Ok_0 == (sid, e),
{
    let key = jsonwebtoken::DecodingKey::from_secret(secret.as_bytes());
    let validation = jsonwebtoken::Validation::new(jsonwebtoken::Algorithm::HS512);
    match jsonwebtoken::decode::<serde_json::Value>(token, &key, &validation) {
        Ok(d) => match (d.claims.get("session_id").and_then(|v| v.as_u64()), d.claims.get("exp").and_then(|v| v.as_u64())) {
            (Some(s), Some(e)) => Ok((s, e)),
            _ => Err(TokenFault::Malformed),
        },
        Err(e) => Err(match e.kind() {
            jsonwebtoken::errors::ErrorKind::ExpiredSignature => TokenFault::Expired,
            jsonwebtoken::errors::ErrorKind::InvalidToken => TokenFault::Malformed,
            _ => TokenFault::Other,
        }),
    }
}

/// The expiry claim for a token issued at `now_ms` with the configured
/// validity in seconds.
pub fn jwt_expiry(now_ms: i64, duration_secs: i64) -> (r: u64)
    requires
        0 <= now_ms,
        0 <= duration_secs,
    ensures
        r == now_ms / 1000 + duration_secs,
{
    let base = (now_ms / 1000) as u64;
    base + (duration_secs as u64)
}

/// Issue a token binding the session id, expiring at `exp`. The call
/// succeeds exactly when signing these claims with this secret does.
pub fn create_jwt(session_id: u64, exp: u64, secret: &String) -> (r: Result<String, JsonError>)
    ensures
        r is Ok <==> jwt_signing_ok(session_id, exp, secret@),
        r is Ok ==> r->Ok_0@ == jwt_of(session_id, exp, secret@),
        r is Err ==> r->Err_0@ == JsonErrorModel::Internal("Error creating token"@),
{
    match encode_token(session_id, exp, secret.as_str()) {
        Ok(token) => Ok(token),
        Err(_) => Err(JsonError::Internal(String::from_str("Error creating token"))),
    }
}

/// Validate a token: verify its signature and expiry and return its
/// claims, or the reason validation failed. A token issued over given
/// claims with this secret yields those claims back whenever validation
/// succeeds.
pub fn decode_jwt(token: &String, secret: &String) -> (r: Result<Claims, TokenFault>)
    ensures
        forall|sid: u64, e: u64|
            r is Ok && token@ == #[trigger] jwt_of(sid, e, secret@) ==> r->Ok_0 == (Claims {
                session_id: sid,
                exp: e,
            }),
{
    match decode_token(token.as_str(), secret.as_str()) {
        Ok((session_id, exp)) => Ok(Claims { session_id, exp }),
        Err(f) => Err(f),
    }
}

pub open spec fn spec_is_ws(c: char) -> bool {
    c == ' ' || c == '\t' || c == '\r' || c == '\n'
}

/// Repeated leading occurrences of `Bearer` removed.
pub open spec fn spec_strip_bearer(s: Seq<char>) -> Seq<char>
    decreases s.len(),
{
    if s.len() >= 6 && s.subrange(0, 6) == "Bearer"@ {
        spec_strip_bearer(s.subrange(6, s.len() as int))
    } else {
        s
    }
}

/// Leading whitespace removed.
pub open spec fn spec_trim_front(s: Seq<char>) -> Seq<char>
    decreases s.len(),
{
    if s.len() > 0 && spec_is_ws(s[0]) {
        spec_trim_front(s.subrange(1, s.len() as int))
    } else {
        s
    }
}

/// Trailing whitespace removed.
pub open spec fn spec_trim_back(s: Seq<char>) -> Seq<char>
    decreases s.len(),
{
    if s.len() > 0 && spec_is_ws(s[s.len() - 1]) {
        spec_trim_back(s.subrange(0, s.len() - 1))
    } else {
        s
    }
}

/// The token part of an authorization header value: every leading
/// `Bearer` removed, then surrounding whitespace.
pub open spec fn spec_extract_bearer(s: Seq<char>) -> Seq<char> {
    spec_trim_back(spec_trim_front(spec_strip_bearer(s)))
}

/// Whether the six characters of `Bearer` stand at `at` in `h`.
fn has_bearer_at(h: &str, at: usize) -> (r: bool)
    requires
        at + 6 <= h@.len(),
        h@.len() <= usize::MAX,
    ensures
        r == (h@.subrange(at as int, at as int + 6) == "Bearer"@),
{
    proof {
        reveal_strlit("Bearer");
    }
    let r = h.get_char(at) == 'B' && h.get_char(at + 1) == 'e' && h.get_char(at + 2) == 'a'
        && h.get_char(at + 3) == 'r' && h.get_char(at + 4) == 'e' && h.get_char(at + 5) == 'r';
    proof {
        let sub = h@.subrange(at as int, at as int + 6);
        assert(sub[0] == h@[at as int]);
        assert(sub[1] == h@[at as int + 1]);
        assert(sub[2] == h@[at as int + 2]);
        assert(sub[3] == h@[at as int + 3]);
        assert(sub[4] == h@[at as int + 4]);
        assert(sub[5] == h@[at as int + 5]);
        if r {
            assert(sub =~= "Bearer"@);
        } else if sub == "Bearer"@ {
            assert(sub[0] == 'B' && sub[1] == 'e' && sub[2] == 'a' && sub[3] == 'r' && sub[4] == 'e'
                && sub[5] == 'r');
            assert(false);
        }
    }
    r
}

fn is_ws_char(c: char) -> (r: bool)
    ensures
        r == spec_is_ws(c),
{
    c == ' ' || c == '\t' || c == '\r' || c == '\n'
}

/// Extract the token from an authorization header value: strip every
/// leading `Bearer` and surrounding whitespace.
#[verifier::loop_isolation(false)]
pub fn extract_bearer(h: &str) -> (r: String)
    ensures
        r@ == spec_extract_bearer(h@),
{
    let len = h.unicode_len();
    let ghost n = h@.len() as int;
    let mut start: usize = 0;
    proof {
        assert(h@.subrange(0, n) =~= h@);
    }
    while len >= 6 && start <= len - 6 && has_bearer_at(h, start)
        invariant
            start <= len,
            spec_strip_bearer(h@) == spec_strip_bearer(h@.subrange(start as int, n)),
        decreases len - start,
    {
        proof {
            let s = h@.subrange(start as int, n);
            assert(s.subrange(0, 6) =~= h@.subrange(start as int, start as int + 6));
            assert(s.subrange(6, s.len() as int) =~= h@.subrange(start as int + 6, n));
        }
        start = start + 6;
    }
    proof {
        let s = h@.subrange(start as int, n);
        if s.len() >= 6 {
            assert(s.subrange(0, 6) =~= h@.subrange(start as int, start as int + 6));
        }
        assert(spec_strip_bearer(s) == s);
    }
    let mut i = start;
    while i < len && is_ws_char(h.get_char(i))
        invariant
            start <= i <= len,
            spec_trim_front(h@.subrange(start as int, n)) == spec_trim_front(
                h@.subrange(i as int, n),
            ),
        decreases len - i,
    {
        proof {
            let s = h@.subrange(i as int, n);
            assert(s.subrange(1, s.len() as int) =~= h@.subrange(i as int + 1, n));
        }
        i = i + 1;
    }
    proof {
        assert(spec_trim_front(h@.subrange(i as int, n)) == h@.subrange(i as int, n));
    }
    let mut j = len;
    while j > i && is_ws_char(h.get_char(j - 1))
        invariant
            i <= j <= len,
            spec_trim_back(h@.subrange(i as int, n)) == spec_trim_back(h@.subrange(i as int, j as int)),
        decreases j,
    {
        proof {
            let s = h@.subrange(i as int, j as int);
            assert(s.subrange(0, s.len() - 1) =~= h@.subrange(i as int, j as int - 1));
        }
        j = j - 1;
    }
    proof {
        assert(spec_trim_back(h@.subrange(i as int, j as int)) == h@.subrange(i as int, j as int));
    }
    let piece = h.substring_char(i, j);
    String::from_str(piece)
}

/// Resolve the authorization header of a request into a decoded token.
/// A missing header, an expired token and a malformed token each map to
/// their own message; every token failure, whatever its kind, is
/// unauthorized.
pub fn authenticate(header: Option<&String>, secret: &String) -> (r: Result<JWT, JsonError>)
    ensures
        header is None ==> r is Err && r->Err_0@ == JsonErrorModel::Unauthorized(
            "Error validating JWT token - No Token Provided"@,
        ),
        header is Some && r is Ok ==> r->Ok_0@.token == spec_extract_bearer(header->0@),
        header is Some ==> (forall|sid: u64, e: u64|
            r is Ok && spec_extract_bearer(header->0@) == #[trigger] jwt_of(sid, e, secret@)
                ==> r->Ok_0@.claims == (Claims { session_id: sid, exp: e })),
        r is Err ==> (r->Err_0@ == JsonErrorModel::Unauthorized(
            "Error validating JWT token - No Token Provided"@,
        ) || r->Err_0@ == JsonErrorModel::Unauthorized("Error validating JWT token - Expired Token"@)
            || r->Err_0@ == JsonErrorModel::Unauthorized(
            "Error validating JWT token - Invalid Token"@,
        ) || r->Err_0@ == JsonErrorModel::Unauthorized("Error validating JWT token"@)),
        r is Err ==> r->Err_0@ is Unauthorized,
    {
    match header {
        None => Err(
            JsonError::Unauthorized(
                String::from_str("Error validating JWT token - No Token Provided"),
            ),
        ),
        Some(h) => {
            let token = extract_bearer(h.as_str());
            match decode_jwt(&token, secret) {
                Ok(claims) => Ok(JWT { claims, token }),
                Err(TokenFault::Expired) => Err(
                    JsonError::Unauthorized(
                        String::from_str("Error validating JWT token - Expired Token"),
                    ),
                ),
                Err(TokenFault::Malformed) => Err(
                    JsonError::Unauthorized(
                        String::from_str("Error validating JWT token - Invalid Token"),
                    ),
                ),
                Err(TokenFault::Other) => Err(
                    JsonError::Unauthorized(String::from_str("Error validating JWT token")),
                ),
            }
        },
    }
}

} // verus!
