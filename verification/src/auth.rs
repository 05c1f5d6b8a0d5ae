//! Bearer-token authorization on connection upgrade.
//!
//! The guard's decisions — which modes require a token, where the token is
//! taken from, what a missing token or missing secret means — are verified
//! here. The cryptographic validation of the token itself goes through
//! jsonwebtoken behind trusted items; its outcome also depends on the
//! clock, so the contracts state what holds for either outcome.

use vstd::prelude::*;

use crate::codec::str_eq_str;

verus! {

/// The claims carried by an agent token.
#[derive(Debug, Clone)]
pub struct Claims {
    pub sub: String,
    pub exp: usize,
    pub iat: usize,
}

/// A token failure: the token did not verify, or could not be built.
#[derive(Debug, Clone, Copy, PartialEq, Eq, Structural)]
pub struct AuthError;

/// The token jsonwebtoken::encode builds under HS256: the default header,
/// the three claims in the canonical (sorted) JSON order, and an HMAC
/// signature — a deterministic function of the secret and the claims.
pub uninterp spec fn jwt_text_of(secret: Seq<char>, sub: Seq<char>, exp: usize, iat: usize) -> Seq<
    char,
>;

/// Relies on jsonwebtoken::encode with HS256: the default header's family
/// matches a secret key and HMAC signing is total, so encoding succeeds,
/// and the result depends on the secret and claims alone.
#[verifier::external_body]
fn jwt_encode(secret: &String, claims: &Claims) -> (r: Result<String, AuthError>)
    ensures
        r is Ok,
        r matches Ok(t) ==> t@ == jwt_text_of(secret@, claims.sub@, claims.exp, claims.iat),
{
    let mut body = serde_json::Map::new();
    body.insert("sub".to_string(), serde_json::Value::from(claims.sub.clone()));
    body.insert("exp".to_string(), serde_json::Value::from(claims.exp as u64));
    body.insert("iat".to_string(), serde_json::Value::from(claims.iat as u64));
    jsonwebtoken::encode(
        &jsonwebtoken::Header::default(),
        &serde_json::Value::Object(body),
        &jsonwebtoken::EncodingKey::from_secret(secret.as_bytes()),
    ).map_err(|_| AuthError)
}

/// Relies on jsonwebtoken::decode with the default validation (HS256,
/// expiry enforced against the clock) and on serde_json::Value access to
/// pull out the three claims; a token without them is refused. Acceptance
/// depends on the clock and stays unstated, but an accepted token that is
/// the encoder's output for some claims carries exactly those claims back:
/// decode deserializes the payload segment the encoder wrote.
#[verifier::external_body]
fn jwt_decode(secret: &String, token: &String) -> (r: Result<Claims, AuthError>)
    ensures
        r matches Ok(c) ==> forall|sub: Seq<char>, exp: usize, iat: usize|
            token@ == #[trigger] jwt_text_of(secret@, sub, exp, iat) ==> c.sub@ == sub && c.exp
                == exp && c.iat == iat,
{
    let data = jsonwebtoken::decode::<serde_json::Value>(
        token.as_str(),
        &jsonwebtoken::DecodingKey::from_secret(secret.as_bytes()),
        &jsonwebtoken::Validation::default(),
    ).map_err(|_| AuthError)?;
    let sub = data.claims.get("sub").and_then(|v| v.as_str()).ok_or(AuthError)?.to_string();
    let exp = data.claims.get("exp").and_then(|v| v.as_u64()).ok_or(AuthError)? as usize;
    let iat = data.claims.get("iat").and_then(|v| v.as_u64()).ok_or(AuthError)? as usize;
    Ok(Claims { sub, exp, iat })
}

/// Relies on std::time::SystemTime::now: seconds since the epoch; nothing
/// is promised of the value.
#[verifier::external_body]
fn unix_now_secs() -> usize {
    std::time::SystemTime::now().duration_since(std::time::UNIX_EPOCH).map(
        |d| d.as_secs() as usize,
    ).unwrap_or(0)
}

/// Validates and generates agent tokens under a shared secret.
pub struct TokenValidator {
    pub secret: String,
}

/// The expiry a token is granted: issued-at plus the hours, saturating at
/// the top of the range instead of wrapping.
pub open spec fn expiry_of(now: usize, expiration_hours: u64) -> usize {
    let hours: usize = if expiration_hours > (usize::MAX as u64) {
        usize::MAX
    } else {
        expiration_hours as usize
    };
    let span: usize = if hours > usize::MAX / 3600 {
        usize::MAX
    } else {
        (hours * 3600) as usize
    };
    if now > usize::MAX - span {
        usize::MAX
    } else {
        (now + span) as usize
    }
}

/// The claims a token carries, over an explicit clock reading.
pub fn build_claims(agent_id: &str, expiration_hours: u64, now: usize) -> (c: Claims)
    ensures
        c.sub@ == agent_id@,
        c.iat == now,
        c.exp == expiry_of(now, expiration_hours),
{
    let hours: usize = if expiration_hours > (usize::MAX as u64) {
        usize::MAX
    } else {
        expiration_hours as usize
    };
    let span: usize = if hours > usize::MAX / 3600 {
        usize::MAX
    } else {
        hours * 3600
    };
    let exp: usize = if now > usize::MAX - span {
        usize::MAX
    } else {
        now + span
    };
    let sub = String::new();
    let sub = sub.concat(agent_id);
    proof {
        assert(Seq::<char>::empty() + agent_id@ =~= agent_id@);
    }
    Claims { sub, exp, iat: now }
}

impl TokenValidator {
    pub fn new(secret: String) -> (r: TokenValidator)
        ensures
            r.secret == secret,
    {
        TokenValidator { secret }
    }

    /// A signed token for this agent: subject is the agent id, issued-at is
    /// the clock now, and expiry follows after the given hours,
    /// saturating rather than wrapping.
    pub fn generate_token(&self, agent_id: &str, expiration_hours: u64) -> (r: Result<
        String,
        AuthError,
    >)
        ensures
            r is Ok,
            r matches Ok(t) ==> exists|now: usize|
                t@ == #[trigger] jwt_text_of(
                    self.secret@,
                    agent_id@,
                    expiry_of(now, expiration_hours),
                    now,
                ),
    {
        let now = unix_now_secs();
        let claims = build_claims(agent_id, expiration_hours, now);
        let r = jwt_encode(&self.secret, &claims);
        proof {
            if r is Ok {
                assert(r->Ok_0@ == jwt_text_of(
                    self.secret@,
                    agent_id@,
                    expiry_of(now, expiration_hours),
                    now,
                ));
            }
        }
        r
    }

    /// Checks a token against the shared secret and the clock. Whether the
    /// token is accepted depends on the clock, so `Ok` is never owed; but
    /// an accepted token that `generate_token` produced carries back
    /// exactly the claims it was built over.
    pub fn validate_token(&self, token: &String) -> (r: Result<Claims, AuthError>)
        ensures
            r matches Ok(c) ==> forall|sub: Seq<char>, exp: usize, iat: usize|
                token@ == #[trigger] jwt_text_of(self.secret@, sub, exp, iat) ==> c.sub@ == sub
                    && c.exp == exp && c.iat == iat,
    {
        jwt_decode(&self.secret, token)
    }
}

// ---------------------------------------------------------------------------
// Token extraction and the upgrade decision
// ---------------------------------------------------------------------------

/// Nothing but whitespace.
pub open spec fn is_blank(t: Seq<char>) -> bool {
    forall|k: int| 0 <= k < t.len() ==> (#[trigger] t[k] as u32) <= 0x20
}

/// Where the upgrade's token comes from: the bearer header when present
/// and not blank, else the query parameter when present and not blank.
pub open spec fn extracted_token(
    auth_header: Option<Seq<char>>,
    query_token: Option<Seq<char>>,
) -> Option<Seq<char>> {
    let from_header: Option<Seq<char>> = match auth_header {
        Some(h) => {
            if h.len() >= 7 && h.subrange(0, 7) == "Bearer "@ && !is_blank(
                h.subrange(7, h.len() as int),
            ) {
                Some(h.subrange(7, h.len() as int))
            } else {
                None
            }
        },
        None => None,
    };
    match from_header {
        Some(t) => Some(t),
        None => match query_token {
            Some(q) => {
                if !is_blank(q) {
                    Some(q)
                } else {
                    None
                }
            },
            None => None,
        },
    }
}

fn is_blank_exec(t: &str) -> (r: bool)
    ensures
        r == is_blank(t@),
{
    let n = t.unicode_len();
    let mut k: usize = 0;
    while k < n
        invariant
            n == t@.len(),
            k <= n,
            forall|m: int| 0 <= m < k ==> (#[trigger] t@[m] as u32) <= 0x20,
        decreases n - k,
    {
        let c = t.get_char(k);
        if (c as u32) > 0x20 {
            return false;
        }
        k = k + 1;
    }
    true
}

/// Extracts the bearer token per the priority rule of the guard.
pub fn extract_token(auth_header: &Option<String>, query_token: &Option<String>) -> (r: Option<
    String,
>)
    ensures
        r.deep_view() == extracted_token(auth_header.deep_view(), query_token.deep_view()),
{
    proof {
        reveal_strlit("Bearer ");
    }
    match auth_header {
        Some(h) => {
            let n = h.as_str().unicode_len();
            if n >= 7 {
                let prefix = h.as_str().substring_char(0, 7);
                if str_eq_str(prefix, "Bearer ") {
                    let rest = h.as_str().substring_char(7, n);
                    if !is_blank_exec(rest) {
                        let out = String::new();
                        let out = out.concat(rest);
                        proof {
                            assert(Seq::<char>::empty() + h@.subrange(7, h@.len() as int)
                                =~= h@.subrange(7, h@.len() as int));
                        }
                        return Some(out);
                    }
                }
            }
            extract_from_query(query_token)
        },
        None => extract_from_query(query_token),
    }
}

fn extract_from_query(query_token: &Option<String>) -> (r: Option<String>)
    ensures
        r.deep_view() == (match query_token.deep_view() {
            Some(q) => {
                if !is_blank(q) {
                    Some(q)
                } else {
                    None::<Seq<char>>
                }
            },
            None => None::<Seq<char>>,
        }),
{
    match query_token {
        Some(q) => {
            if !is_blank_exec(q.as_str()) {
                let out = String::new();
                let out = out.concat(q.as_str());
                proof {
                    assert(Seq::<char>::empty() + q@ =~= q@);
                }
                Some(out)
            } else {
                None
            }
        },
        None => None,
    }
}

/// The guard's verdict on one upgrade request.
#[derive(Debug, Clone, Copy, PartialEq, Eq, Structural)]
pub enum AuthDecision {
    /// Allow the upgrade.
    Allow,
    /// Refuse with 401.
    Unauthorized,
    /// Refuse with 500: token mode without a configured secret.
    ServerError,
}

/// Whether a mode string activates the token guard.
pub open spec fn mode_requires_token(mode: Seq<char>) -> bool {
    mode == "token"@ || mode == "hybrid"@
}

/// The upgrade decision. Modes outside token and hybrid pass; token mode
/// without a secret is a server error; a missing token is refused; a
/// present token is refused exactly when its validation fails, which
/// depends on the secret, the token and the clock. The token handed to
/// validation is `extracted_token(auth_header, query_token)` — the body
/// below feeds `extract_token`'s result straight to the validator — but a
/// call that happens inside the function cannot be named in its `ensures`,
/// so only the decision's shape is stated.
pub fn authorize_upgrade(
    mode: &String,
    token_secret: &Option<String>,
    auth_header: &Option<String>,
    query_token: &Option<String>,
) -> (r: AuthDecision)
    ensures
        !mode_requires_token(mode@) ==> r == AuthDecision::Allow,
        mode_requires_token(mode@) && token_secret is None ==> r == AuthDecision::ServerError,
        (mode_requires_token(mode@) && token_secret is Some && extracted_token(
            auth_header.deep_view(),
            query_token.deep_view(),
        ) is None) ==> r == AuthDecision::Unauthorized,
        (mode_requires_token(mode@) && token_secret is Some && extracted_token(
            auth_header.deep_view(),
            query_token.deep_view(),
        ) is Some) ==> (r == AuthDecision::Allow || r == AuthDecision::Unauthorized),
{
    let requires_token = str_eq_str(mode.as_str(), "token") || str_eq_str(mode.as_str(), "hybrid");
    if !requires_token {
        return AuthDecision::Allow;
    }
    let secret = match token_secret {
        Some(s) => s,
        None => {
            return AuthDecision::ServerError;
        },
    };
    let token = match extract_token(auth_header, query_token) {
        Some(t) => t,
        None => {
            return AuthDecision::Unauthorized;
        },
    };
    let validator = TokenValidator::new(crate::batcher::clone_string(secret));
    match validator.validate_token(&token) {
        Ok(_) => AuthDecision::Allow,
        Err(_) => AuthDecision::Unauthorized,
    }
}

} // verus!
