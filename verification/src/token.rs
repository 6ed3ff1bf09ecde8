use vstd::prelude::*;
use vstd::string::StringExecFns;

use crate::executor::spec_is_success;
use crate::json::{json_of_bytes, obj_get_v, parse_json_bytes, JsonV};

verus! {

/// The audience a credential is minted for.
#[derive(Debug, Clone, Copy, PartialEq, Eq, Structural)]
pub enum TokenScope {
    GigachatApiPers,
    GigachatApiB2B,
    GigachatApiCorp,
}

impl Default for TokenScope {
    fn default() -> (r: Self)
        ensures
            r == TokenScope::GigachatApiPers,
    {
        TokenScope::GigachatApiPers
    }
}

/// The wire form of a scope, as the exchange endpoint expects it.
pub open spec fn scope_text(s: TokenScope) -> Seq<char> {
    match s {
        TokenScope::GigachatApiPers => "GIGACHAT_API_PERS"@,
        TokenScope::GigachatApiB2B => "GIGACHAT_API_B2_B"@,
        TokenScope::GigachatApiCorp => "GIGACHAT_API_CORP"@,
    }
}

impl TokenScope {
    /// The wire form of this scope.
    pub fn as_str(&self) -> (r: &'static str)
        ensures
            r@ == scope_text(*self),
    {
        match self {
            TokenScope::GigachatApiPers => "GIGACHAT_API_PERS",
            TokenScope::GigachatApiB2B => "GIGACHAT_API_B2_B",
            TokenScope::GigachatApiCorp => "GIGACHAT_API_CORP",
        }
    }

    /// The scope a wire form names, if any.
    pub fn from_str(s: &str) -> (r: Option<TokenScope>)
        ensures
            match r {
                Some(sc) => scope_text(sc) == s@,
                None => forall|sc: TokenScope| scope_text(sc) != s@,
            },
    {
        let t: String = s.to_owned();
        if t == "GIGACHAT_API_PERS".to_owned() {
            Some(TokenScope::GigachatApiPers)
        } else if t == "GIGACHAT_API_B2_B".to_owned() {
            Some(TokenScope::GigachatApiB2B)
        } else if t == "GIGACHAT_API_CORP".to_owned() {
            Some(TokenScope::GigachatApiCorp)
        } else {
            assert forall|sc: TokenScope| scope_text(sc) != s@ by {}
            None
        }
    }
}

/// The body of the credential-exchange form: a single `scope` field.
pub fn auth_form_body(scope: TokenScope) -> (r: String)
    ensures
        r@ == "scope="@ + scope_text(scope),
{
    let mut body: String = "scope=".to_owned();
    body.append(scope.as_str());
    body
}

/// What `uuid::Uuid::new_v4().to_string()` returns: a fresh random identifier.
/// Nothing can be promised of its content; its hyphenated form is always 36
/// characters long.
#[verifier::external_body]
pub fn new_request_id() -> (r: String)
    ensures
        r@.len() == 36,
{
    uuid::Uuid::new_v4().to_string()
}

/// Everything the transport needs to send one credential-exchange request:
/// the fresh request identifier for the `RqUID` header and the form body.
pub struct AuthRequest {
    pub rq_uid: String,
    pub form_body: String,
}

/// Assembles one credential-exchange request for the given scope.
pub fn build_auth_request(scope: TokenScope) -> (r: AuthRequest)
    ensures
        r.rq_uid@.len() == 36,
        r.form_body@ == "scope="@ + scope_text(scope),
{
    AuthRequest { rq_uid: new_request_id(), form_body: auth_form_body(scope) }
}

/// A bearer credential: the ready-to-send token (scheme prefix already
/// applied) and the epoch-millisecond instant it expires at.
#[derive(Debug, PartialEq, Clone)]
pub struct Credential {
    pub access_token: String,
    pub expires_at_ms: i64,
}

/// The error taxonomy of the credential exchange.
#[derive(Debug, PartialEq)]
pub enum AuthError {
    /// The exchange endpoint answered with a non-success status.
    AuthFailed { status_code: u16, body: Vec<u8> },
    /// The exchange transport failed before any status arrived.
    AuthTransport { message: String },
    /// The success body could not be read as a credential.
    AuthResponseMalformed { raw: Vec<u8> },
}

/// The raw fields of a well-shaped exchange response body:
/// `{access_token, expires_at}` with the expiry in epoch milliseconds.
pub open spec fn dec_credential_raw(j: JsonV) -> Option<(Seq<char>, i64)> {
    match j {
        JsonV::Obj(fields) => match (
            obj_get_v(fields, "access_token"@),
            obj_get_v(fields, "expires_at"@),
        ) {
            (Some(JsonV::Str(tok)), Some(JsonV::Int(exp))) => Some((tok, exp)),
            _ => None,
        },
        _ => None,
    }
}

/// Applies the transport's scheme prefix to a freshly minted token, once.
pub fn normalize_bearer(raw: &str) -> (r: String)
    ensures
        r@ == "Bearer "@ + raw@,
{
    let mut t: String = "Bearer ".to_owned();
    t.append(raw);
    t
}

/// Reads a success exchange body into a credential, normalizing the token
/// into its ready-to-send header form; a body of any other shape fails with
/// `AuthResponseMalformed` carrying the bytes.
pub fn parse_credential(bytes: &[u8]) -> (r: Result<Credential, AuthError>)
    ensures
        match r {
            Ok(c) => {
                &&& json_of_bytes(bytes@) is Some
                &&& dec_credential_raw(json_of_bytes(bytes@)->Some_0) is Some
                &&& c.access_token@ == "Bearer "@ + dec_credential_raw(
                    json_of_bytes(bytes@)->Some_0,
                )->Some_0.0
                &&& c.expires_at_ms == dec_credential_raw(json_of_bytes(bytes@)->Some_0)->Some_0.1
            },
            Err(e) => {
                &&& (json_of_bytes(bytes@) is None || dec_credential_raw(
                    json_of_bytes(bytes@)->Some_0,
                ) is None)
                &&& e matches AuthError::AuthResponseMalformed { raw } && raw@ == bytes@
            },
        },
{
    let parsed = parse_json_bytes(bytes);
    match parsed {
        Some(j) => {
            match j.as_obj() {
                Some(fields) => {
                    let tok = match crate::json::obj_get(fields, "access_token") {
                        Some(t) => t.as_str(),
                        None => None,
                    };
                    let exp = match crate::json::obj_get(fields, "expires_at") {
                        Some(x) => x.as_int(),
                        None => None,
                    };
                    match (tok, exp) {
                        (Some(t), Some(x)) => Ok(
                            Credential { access_token: normalize_bearer(t.as_str()), expires_at_ms: x },
                        ),
                        _ => Err(AuthError::AuthResponseMalformed { raw: crate::json::copy_bytes(bytes) }),
                    }
                },
                None => Err(AuthError::AuthResponseMalformed { raw: crate::json::copy_bytes(bytes) }),
            }
        },
        None => Err(AuthError::AuthResponseMalformed { raw: crate::json::copy_bytes(bytes) }),
    }
}

/// The whole credential exchange, seen from the library: the transport hands
/// back the endpoint's status and body, and this classifies them. A
/// non-success status fails with `AuthFailed` carrying both; a success body
/// is read into a normalized credential or fails with `AuthResponseMalformed`.
pub fn auth_exchange_outcome(status: u16, body: Vec<u8>) -> (r: Result<Credential, AuthError>)
    ensures
        !spec_is_success(status) ==> (r matches Err(AuthError::AuthFailed {
            status_code,
            body: b,
        }) && status_code == status && b@ == body@),
        spec_is_success(status) ==> match r {
            Ok(c) => {
                &&& json_of_bytes(body@) is Some
                &&& dec_credential_raw(json_of_bytes(body@)->Some_0) is Some
                &&& c.access_token@ == "Bearer "@ + dec_credential_raw(
                    json_of_bytes(body@)->Some_0,
                )->Some_0.0
                &&& c.expires_at_ms == dec_credential_raw(json_of_bytes(body@)->Some_0)->Some_0.1
            },
            Err(e) => {
                &&& (json_of_bytes(body@) is None || dec_credential_raw(
                    json_of_bytes(body@)->Some_0,
                ) is None)
                &&& e matches AuthError::AuthResponseMalformed { raw } && raw@ == body@
            },
        },
{
    if !crate::executor::is_success_status(status) {
        Err(AuthError::AuthFailed { status_code: status, body })
    } else {
        parse_credential(body.as_slice())
    }
}

/// True when the cached credential is still usable at `now_ms`.
pub open spec fn valid_at(cred: Credential, now_ms: i64) -> bool {
    now_ms < cred.expires_at_ms
}

/// The shared token cache: exactly one live credential, replaced wholesale on
/// a successful refresh and never touched by a failed one. Its caller holds it
/// behind one mutual-exclusion lock across the whole check-then-refresh
/// critical section; the functions here are the decisions taken inside that
/// section.
pub struct TokenCache {
    pub cred: Credential,
}

/// What one caller inside the critical section does next.
#[derive(Debug, PartialEq)]
pub enum TokenDecision {
    /// The cached token is still valid: hand it out, no network call.
    Cached(String),
    /// The credential has expired: this caller performs the one exchange.
    NeedsRefresh,
}

impl TokenCache {
    /// A cache primed with one credential.
    pub fn new(cred: Credential) -> (r: TokenCache)
        ensures
            r.cred == cred,
    {
        TokenCache { cred }
    }

    /// The check at the head of the critical section: serve from the cache
    /// exactly when the credential is still valid at `now_ms`.
    pub fn decide(&self, now_ms: i64) -> (d: TokenDecision)
        ensures
            valid_at(self.cred, now_ms) <==> (d matches TokenDecision::Cached(t) && t
                == self.cred.access_token),
            !valid_at(self.cred, now_ms) <==> d == TokenDecision::NeedsRefresh,
    {
        if now_ms < self.cred.expires_at_ms {
            TokenDecision::Cached(self.cred.access_token.clone())
        } else {
            TokenDecision::NeedsRefresh
        }
    }

    /// Installs the outcome of the one exchange this caller performed: a new
    /// credential replaces the cached one wholesale; a failure leaves the
    /// previously cached credential untouched and hands the error on.
    pub fn apply_refresh(&mut self, outcome: Result<Credential, AuthError>) -> (r: Result<
        String,
        AuthError,
    >)
        ensures
            match outcome {
                Ok(c) => final(self).cred == c && (r matches Ok(t) && t == c.access_token),
                Err(e) => *final(self) == *old(self) && r == Err::<String, AuthError>(e),
            },
    {
        match outcome {
            Ok(c) => {
                let token = c.access_token.clone();
                self.cred = c;
                Ok(token)
            },
            Err(e) => Err(e),
        }
    }
}

/// How many exchange calls a burst of `n` callers performs, entering the
/// critical section one after the other at instant `now_ms`, when the one
/// caller that finds the credential expired installs `fresh`.
pub open spec fn burst_refresh_count(cache: Credential, now_ms: i64, n: nat, fresh: Credential) -> nat
    decreases n,
{
    if n == 0 {
        0
    } else if valid_at(cache, now_ms) {
        burst_refresh_count(cache, now_ms, (n - 1) as nat, fresh)
    } else {
        1 + burst_refresh_count(fresh, now_ms, (n - 1) as nat, fresh)
    }
}

/// The tokens the callers of such a burst observe, in order.
pub open spec fn burst_tokens(cache: Credential, now_ms: i64, n: nat, fresh: Credential) -> Seq<
    Seq<char>,
>
    decreases n,
{
    if n == 0 {
        Seq::empty()
    } else if valid_at(cache, now_ms) {
        seq![cache.access_token@] + burst_tokens(cache, now_ms, (n - 1) as nat, fresh)
    } else {
        seq![fresh.access_token@] + burst_tokens(fresh, now_ms, (n - 1) as nat, fresh)
    }
}

/// Token refresh is coalesced. When `n` callers ask for the token the instant
/// the cached credential has expired, they enter the lock-guarded critical
/// section one after the other: the first performs the one exchange and
/// installs `fresh`, and every caller — the first included — observes
/// `fresh`'s token. Exactly one exchange call occurs in the whole burst.
pub proof fn lemma_refresh_coalesced(stale: Credential, now_ms: i64, n: nat, fresh: Credential)
    requires
        n >= 1,
        !valid_at(stale, now_ms),
        valid_at(fresh, now_ms),
    ensures
        burst_refresh_count(stale, now_ms, n, fresh) == 1,
        burst_tokens(stale, now_ms, n, fresh).len() == n,
        forall|i: int|
            0 <= i < n ==> burst_tokens(stale, now_ms, n, fresh)[i] == fresh.access_token@,
{
    lemma_valid_burst_no_refresh(fresh, now_ms, (n - 1) as nat, fresh);
}

/// A burst that starts with a valid credential performs no exchange at all
/// and serves that credential's token to every caller.
pub proof fn lemma_valid_burst_no_refresh(cache: Credential, now_ms: i64, n: nat, fresh: Credential)
    requires
        valid_at(cache, now_ms),
    ensures
        burst_refresh_count(cache, now_ms, n, fresh) == 0,
        burst_tokens(cache, now_ms, n, fresh).len() == n,
        forall|i: int|
            0 <= i < n ==> burst_tokens(cache, now_ms, n, fresh)[i] == cache.access_token@,
    decreases n,
{
    if n > 0 {
        lemma_valid_burst_no_refresh(cache, now_ms, (n - 1) as nat, fresh);
    }
}

} // verus!
