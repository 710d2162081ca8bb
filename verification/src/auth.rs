//! The OAuth2 token lifecycle: expiry-aware refresh under a five-minute skew
//! window, and the single-flight discipline that coalesces concurrent
//! refreshes into one grant.

use vstd::prelude::*;
use crate::models::TokenResponse;

verus! {

/// Five minutes, in seconds: the skew window within which a bearer token is
/// treated as already expired, so that it cannot lapse mid-request.
pub const TOKEN_SKEW_SECS: u64 = 300;

/// The bearer token and the moment its lifetime ends, in seconds since the
/// epoch.
#[derive(Debug)]
pub struct TokenState {
    pub access_token: String,
    pub expires_at: u64,
}

/// True iff a token whose lifetime ends at `expires_at` must be refreshed at
/// time `now`: it is expired, or expires within the skew window.
pub open spec fn spec_token_expired(expires_at: u64, now: u64) -> bool {
    expires_at < now || expires_at - now < TOKEN_SKEW_SECS
}

impl TokenState {
    /// The state before any grant: no token, expired since the epoch.
    pub fn new() -> (r: TokenState)
        ensures
            r.access_token@ == Seq::<char>::empty(),
            r.expires_at == 0,
    {
        TokenState { access_token: String::new(), expires_at: 0 }
    }

    /// The skew-window expiry test against a given clock reading.
    pub fn is_expired_at(&self, now: u64) -> (r: bool)
        ensures
            r == spec_token_expired(self.expires_at, now),
    {
        if self.expires_at < now {
            true
        } else {
            self.expires_at - now < TOKEN_SKEW_SECS
        }
    }

    /// The skew-window expiry test against the current clock. The result
    /// depends on the clock; `is_expired_at` carries the exact contract.
    pub fn is_token_expired(&self) -> bool {
        self.is_expired_at(now_unix_seconds())
    }

    /// Stores a fresh grant: the token as granted, expiring `expires_in`
    /// seconds from `now`.
    pub fn apply_grant(&mut self, resp: &TokenResponse, now: u64)
        requires
            now + resp.expires_in <= u64::MAX,
        ensures
            final(self).access_token == resp.access_token,
            final(self).expires_at == now + resp.expires_in,
    {
        self.access_token = resp.access_token.clone();
        self.expires_at = now + resp.expires_in;
    }
}

/// A token-grant rejection; carries the endpoint's response body verbatim.
#[derive(Debug)]
pub struct AuthError {
    pub body: String,
}

impl AuthError {
    /// The diagnostic carried by this error.
    pub fn message(&self) -> (r: String)
        ensures
            r@ == "Authentication failed: "@ + self.body@,
    {
        let mut m = String::new();
        m.append("Authentication failed: ");
        m.append(self.body.as_str());
        proof {
            assert(m@ =~= "Authentication failed: "@ + self.body@);
        }
        m
    }
}

/// What the token endpoint's status decides: a grant is accepted exactly on a
/// success status; on any other the response body is carried back verbatim
/// and nothing is cached.
pub fn token_grant_decision(status: u16, body: &str) -> (r: Result<(), AuthError>)
    ensures
        r is Ok <==> (200 <= status < 300),
        r matches Err(e) ==> e.body@ == body@,
{
    if 200 <= status && status < 300 {
        Ok(())
    } else {
        Err(AuthError { body: String::from_str(body) })
    }
}

/// The shared token's phase: no token yet, a token with its expiry, or a
/// refresh in flight.
#[derive(Debug)]
pub enum TokenPhase {
    Missing,
    Valid(TokenState),
    Refreshing,
}

/// What a caller of the token must do next: use this token, perform the one
/// in-flight refresh, or wait for the refresh another caller performs.
#[derive(Debug)]
pub enum TokenAction {
    UseToken(String),
    StartRefresh,
    AwaitRefresh,
}

/// The transition one `get_valid_token` caller takes at time `now`: a missing
/// or expired token starts the one refresh, a fresh token is used, and a
/// refresh already in flight is awaited.
pub open spec fn spec_token_request(phase: TokenPhase, now: u64) -> (TokenPhase, TokenAction) {
    match phase {
        TokenPhase::Missing => (TokenPhase::Refreshing, TokenAction::StartRefresh),
        TokenPhase::Valid(ts) => if spec_token_expired(ts.expires_at, now) {
            (TokenPhase::Refreshing, TokenAction::StartRefresh)
        } else {
            (TokenPhase::Valid(ts), TokenAction::UseToken(ts.access_token))
        },
        TokenPhase::Refreshing => (TokenPhase::Refreshing, TokenAction::AwaitRefresh),
    }
}

/// Takes one caller's transition on the shared phase. The caller serializes
/// transitions under the mutex guarding the shared state.
pub fn token_request(phase: TokenPhase, now: u64) -> (r: (TokenPhase, TokenAction))
    ensures
        r == spec_token_request(phase, now),
{
    match phase {
        TokenPhase::Missing => (TokenPhase::Refreshing, TokenAction::StartRefresh),
        TokenPhase::Valid(ts) => {
            if ts.is_expired_at(now) {
                (TokenPhase::Refreshing, TokenAction::StartRefresh)
            } else {
                let token = ts.access_token.clone();
                (TokenPhase::Valid(ts), TokenAction::UseToken(token))
            }
        },
        TokenPhase::Refreshing => (TokenPhase::Refreshing, TokenAction::AwaitRefresh),
    }
}

/// Settles the one in-flight refresh: an accepted grant yields a valid token
/// expiring `expires_in` from `now`; a rejected one leaves no token cached.
pub fn token_refresh_settled(outcome: Result<TokenResponse, AuthError>, now: u64) -> (r: TokenPhase)
    requires
        outcome matches Ok(resp) ==> now + resp.expires_in <= u64::MAX,
    ensures
        match outcome {
            Ok(resp) => r matches TokenPhase::Valid(ts) && ts.access_token == resp.access_token
                && ts.expires_at == now + resp.expires_in,
            Err(_) => r is Missing,
        },
{
    match outcome {
        Ok(resp) => {
            let mut ts = TokenState::new();
            ts.apply_grant(&resp, now);
            TokenPhase::Valid(ts)
        },
        Err(_) => TokenPhase::Missing,
    }
}

/// How many of a run of caller transitions, with no refresh settling in
/// between, start a refresh.
pub open spec fn spec_refresh_starts(phase: TokenPhase, nows: Seq<u64>) -> nat
    decreases nows.len(),
{
    if nows.len() == 0 {
        0
    } else {
        let step = spec_token_request(phase, nows.first());
        ((if step.1 is StartRefresh {
            1nat
        } else {
            0nat
        }) + spec_refresh_starts(step.0, nows.drop_first())) as nat
    }
}

/// While a refresh is in flight every caller waits: no run of transitions
/// from the refreshing phase starts another refresh.
proof fn lemma_refreshing_absorbs(nows: Seq<u64>)
    ensures
        spec_refresh_starts(TokenPhase::Refreshing, nows) == 0,
    decreases nows.len(),
{
    if nows.len() > 0 {
        lemma_refreshing_absorbs(nows.drop_first());
    }
}

/// Token single-flight: however many callers observe the shared phase in
/// turn, and at whatever times, at most one starts a refresh before that
/// refresh settles - concurrent expired callers coalesce into one grant.
pub proof fn lemma_token_single_flight(phase: TokenPhase, nows: Seq<u64>)
    ensures
        spec_refresh_starts(phase, nows) <= 1,
    decreases nows.len(),
{
    if nows.len() > 0 {
        let step = spec_token_request(phase, nows.first());
        if step.1 is StartRefresh {
            lemma_refreshing_absorbs(nows.drop_first());
        } else {
            lemma_token_single_flight(step.0, nows.drop_first());
        }
    }
}

/// Relies on std::time::SystemTime::now and duration_since: the seconds since
/// the Unix epoch, zero should the clock sit before it. The result depends on
/// the clock, so nothing is promised of it.
#[verifier::external_body]
pub fn now_unix_seconds() -> u64 {
    match std::time::SystemTime::now().duration_since(std::time::UNIX_EPOCH) {
        Ok(d) => d.as_secs(),
        Err(_) => 0,
    }
}

} // verus!
