//! The access token life cycle of the Spotify client: when to authorize,
//! when to refresh, and what a token reply changes.
use vstd::prelude::*;

use crate::clock::{now_micros, MAX_TIMESTAMP_MICROS, MICROS_PER_SECOND};
use crate::spotify::api::SpotifyGetAccessTokenResponse;
use crate::spotify::error::SpotifyError;

verus! {

/// The access token, its expiry and the refresh token, all obtained
/// through the authorization flow. Times are microseconds since the Unix
/// epoch.
#[derive(Debug)]
pub struct Token {
    /// The access token used to authenticate requests to the Spotify API.
    pub access_token: Option<String>,
    /// When the access token expires.
    pub expires_at: i64,
    /// The refresh token used to obtain a new access token when the current
    /// one expires.
    pub refresh_token: Option<String>,
}

/// A copy of an optional string.
fn clone_opt_string(o: &Option<String>) -> (r: Option<String>)
    ensures
        r == *o,
{
    match o {
        Some(s) => Some(s.clone()),
        None => None,
    }
}

/// The point in time `expires_in_seconds` after `now`.
pub open spec fn expiry_after(now: int, expires_in_seconds: int) -> int {
    now + expires_in_seconds * MICROS_PER_SECOND
}

/// Whether `token` has expired at `now`.
pub open spec fn expired_at(token: Token, now: int) -> bool {
    token.expires_at <= now
}

/// What setting the expiry `expires_in_seconds` after `now` does: where
/// that instant can be represented it becomes the expiry (`r`), otherwise the
/// token stays as it was (`!r`); the access and refresh tokens stay.
pub open spec fn expiration_outcome(
    before: Token,
    after: Token,
    now: int,
    expires_in_seconds: int,
    r: bool,
) -> bool {
    &&& r <==> expiry_after(now, expires_in_seconds) <= MAX_TIMESTAMP_MICROS
    &&& r ==> after == Token { expires_at: expiry_after(now, expires_in_seconds) as i64, ..before }
    &&& !r ==> after == before
}

impl Token {
    /// A token that holds nothing yet and expires at `now`.
    pub fn empty_at(now: i64) -> (r: Token)
        ensures
            r.access_token is None,
            r.refresh_token is None,
            r.expires_at == now,
    {
        Token { access_token: None, expires_at: now, refresh_token: None }
    }

    /// Whether the access token has expired at `now`: its expiry is not
    /// after `now`.
    pub fn is_expired_at(&self, now: i64) -> (r: bool)
        ensures
            r == (self.expires_at <= now),
    {
        self.expires_at <= now
    }

    /// Whether the access token has expired by the current time.
    pub fn is_expired(&self) -> (r: bool)
        ensures
            exists|now: int| 0 <= now <= MAX_TIMESTAMP_MICROS && r == #[trigger] expired_at(*self, now),
    {
        let now = now_micros();
        let r = self.is_expired_at(now);
        assert(r == expired_at(*self, now as int));
        r
    }

    /// Sets the expiry to `expires_in_seconds` after `now`.
    pub fn set_expiration_at(&mut self, now: i64, expires_in_seconds: u64)
        requires
            0 <= now,
            expiry_after(now as int, expires_in_seconds as int) <= MAX_TIMESTAMP_MICROS,
        ensures
            final(self).expires_at == expiry_after(now as int, expires_in_seconds as int),
            final(self).access_token == old(self).access_token,
            final(self).refresh_token == old(self).refresh_token,
    {
        assert(expires_in_seconds * MICROS_PER_SECOND <= MAX_TIMESTAMP_MICROS);
        let secs = expires_in_seconds as i64;
        self.expires_at = now + secs * MICROS_PER_SECOND;
    }

    /// Sets the expiry to `expires_in_seconds` after `now` where that
    /// instant can be represented (`true`); otherwise leaves the token
    /// unchanged (`false`).
    pub fn set_expiration_checked_at(&mut self, now: i64, expires_in_seconds: u64) -> (r: bool)
        requires
            0 <= now <= MAX_TIMESTAMP_MICROS,
        ensures
            expiration_outcome(*old(self), *final(self), now as int, expires_in_seconds as int, r),
    {
        if expires_in_seconds > ((MAX_TIMESTAMP_MICROS - now) / MICROS_PER_SECOND) as u64 {
            return false;
        }
        self.set_expiration_at(now, expires_in_seconds);
        true
    }

    /// Sets the expiry to `expires_in_seconds` after the current time, where
    /// that instant can be represented (`true`); otherwise leaves the token
    /// unchanged (`false`).
    pub fn set_expiration(&mut self, expires_in_seconds: u64) -> (r: bool)
        ensures
            exists|now: int|
                0 <= now <= MAX_TIMESTAMP_MICROS && #[trigger] expiration_outcome(
                    *old(self),
                    *final(self),
                    now,
                    expires_in_seconds as int,
                    r,
                ),
    {
        let now = now_micros();
        self.set_expiration_checked_at(now, expires_in_seconds)
    }

    /// A copy of the token.
    pub fn clone(&self) -> (r: Token)
        ensures
            r == *self,
    {
        Token {
            access_token: clone_opt_string(&self.access_token),
            expires_at: self.expires_at,
            refresh_token: clone_opt_string(&self.refresh_token),
        }
    }
}

impl Default for Token {
    /// A token that holds nothing yet and expires now.
    fn default() -> (r: Token)
        ensures
            r.access_token is None,
            r.refresh_token is None,
            0 <= r.expires_at <= MAX_TIMESTAMP_MICROS,
    {
        Token::empty_at(now_micros())
    }
}

/// The redirect URI used where none is configured.
pub fn default_redirect_uri() -> (r: &'static str)
    ensures
        r@ == "http://127.0.0.1:58392"@,
{
    "http://127.0.0.1:58392"
}

/// Parameters of the application registered with Spotify, needed for
/// authorization.
#[derive(Debug)]
pub struct AuthParams {
    pub client_id: String,
    pub client_secret: String,
    pub redirect_uri: String,
}

impl AuthParams {
    /// The parameters for the given client, with the configured redirect
    /// URI or, where none is configured, the default one.
    pub fn with_redirect_or_default(
        client_id: String,
        client_secret: String,
        redirect_uri: Option<String>,
    ) -> (r: AuthParams)
        ensures
            r.client_id == client_id,
            r.client_secret == client_secret,
            redirect_uri matches Some(u) ==> r.redirect_uri == u,
            redirect_uri is None ==> r.redirect_uri@ == "http://127.0.0.1:58392"@,
    {
        let redirect_uri = match redirect_uri {
            Some(u) => u,
            None => default_redirect_uri().to_owned(),
        };
        AuthParams { client_id, client_secret, redirect_uri }
    }
}

/// What the client has to do to have an access token.
#[derive(Debug)]
pub enum TokenStep {
    /// The token is valid: use it.
    Ready(String),
    /// No token yet: run the Authorization Code flow.
    Authorize,
    /// The token expired: refresh it with this refresh token.
    Refresh(String),
}

/// The message of the error for an expired token with no refresh token.
pub open spec fn no_refresh_message() -> Seq<char> {
    "Access token is expired and no refresh token available"@
}

/// What the client has to do with `token` at `now`.
pub open spec fn token_step_spec(token: Token, now: int, r: Result<TokenStep, SpotifyError>) -> bool {
    match token.access_token {
        None => r matches Ok(TokenStep::Authorize),
        Some(access) => if token.expires_at <= now {
            match token.refresh_token {
                None => r matches Err(SpotifyError::Api(m)) && m@ == no_refresh_message(),
                Some(refresh) => r matches Ok(TokenStep::Refresh(x)) && x == refresh,
            }
        } else {
            r matches Ok(TokenStep::Ready(x)) && x == access
        },
    }
}

/// A token with an access token is used as it is until it expires, and
/// then refreshed where it has a refresh token.
pub proof fn lemma_token_used_until_expiry(
    token: Token,
    now: int,
    r: Result<TokenStep, SpotifyError>,
)
    requires
        token.access_token is Some,
        token_step_spec(token, now, r),
    ensures
        now < token.expires_at ==> (r matches Ok(TokenStep::Ready(x)) && x
            == token.access_token->0),
        now >= token.expires_at && token.refresh_token is Some ==> (r matches Ok(
            TokenStep::Refresh(x),
        ) && x == token.refresh_token->0),
{
}

/// A token taken from a reply with a positive lifetime at `now` is used as
/// it is at `now`: no new authorization or refresh follows at once.
pub proof fn lemma_fresh_token_is_ready(
    token: Token,
    now: int,
    expires_in_seconds: int,
    r: Result<TokenStep, SpotifyError>,
)
    requires
        token.access_token is Some,
        expires_in_seconds > 0,
        token.expires_at == expiry_after(now, expires_in_seconds),
        token_step_spec(token, now, r),
    ensures
        r matches Ok(TokenStep::Ready(x)) && x == token.access_token->0,
{
}

/// An expired token is never handed out: where the token's expiry is at or
/// before the instant of the decision, the step is a refresh with its
/// refresh token, or the error for a token without one, and never `Ready`.
/// And once a token is expired it stays so: a decision at a later instant
/// is not `Ready` either, while one that is `Ready` at an instant is
/// `Ready` with the same token at every earlier instant.
pub proof fn lemma_expired_token_never_ready(
    token: Token,
    now: int,
    r: Result<TokenStep, SpotifyError>,
    later: int,
    r_later: Result<TokenStep, SpotifyError>,
)
    requires
        token.access_token is Some,
        token_step_spec(token, now, r),
        token_step_spec(token, later, r_later),
        now <= later,
    ensures
        token.expires_at <= now ==> !(r matches Ok(TokenStep::Ready(_))),
        token.expires_at <= now ==> !(r_later matches Ok(TokenStep::Ready(_))),
        token.expires_at <= now && token.refresh_token is Some ==> (r matches Ok(
            TokenStep::Refresh(x),
        ) && x == token.refresh_token->0),
        token.expires_at <= now && token.refresh_token is None ==> (r matches Err(
            SpotifyError::Api(m),
        ) && m@ == no_refresh_message()),
        r_later matches Ok(TokenStep::Ready(x)) ==> (r matches Ok(TokenStep::Ready(y)) && y == x),
{
}

/// The Spotify client: its current token and the application parameters.
pub struct Client {
    token: Token,
    auth_params: AuthParams,
}

impl Client {
    /// The client's current token.
    pub closed spec fn current_token(&self) -> Token {
        self.token
    }

    /// The client's application parameters.
    pub closed spec fn params(&self) -> AuthParams {
        self.auth_params
    }

    /// A client with the given token and parameters. The token may hold
    /// nothing yet; the parameters let the client obtain one.
    pub fn new(token: Token, auth_params: AuthParams) -> (r: Result<Client, SpotifyError>)
        ensures
            r matches Ok(c) && c.current_token() == token && c.params() == auth_params,
    {
        Ok(Client { token, auth_params })
    }

    /// A copy of the current token, such as for keeping it between runs.
    pub fn get_token(&self) -> (r: Token)
        ensures
            r == self.current_token(),
    {
        self.token.clone()
    }

    /// The application parameters.
    pub fn auth_params(&self) -> (r: &AuthParams)
        ensures
            *r == self.params(),
    {
        &self.auth_params
    }

    /// What to do to have an access token at `now`: without a token,
    /// authorize; with an expired one, refresh it (an error where there is
    /// no refresh token); otherwise use it.
    pub fn token_step_at(&self, now: i64) -> (r: Result<TokenStep, SpotifyError>)
        ensures
            token_step_spec(self.current_token(), now as int, r),
    {
        match &self.token.access_token {
            None => Ok(TokenStep::Authorize),
            Some(access) => {
                if self.token.is_expired_at(now) {
                    match &self.token.refresh_token {
                        None => Err(
                            SpotifyError::Api(
                                "Access token is expired and no refresh token available".to_owned(),
                            ),
                        ),
                        Some(refresh) => Ok(TokenStep::Refresh(refresh.clone())),
                    }
                } else {
                    Ok(TokenStep::Ready(access.clone()))
                }
            },
        }
    }

    /// What to do to have an access token at the current time.
    pub fn token_step(&self) -> (r: Result<TokenStep, SpotifyError>)
        ensures
            exists|now: int|
                0 <= now <= MAX_TIMESTAMP_MICROS && token_step_spec(self.current_token(), now, r),
    {
        let now = now_micros();
        self.token_step_at(now)
    }

    /// Takes the reply of the Authorization Code exchange at `now`: the
    /// access token, the refresh token (or none) and the expiry all come
    /// from the reply. Returns the access token.
    pub fn apply_authorization_reply_at(
        &mut self,
        reply: SpotifyGetAccessTokenResponse,
        now: i64,
    ) -> (r: String)
        requires
            0 <= now,
            reply_fits_at(reply, now as int),
        ensures
            r == reply.access_token,
            final(self).current_token() == after_authorization(reply, now as int),
            final(self).params() == old(self).params(),
    {
        self.token.set_expiration_at(now, reply.expires_in);
        self.token.refresh_token = reply.refresh_token;
        self.token.access_token = Some(reply.access_token.clone());
        reply.access_token
    }

    /// Takes the reply of a refresh at `now`: the access token and expiry
    /// come from the reply, the refresh token too where the reply has one,
    /// else the old one stays. Returns the access token.
    pub fn apply_refresh_reply_at(&mut self, reply: SpotifyGetAccessTokenResponse, now: i64) -> (r:
        String)
        requires
            0 <= now,
            reply_fits_at(reply, now as int),
        ensures
            r == reply.access_token,
            final(self).current_token() == after_refresh(
                old(self).current_token(),
                reply,
                now as int,
            ),
            final(self).params() == old(self).params(),
    {
        self.token.set_expiration_at(now, reply.expires_in);
        if reply.refresh_token.is_some() {
            self.token.refresh_token = reply.refresh_token;
        }
        self.token.access_token = Some(reply.access_token.clone());
        reply.access_token
    }

    /// Takes the reply of the Authorization Code exchange at `now`, where
    /// its expiry can be represented: returns the access token. Otherwise
    /// returns `None` and leaves the client unchanged.
    pub fn apply_authorization_reply_checked_at(
        &mut self,
        reply: SpotifyGetAccessTokenResponse,
        now: i64,
    ) -> (r: Option<String>)
        requires
            0 <= now <= MAX_TIMESTAMP_MICROS,
        ensures
            reply_outcome(*old(self), *final(self), reply, now as int, r, false),
    {
        if reply.expires_in > ((MAX_TIMESTAMP_MICROS - now) / MICROS_PER_SECOND) as u64 {
            return None;
        }
        Some(self.apply_authorization_reply_at(reply, now))
    }

    /// Takes the reply of a refresh at `now`, where its expiry can be
    /// represented: returns the access token. Otherwise returns `None` and
    /// leaves the client unchanged.
    pub fn apply_refresh_reply_checked_at(
        &mut self,
        reply: SpotifyGetAccessTokenResponse,
        now: i64,
    ) -> (r: Option<String>)
        requires
            0 <= now <= MAX_TIMESTAMP_MICROS,
        ensures
            reply_outcome(*old(self), *final(self), reply, now as int, r, true),
    {
        if reply.expires_in > ((MAX_TIMESTAMP_MICROS - now) / MICROS_PER_SECOND) as u64 {
            return None;
        }
        Some(self.apply_refresh_reply_at(reply, now))
    }

    /// Takes the reply of the Authorization Code exchange at the current
    /// time. Returns the access token, or `None` (the client unchanged)
    /// where the expiry would lie beyond the last representable instant.
    pub fn apply_authorization_reply(&mut self, reply: SpotifyGetAccessTokenResponse) -> (r: Option<
        String,
    >)
        ensures
            exists|now: int|
                0 <= now <= MAX_TIMESTAMP_MICROS && #[trigger] reply_outcome(
                    *old(self),
                    *final(self),
                    reply,
                    now,
                    r,
                    false,
                ),
    {
        let now = now_micros();
        self.apply_authorization_reply_checked_at(reply, now)
    }

    /// Takes the reply of a refresh at the current time. Returns the access
    /// token, or `None` (the client unchanged) where the expiry would lie
    /// beyond the last representable instant.
    pub fn apply_refresh_reply(&mut self, reply: SpotifyGetAccessTokenResponse) -> (r: Option<
        String,
    >)
        ensures
            exists|now: int|
                0 <= now <= MAX_TIMESTAMP_MICROS && #[trigger] reply_outcome(
                    *old(self),
                    *final(self),
                    reply,
                    now,
                    r,
                    true,
                ),
    {
        let now = now_micros();
        self.apply_refresh_reply_checked_at(reply, now)
    }
}

/// Whether the expiry of a reply taken at `now` can be represented.
pub open spec fn reply_fits_at(reply: SpotifyGetAccessTokenResponse, now: int) -> bool {
    expiry_after(now, reply.expires_in as int) <= MAX_TIMESTAMP_MICROS
}

/// The token after the reply of the Authorization Code exchange at `now`:
/// everything comes from the reply.
pub open spec fn after_authorization(reply: SpotifyGetAccessTokenResponse, now: int) -> Token {
    Token {
        access_token: Some(reply.access_token),
        expires_at: expiry_after(now, reply.expires_in as int) as i64,
        refresh_token: reply.refresh_token,
    }
}

/// The token after the reply of a refresh at `now`: the access token and
/// expiry come from the reply, the refresh token too where it has one.
pub open spec fn after_refresh(
    before: Token,
    reply: SpotifyGetAccessTokenResponse,
    now: int,
) -> Token {
    Token {
        access_token: Some(reply.access_token),
        expires_at: expiry_after(now, reply.expires_in as int) as i64,
        refresh_token: match reply.refresh_token {
            Some(t) => Some(t),
            None => before.refresh_token,
        },
    }
}

/// What taking a token reply at `now` does to a client: where the expiry
/// can be represented, the client gets the token that the reply makes and
/// the access token is returned; otherwise `None` and the client stays as
/// it was. The application parameters stay either way.
pub open spec fn reply_outcome(
    before: Client,
    after: Client,
    reply: SpotifyGetAccessTokenResponse,
    now: int,
    r: Option<String>,
    refresh: bool,
) -> bool {
    &&& r is Some <==> reply_fits_at(reply, now)
    &&& r matches Some(a) ==> {
        &&& a == reply.access_token
        &&& after.current_token() == if refresh {
            after_refresh(before.current_token(), reply, now)
        } else {
            after_authorization(reply, now)
        }
    }
    &&& r is None ==> after == before
    &&& after.params() == before.params()
}

/// The token that the client hands out is the one it holds: a ready step
/// gives the held access token, and taking a reply leaves the client
/// holding the access token it returns. A client that held an access
/// token still holds one afterwards, and the application parameters never
/// change.
pub proof fn lemma_access_token_flow(
    before: Client,
    step_now: int,
    step: Result<TokenStep, SpotifyError>,
    after: Client,
    reply: SpotifyGetAccessTokenResponse,
    reply_now: int,
    r: Option<String>,
    refresh: bool,
)
    requires
        token_step_spec(before.current_token(), step_now, step),
        reply_outcome(before, after, reply, reply_now, r, refresh),
    ensures
        step matches Ok(TokenStep::Ready(s)) ==> before.current_token().access_token == Some(s),
        step matches Ok(TokenStep::Refresh(x)) ==> before.current_token().access_token is Some
            && before.current_token().refresh_token == Some(x),
        step matches Ok(TokenStep::Authorize) ==> before.current_token().access_token is None,
        r matches Some(s) ==> after.current_token().access_token == Some(s),
        before.current_token().access_token is Some ==> after.current_token().access_token is Some,
        after.params() == before.params(),
{
}

} // verus!
