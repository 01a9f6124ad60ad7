//! The OAuth2 exchange flow: the login redirect, the callback decision and
//! the logout response.
//!
//! Login issues a CSRF state token and builds the provider's authorization
//! URL. The callback redeems the state first — a state that was never
//! issued, or was redeemed before, stops the flow as a bad request — and
//! only then is the code exchanged at the provider's token endpoint (an
//! outbound call made by the caller); the decision on the exchange's reply
//! is made here. Logout unconditionally expires the session cookie.

use vstd::prelude::*;
use vstd::string::*;

use crate::data::is_alphanumeric_char;
use crate::data::token_count;
use crate::data::Auth0Config;
use crate::data::States;
use crate::data::UrlConfig;

verus! {

/// The provider's reply to a successful code exchange.
#[derive(Clone, Debug)]
pub struct OAuthTokenResponse {
    pub access_token: String,
    pub expires_in: i32,
}

/// The query parameters the provider's callback carries.
#[derive(Clone, Debug)]
pub struct Auth0Url {
    pub code: String,
    pub state: String,
}

/// Every attribute of the session cookie the flow sets or clears.
#[derive(Clone, Debug)]
pub struct SessionCookie {
    pub name: String,
    pub value: String,
    pub max_age_seconds: i64,
    pub http_only: bool,
    pub secure: bool,
    pub path: String,
    pub same_site_none: bool,
    pub domain: Option<String>,
}

/// What the callback answers: the CSRF defense, a failed exchange, or a
/// redirect to the frontend carrying the session cookie.
#[derive(Debug)]
pub enum CallbackOutcome {
    /// The state was not outstanding: `400 Bad Request`, no cookie.
    InvalidState,
    /// Transport failure, a non-200 reply, or an unreadable reply body:
    /// `500 Internal Server Error`, no cookie.
    ExchangeFailed,
    /// The exchange succeeded: `307` to the landing page, cookie set.
    Success { location: String, cookie: SessionCookie },
}

/// What the caller saw at the token endpoint: the HTTP status, and the
/// reply's token fields if the body could be read as such.
#[derive(Clone, Debug)]
pub struct ExchangeReply {
    pub status: u16,
    pub token: Option<OAuthTokenResponse>,
}

/// What `urlencoding::encode` returns for the given characters, a function
/// of the text alone.
pub uninterp spec fn url_encoded(s: Seq<char>) -> Seq<char>;

/// Relies on urlencoding::encode: percent-encodes every byte except
/// alphanumerics and `-`, `_`, `.`, `~`; the result depends on the text
/// alone.
#[verifier::external_body]
fn encode_url(s: &str) -> (r: String)
    ensures
        r@ == url_encoded(s@),
{
    urlencoding::encode(s).into_owned()
}

/// The exact callback address registered with the provider.
pub open spec fn spec_callback_url(backend: Seq<char>) -> Seq<char> {
    backend + "/auth/callback?"@
}

pub fn callback_url(backend: &String) -> (r: String)
    ensures
        r@ == spec_callback_url(backend@),
{
    let mut s = backend.clone();
    s.append("/auth/callback?");
    s
}

/// The provider's authorization URL for one login attempt.
pub open spec fn spec_authorize_url(
    domain: Seq<char>,
    client_id: Seq<char>,
    backend: Seq<char>,
    state: Seq<char>,
) -> Seq<char> {
    "https://"@ + domain + "/authorize?client_id="@ + client_id + "&redirect_uri="@ + url_encoded(
        spec_callback_url(backend),
    ) + "&response_type=code&state="@ + state + "&scope=openid profile email user_id"@
}

pub fn authorize_url(auth0: &Auth0Config, backend: &String, state: &String) -> (r: String)
    ensures
        r@ == spec_authorize_url(auth0.domain@, auth0.client_id@, backend@, state@),
{
    let cb = callback_url(backend);
    let encoded = encode_url(cb.as_str());
    let mut s = String::from_str("https://");
    s.append(auth0.domain.as_str());
    s.append("/authorize?client_id=");
    s.append(auth0.client_id.as_str());
    s.append("&redirect_uri=");
    s.append(encoded.as_str());
    s.append("&response_type=code&state=");
    s.append(state.as_str());
    s.append("&scope=openid profile email user_id");
    proof {
        assert(s@ =~= spec_authorize_url(auth0.domain@, auth0.client_id@, backend@, state@));
    }
    s
}

/// The login step: issues a CSRF state token and the authorization URL to
/// redirect to. Returns the redirect location and the issued state.
pub fn login(states: &mut States, auth0: &Auth0Config, urls: &UrlConfig) -> (r: (String, String))
    ensures
        final (states).tokens() == old(states).tokens().push(r.1),
        forall|t: Seq<char>|
            #[trigger] token_count(final (states).tokens(), t) == token_count(
                old(states).tokens(),
                t,
            ) + (if r.1@ == t {
                1nat
            } else {
                0nat
            }),
        r.1@.len() == 10,
        forall|k: int| 0 <= k < r.1@.len() ==> is_alphanumeric_char(#[trigger] r.1@[k]),
        r.0@ == spec_authorize_url(auth0.domain@, auth0.client_id@, urls.backend@, r.1@),
{
    let state = states.add();
    let location = authorize_url(auth0, &urls.backend, &state);
    (location, state)
}

/// The form the token endpoint is POSTed: grant type, client credentials,
/// the code, and the exact callback address used during login.
pub fn token_request_form(auth0: &Auth0Config, backend: &String, code: &String) -> (l: Vec<
    (String, String),
>)
    ensures
        l@.len() == 5,
        l@[0].0@ == "grant_type"@ && l@[0].1@ == "authorization_code"@,
        l@[1].0@ == "client_id"@ && l@[1].1@ == auth0.client_id@,
        l@[2].0@ == "client_secret"@ && l@[2].1@ == auth0.client_secret@,
        l@[3].0@ == "code"@ && l@[3].1@ == code@,
        l@[4].0@ == "redirect_uri"@ && l@[4].1@ == spec_callback_url(backend@),
{
    let mut l: Vec<(String, String)> = Vec::new();
    l.push((String::from_str("grant_type"), String::from_str("authorization_code")));
    l.push((String::from_str("client_id"), auth0.client_id.clone()));
    l.push((String::from_str("client_secret"), auth0.client_secret.clone()));
    l.push((String::from_str("code"), code.clone()));
    l.push((String::from_str("redirect_uri"), callback_url(backend)));
    l
}

/// The token endpoint the exchange POSTs to.
pub open spec fn spec_token_endpoint(domain: Seq<char>) -> Seq<char> {
    "https://"@ + domain + "/oauth/token"@
}

pub fn token_endpoint(auth0: &Auth0Config) -> (r: String)
    ensures
        r@ == spec_token_endpoint(auth0.domain@),
{
    let mut s = String::from_str("https://");
    s.append(auth0.domain.as_str());
    s.append("/oauth/token");
    proof {
        assert(s@ =~= spec_token_endpoint(auth0.domain@));
    }
    s
}

/// Whether `s` begins with the characters of `p`.
fn str_prefix_eq(s: &str, p: &str) -> (r: bool)
    ensures
        r == (s@.len() >= p@.len() && s@.subrange(0, p@.len() as int) == p@),
{
    let sl = s.unicode_len();
    let pl = p.unicode_len();
    if sl < pl {
        return false;
    }
    let mut i: usize = 0;
    while i < pl
        invariant
            i <= pl,
            pl == p@.len(),
            sl == s@.len(),
            sl >= pl,
            forall|k: int| 0 <= k < i ==> s@[k] == p@[k],
        decreases pl - i,
    {
        if s.get_char(i) != p.get_char(i) {
            proof {
                assert(s@.subrange(0, pl as int)[i as int] == s@[i as int]);
            }
            return false;
        }
        i += 1;
    }
    proof {
        assert(s@.subrange(0, pl as int) =~= p@);
    }
    true
}

/// Whether `s` ends with the characters of `p`.
fn str_suffix_eq(s: &str, p: &str) -> (r: bool)
    ensures
        r == (s@.len() >= p@.len() && s@.subrange(s@.len() - p@.len(), s@.len() as int) == p@),
{
    let sl = s.unicode_len();
    let pl = p.unicode_len();
    if sl < pl {
        return false;
    }
    let off = sl - pl;
    let mut i: usize = 0;
    while i < pl
        invariant
            i <= pl,
            pl == p@.len(),
            sl == s@.len(),
            sl >= pl,
            off == sl - pl,
            forall|k: int| 0 <= k < i ==> s@[off + k] == p@[k],
        decreases pl - i,
    {
        if s.get_char(off + i) != p.get_char(i) {
            proof {
                assert(s@.subrange(sl - pl, sl as int)[i as int] == s@[off + i]);
            }
            return false;
        }
        i += 1;
    }
    proof {
        assert(s@.subrange(sl - pl, sl as int) =~= p@);
    }
    true
}

/// The cookie's domain, derived from the frontend URL: the host after
/// `https://`, or, for a local `http://` frontend, the host with its
/// `:5173` port stripped; nothing for any other shape.
pub open spec fn spec_cookie_domain(frontend: Seq<char>) -> Option<Seq<char>> {
    if frontend.len() >= 8 && frontend.subrange(0, 8) == "https://"@ {
        Some(frontend.subrange(8, frontend.len() as int))
    } else if frontend.len() >= 12 && frontend.subrange(0, 7) == "http://"@ && frontend.subrange(
        frontend.len() - 5,
        frontend.len() as int,
    ) == ":5173"@ {
        Some(frontend.subrange(7, frontend.len() - 5))
    } else {
        None
    }
}

pub fn cookie_domain(frontend: &String) -> (r: Option<String>)
    ensures
        match spec_cookie_domain(frontend@) {
            Some(d) => r matches Some(s) && s@ == d,
            None => r is None,
        },
{
    let f = frontend.as_str();
    let len = f.unicode_len();
    proof {
        reveal_strlit("https://");
        reveal_strlit("http://");
        reveal_strlit(":5173");
    }
    if str_prefix_eq(f, "https://") {
        let d = f.substring_char(8, len);
        Some(String::from_str(d))
    } else if len >= 12 && str_prefix_eq(f, "http://") && str_suffix_eq(f, ":5173") {
        let d = f.substring_char(7, len - 5);
        Some(String::from_str(d))
    } else {
        None
    }
}

/// The landing page a successful callback redirects to.
pub open spec fn spec_landing_page(frontend: Seq<char>) -> Seq<char> {
    frontend + "/participate"@
}

/// Decides the callback's answer from the redemption of the state and the
/// token endpoint's reply (`None` for a transport failure). The cookie is
/// set only when the state was outstanding and the endpoint answered 200
/// with a readable token; it carries the provider's access token for the
/// token's lifetime, HTTP-only, secure, cross-site-capable, on the
/// frontend's domain.
pub fn callback_decision(state_ok: bool, exchange: Option<ExchangeReply>, urls: &UrlConfig) -> (r:
    CallbackOutcome)
    ensures
        !state_ok ==> r is InvalidState,
        state_ok && exchange is None ==> r is ExchangeFailed,
        state_ok && (exchange matches Some(e) && e.status != 200) ==> r is ExchangeFailed,
        state_ok && (exchange matches Some(e) && e.status == 200 && e.token is None) ==> r
            is ExchangeFailed,
        state_ok && (exchange matches Some(e) && e.status == 200 && e.token is Some) ==> {
            let t = exchange.unwrap().token.unwrap();
            &&& r matches CallbackOutcome::Success { location, cookie }
            &&& location@ == spec_landing_page(urls.frontend@)
            &&& cookie.name@ == "access_token"@
            &&& cookie.value@ == t.access_token@
            &&& cookie.max_age_seconds == t.expires_in as i64
            &&& cookie.http_only == true
            &&& cookie.secure == true
            &&& cookie.path@ == "/"@
            &&& cookie.same_site_none == true
            &&& match spec_cookie_domain(urls.frontend@) {
                Some(d) => cookie.domain matches Some(s) && s@ == d,
                None => cookie.domain is None,
            }
        },
{
    if !state_ok {
        return CallbackOutcome::InvalidState;
    }
    let reply = match exchange {
        Some(e) => e,
        None => {
            return CallbackOutcome::ExchangeFailed;
        },
    };
    if reply.status != 200 {
        return CallbackOutcome::ExchangeFailed;
    }
    let token = match reply.token {
        Some(t) => t,
        None => {
            return CallbackOutcome::ExchangeFailed;
        },
    };
    let mut location = urls.frontend.clone();
    location.append("/participate");
    let cookie = SessionCookie {
        name: String::from_str("access_token"),
        value: token.access_token,
        max_age_seconds: token.expires_in as i64,
        http_only: true,
        secure: true,
        path: String::from_str("/"),
        same_site_none: true,
        domain: cookie_domain(&urls.frontend),
    };
    CallbackOutcome::Success { location, cookie }
}

/// The logout answer: redirect to the frontend root and overwrite the
/// session cookie with an immediately expired empty value.
pub fn logout_response(urls: &UrlConfig) -> (r: (String, SessionCookie))
    ensures
        r.0@ == urls.frontend@,
        r.1.name@ == "access_token"@,
        r.1.value@ == Seq::<char>::empty(),
        r.1.max_age_seconds == -1,
        r.1.http_only == true,
        r.1.secure == false,
        r.1.path@ == "/"@,
        r.1.same_site_none == false,
        r.1.domain is None,
{
    let cookie = SessionCookie {
        name: String::from_str("access_token"),
        value: String::new(),
        max_age_seconds: -1,
        http_only: true,
        secure: false,
        path: String::from_str("/"),
        same_site_none: false,
        domain: None,
    };
    (urls.frontend.clone(), cookie)
}

} // verus!
