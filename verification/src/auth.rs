//! The token verifier and the per-request identity gates.
//!
//! A bearer credential is accepted only if its header names a key identifier,
//! that identifier is present in the key material cache, the key is of the
//! RSA family, the signature verifies, and the claim set carries the
//! configured audience, the provider's issuer, and an expiry in the future.
//! Every failure collapses to the single outcome `Unauthorized`.
//!
//! Strategy: signatures are checked locally against the cached keys; the
//! audience, issuer and expiry checks are done here on the plain claim
//! values, not delegated to the token library.

use vstd::prelude::*;
use vstd::string::*;

use crate::data::Auth0Config;
use crate::error::Error;
use crate::keys::first_kid_index;
use crate::keys::has_kid;
use crate::keys::lemma_first_kid_index;
use crate::keys::KeySet;

verus! {

/// An authenticated identity, as asserted by the provider's claim set.
#[derive(Clone, Debug)]
pub struct User {
    pub id: String,
    pub name: String,
    pub email: String,
}

/// An identity that passed the admin elevation check.
#[derive(Clone, Debug)]
pub struct AdminUser(pub User);

/// The plain claim values the verifier reads from a credential's payload.
#[derive(Clone, Debug)]
pub struct Claims {
    pub sub: String,
    pub name: String,
    pub email: String,
    pub aud: String,
    pub iss: String,
    pub exp: u64,
}

/// The issuer the provider is expected to assert: `https://{domain}/`.
pub open spec fn spec_issuer(domain: Seq<char>) -> Seq<char> {
    "https://"@ + domain + "/"@
}

pub fn expected_issuer(domain: &String) -> (r: String)
    ensures
        r@ == spec_issuer(domain@),
{
    let mut s = String::from_str("https://");
    s.append(domain.as_str());
    s.append("/");
    s
}

/// A claim set is valid when its audience is the configured client id, its
/// issuer is the provider's, and its expiry lies strictly in the future.
pub open spec fn claims_ok(c: Claims, client_id: Seq<char>, domain: Seq<char>, now: u64) -> bool {
    c.aud@ == client_id && c.iss@ == spec_issuer(domain) && c.exp > now
}

/// A credential with the wrong audience or the wrong issuer is never valid,
/// whatever its signature.
pub proof fn lemma_wrong_audience_or_issuer_rejected(
    c: Claims,
    client_id: Seq<char>,
    domain: Seq<char>,
    now: u64,
)
    requires
        c.aud@ != client_id || c.iss@ != spec_issuer(domain),
    ensures
        !claims_ok(c, client_id, domain, now),
{
}

/// A credential past its expiry instant is never valid.
pub proof fn lemma_expired_rejected(c: Claims, client_id: Seq<char>, domain: Seq<char>, now: u64)
    requires
        c.exp <= now,
    ensures
        !claims_ok(c, client_id, domain, now),
{
}

/// Decides a verified claim set: the authenticated identity if the claims
/// are valid for this deployment at `now`, else `Unauthorized`.
pub fn accept_claims(claims: &Claims, client_id: &String, domain: &String, now: u64) -> (r: Result<
    User,
    Error,
>)
    ensures
        r is Ok <==> claims_ok(*claims, client_id@, domain@, now),
        r matches Ok(u) ==> u == (User {
            id: claims.sub,
            name: claims.name,
            email: claims.email,
        }),
        !claims_ok(*claims, client_id@, domain@, now) ==> r == Result::<User, Error>::Err(
            Error::Unauthorized,
        ),
{
    let iss = expected_issuer(domain);
    if claims.aud.eq(client_id) && claims.iss.eq(&iss) && claims.exp > now {
        Ok(
            User {
                id: claims.sub.clone(),
                name: claims.name.clone(),
                email: claims.email.clone(),
            },
        )
    } else {
        Err(Error::Unauthorized)
    }
}

/// The credential source a request is read from: the named cookie takes
/// precedence, else the authorization header, else nothing.
pub fn choose_credential(cookie: Option<String>, header: Option<String>) -> (r: Option<String>)
    ensures
        cookie is Some ==> r == cookie,
        cookie is None ==> r == header,
{
    match cookie {
        Some(c) => Some(c),
        None => header,
    }
}

/// The admin elevation decision: an identity failure propagates; the
/// datastore's admin flag elevates only when it affirmatively reads `true`,
/// so a datastore error denies elevation rather than granting it.
pub fn admin_gate(user: Result<User, Error>, is_admin: Result<bool, Error>) -> (r: Result<
    AdminUser,
    Error,
>)
    ensures
        user matches Err(e) ==> r == Result::<AdminUser, Error>::Err(e),
        user is Ok && is_admin == Result::<bool, Error>::Ok(true) ==> r
            == Result::<AdminUser, Error>::Ok(AdminUser(user->Ok_0)),
        user is Ok && is_admin != Result::<bool, Error>::Ok(true) ==> r == Result::<
            AdminUser,
            Error,
        >::Err(Error::Unauthorized),
{
    match user {
        Err(e) => Err(e),
        Ok(u) => match is_admin {
            Ok(true) => Ok(AdminUser(u)),
            _ => Err(Error::Unauthorized),
        },
    }
}

/// The key identifier that the credential's unverified header carries, a
/// function of the token text alone.
pub uninterp spec fn jwt_kid(t: Seq<char>) -> Option<Seq<char>>;

/// Relies on jsonwebtoken::decode_header: decodes the header part of the
/// token text, with no network and no clock, and hands out its kid field.
#[verifier::external_body]
fn decode_header_kid(token: &str) -> (r: Option<String>)
    ensures
        r is Some <==> jwt_kid(token@) is Some,
        r matches Some(k) ==> Some(k@) == jwt_kid(token@),
{
    jsonwebtoken::decode_header(token).ok().and_then(|h| h.kid)
}

/// The claim values that signature verification and claim extraction yield
/// for a token under an RSA key's base64url components: nothing if the key
/// is unusable, the signature does not verify, or any needed claim is
/// missing or ill-typed. The whole of it is a function of the three texts
/// alone — no clock, no randomness, no network.
pub uninterp spec fn rsa_claims(
    token: Seq<char>,
    modulus: Seq<char>,
    exponent: Seq<char>,
) -> Option<Claims>;

/// Relies on jsonwebtoken::DecodingKey::from_rsa_components, Validation::new
/// and decode, and on serde_json::Value::get, as_str and as_u64: builds an
/// RS256 key from the components, verifies the token's signature against it,
/// and reads the six claim values out of the decoded payload. The call
/// checks only the signature and the presence of `exp` (which the field
/// reads demand anyway): audience, issuer and the expiry instant are judged
/// by this crate's verified code. Every step is deterministic in the
/// arguments, so the outcome carries the name `rsa_claims`.
#[verifier::external_body]
fn verified_claims(token: &str, modulus: &str, exponent: &str) -> (r: Option<Claims>)
    ensures
        r == rsa_claims(token@, modulus@, exponent@),
{
    let key = jsonwebtoken::DecodingKey::from_rsa_components(modulus, exponent).ok()?;
    let mut validation = jsonwebtoken::Validation::new(jsonwebtoken::Algorithm::RS256);
    validation.validate_exp = false;
    validation.validate_aud = false;
    let v = jsonwebtoken::decode::<serde_json::Value>(token, &key, &validation).ok()?.claims;
    Some(Claims {
        sub: v.get("sub")?.as_str()?.to_owned(),
        name: v.get("name")?.as_str()?.to_owned(),
        email: v.get("email")?.as_str()?.to_owned(),
        aud: v.get("aud")?.as_str()?.to_owned(),
        iss: v.get("iss")?.as_str()?.to_owned(),
        exp: v.get("exp")?.as_u64()?,
    })
}

/// Verifies a bearer credential against the key material cache and this
/// deployment's audience and issuer, at instant `now`.
///
/// The contract pins every outcome: a credential whose header carries no
/// key identifier, or whose identifier is absent from the cache, is
/// rejected; otherwise the first cached key under that identifier decides —
/// a non-RSA key rejects, a failed signature or unreadable claim set
/// (`rsa_claims` nothing) rejects, and a verified claim set is accepted as
/// its identity exactly when `claims_ok` holds. Every failure is the single
/// indistinguishable `Unauthorized`.
pub fn parse_jwt(token: &String, keys: &KeySet, config: &Auth0Config, now: u64) -> (r: Result<
    User,
    Error,
>)
    ensures
        jwt_kid(token@) is None ==> r == Result::<User, Error>::Err(Error::Unauthorized),
        jwt_kid(token@) matches Some(k) && !has_kid(keys.keys@, k) ==> r == Result::<
            User,
            Error,
        >::Err(Error::Unauthorized),
        jwt_kid(token@) matches Some(k) && has_kid(keys.keys@, k) ==> {
            let key = keys.keys@[first_kid_index(keys.keys@, jwt_kid(token@).unwrap())];
            if !key.is_rsa {
                r == Result::<User, Error>::Err(Error::Unauthorized)
            } else {
                match rsa_claims(token@, key.modulus@, key.exponent@) {
                    None => r == Result::<User, Error>::Err(Error::Unauthorized),
                    Some(c) => if claims_ok(c, config.client_id@, config.domain@, now) {
                        r == Result::<User, Error>::Ok(
                            (User { id: c.sub, name: c.name, email: c.email }),
                        )
                    } else {
                        r == Result::<User, Error>::Err(Error::Unauthorized)
                    },
                }
            }
        },
        r is Err ==> r == Result::<User, Error>::Err(Error::Unauthorized),
{
    let kid = match decode_header_kid(token.as_str()) {
        Some(k) => k,
        None => {
            return Err(Error::Unauthorized);
        },
    };
    let idx = match keys.find(&kid) {
        Some(i) => i,
        None => {
            return Err(Error::Unauthorized);
        },
    };
    proof {
        lemma_first_kid_index(keys.keys@, kid@, idx as int);
    }
    let key = &keys.keys[idx];
    if !key.is_rsa {
        return Err(Error::Unauthorized);
    }
    let claims = match verified_claims(
        token.as_str(),
        key.modulus.as_str(),
        key.exponent.as_str(),
    ) {
        Some(c) => c,
        None => {
            return Err(Error::Unauthorized);
        },
    };
    accept_claims(&claims, &config.client_id, &config.domain, now)
}

} // verus!
