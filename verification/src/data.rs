//! Configuration carriers and the CSRF state store.
//!
//! The store issues one-time anti-forgery tokens for the OAuth2 redirect
//! round trip: `add` records a fresh random token as outstanding, `check`
//! redeems a token by removing it, succeeding only if it was outstanding.

use vstd::prelude::*;
use vstd::string::*;

verus! {

/// Public and backend base URLs of the deployment.
#[derive(Clone, Debug)]
pub struct UrlConfig {
    pub backend: String,
    pub frontend: String,
}

/// Identity-provider client credentials and hostname.
#[derive(Clone, Debug)]
pub struct Auth0Config {
    pub client_id: String,
    pub client_secret: String,
    pub domain: String,
}

/// A character drawn from the alphanumeric token alphabet.
pub open spec fn is_alphanumeric_char(c: char) -> bool {
    ('a' <= c && c <= 'z') || ('A' <= c && c <= 'Z') || ('0' <= c && c <= '9')
}

/// Whether some outstanding token has exactly the characters `t`.
pub open spec fn has_token(tokens: Seq<String>, t: Seq<char>) -> bool {
    exists|i: int| 0 <= i < tokens.len() && tokens[i]@ == t
}

/// How many outstanding tokens have exactly the characters `t`.
pub open spec fn token_count(tokens: Seq<String>, t: Seq<char>) -> nat
    decreases tokens.len(),
{
    if tokens.len() == 0 {
        0
    } else {
        token_count(tokens.drop_last(), t) + (if tokens.last()@ == t {
            1nat
        } else {
            0nat
        })
    }
}

/// A token is present if and only if it is counted at least once.
pub proof fn lemma_has_token_count(tokens: Seq<String>, t: Seq<char>)
    ensures
        has_token(tokens, t) <==> token_count(tokens, t) > 0,
    decreases tokens.len(),
{
    if tokens.len() > 0 {
        lemma_has_token_count(tokens.drop_last(), t);
        if tokens.last()@ == t {
            assert(tokens[tokens.len() - 1]@ == t);
        } else {
            if has_token(tokens.drop_last(), t) {
                let i = choose|i: int|
                    0 <= i < tokens.drop_last().len() && tokens.drop_last()[i]@ == t;
                assert(tokens[i]@ == t);
            }
            if has_token(tokens, t) {
                let i = choose|i: int| 0 <= i < tokens.len() && tokens[i]@ == t;
                assert(i < tokens.len() - 1);
                assert(tokens.drop_last()[i]@ == t);
            }
        }
    }
}

/// Appending a token raises its own count by one and no other count.
pub proof fn lemma_count_push(tokens: Seq<String>, x: String, t: Seq<char>)
    ensures
        token_count(tokens.push(x), t) == token_count(tokens, t) + (if x@ == t {
            1nat
        } else {
            0nat
        }),
{
    assert(tokens.push(x).drop_last() =~= tokens);
    assert(tokens.push(x).last() == x);
}

/// Removing the entry at `j` lowers the count of its characters by one and
/// leaves every other count unchanged.
pub proof fn lemma_count_remove(tokens: Seq<String>, j: int, t: Seq<char>)
    requires
        0 <= j < tokens.len(),
    ensures
        token_count(tokens, t) == token_count(tokens.remove(j), t) + (if tokens[j]@ == t {
            1nat
        } else {
            0nat
        }),
    decreases tokens.len(),
{
    if j == tokens.len() - 1 {
        assert(tokens.remove(j) =~= tokens.drop_last());
    } else {
        assert(tokens.remove(j).drop_last() =~= tokens.drop_last().remove(j));
        assert(tokens.remove(j).last() == tokens.last());
        lemma_count_remove(tokens.drop_last(), j, t);
    }
}

/// The in-memory set of outstanding CSRF state tokens.
#[derive(Clone, Debug)]
pub struct States {
    inner: Vec<String>,
}

impl States {
    /// The outstanding tokens, in order of issue.
    pub closed spec fn tokens(&self) -> Seq<String> {
        self.inner@
    }

    pub fn new() -> (s: Self)
        ensures
            s.tokens() =~= Seq::<String>::empty(),
    {
        Self { inner: Vec::new() }
    }

    /// Issues a fresh random token and records it as outstanding.
    pub fn add(&mut self) -> (state: String)
        ensures
            final (self).tokens() == old(self).tokens().push(state),
            state@.len() == 10,
            forall|k: int| 0 <= k < state@.len() ==> is_alphanumeric_char(#[trigger] state@[k]),
            forall|t: Seq<char>|
                #[trigger] token_count(final (self).tokens(), t) == token_count(
                    old(self).tokens(),
                    t,
                ) + (if state@ == t {
                    1nat
                } else {
                    0nat
                }),
    {
        let mut rng = fresh_rng();
        let mut state = String::new();
        let mut i: usize = 0;
        while i < 10
            invariant
                self == old(self),
                state@.len() == i,
                i <= 10,
                forall|k: int| 0 <= k < state@.len() ==> is_alphanumeric_char(#[trigger] state@[k]),
            decreases 10 - i,
        {
            let c = sample_alphanumeric(&mut rng);
            state.append(c.as_str());
            i += 1;
        }
        self.inner.push(state.clone());
        proof {
            assert forall|t: Seq<char>|
                #[trigger] token_count(self.tokens(), t) == token_count(old(self).tokens(), t) + (
                if state@ == t {
                    1nat
                } else {
                    0nat
                }) by {
                lemma_count_push(old(self).tokens(), state, t);
            }
        }
        state
    }

    /// Redeems a token: succeeds and removes its first outstanding occurrence
    /// if one exists; fails and changes nothing otherwise, including for a
    /// token that was already redeemed or never issued.
    pub fn check(&mut self, state: &String) -> (r: bool)
        ensures
            r == has_token(old(self).tokens(), state@),
            !r ==> final (self).tokens() == old(self).tokens(),
            forall|t: Seq<char>|
                #[trigger] token_count(old(self).tokens(), t) == token_count(
                    final (self).tokens(),
                    t,
                ) + (if r && t == state@ {
                    1nat
                } else {
                    0nat
                }),
    {
        let n = self.inner.len();
        let mut i: usize = 0;
        while i < n
            invariant
                self == old(self),
                n == self.inner.len(),
                i <= n,
                forall|k: int| 0 <= k < i ==> old(self).tokens()[k]@ != state@,
            decreases n - i,
        {
            if self.inner[i].eq(state) {
                proof {
                    assert(old(self).tokens()[i as int]@ == state@);
                    assert(has_token(old(self).tokens(), state@));
                }
                self.inner.remove(i);
                proof {
                    assert forall|t: Seq<char>|
                        #[trigger] token_count(old(self).tokens(), t) == token_count(
                            self.tokens(),
                            t,
                        ) + (if t == state@ {
                            1nat
                        } else {
                            0nat
                        }) by {
                        lemma_count_remove(old(self).tokens(), i as int, t);
                    }
                }
                return true;
            }
            i += 1;
        }
        proof {
            assert(!has_token(old(self).tokens(), state@));
        }
        false
    }
}

/// One-time redemption: a token outstanding exactly once can be redeemed, and
/// once its occurrence is removed it is no longer outstanding, so a second
/// redemption of the same token fails.
pub proof fn lemma_redeem_exactly_once(before: Seq<String>, after: Seq<String>, t: Seq<char>)
    requires
        token_count(before, t) == 1,
        token_count(before, t) == token_count(after, t) + 1,
    ensures
        has_token(before, t),
        !has_token(after, t),
{
    lemma_has_token_count(before, t);
    lemma_has_token_count(after, t);
}

/// A token never issued is never outstanding: issuing other tokens does not
/// make `t` outstanding, so redeeming `t` fails.
pub proof fn lemma_never_issued_never_redeems(before: Seq<String>, after: Seq<String>, t: Seq<char>)
    requires
        token_count(before, t) == 0,
        token_count(after, t) <= token_count(before, t),
    ensures
        !has_token(after, t),
{
    lemma_has_token_count(after, t);
}

/// Relies on rand::thread_rng: a handle to the thread-local random generator.
#[verifier::external_body]
fn fresh_rng() -> rand::rngs::ThreadRng {
    rand::thread_rng()
}

#[verifier::external_type_specification]
#[verifier::external_body]
pub struct ExThreadRng(rand::rngs::ThreadRng);

/// Relies on Rng::sample with rand::distributions::Alphanumeric: one random
/// character drawn from A-Z, a-z, 0-9. Nothing is assumed of which character
/// comes back beyond its alphabet.
#[verifier::external_body]
fn sample_alphanumeric(rng: &mut rand::rngs::ThreadRng) -> (s: String)
    ensures
        s@.len() == 1,
        is_alphanumeric_char(s@[0]),
{
    let c = rand::Rng::sample(rng, rand::distributions::Alphanumeric) as char;
    c.to_string()
}

} // verus!
