//! The key material cache: the identity provider's public signing keys,
//! fetched once at process start and read-only afterwards.
//!
//! Each key is held as the plain values the verifier reads: its identifier,
//! whether it is an RSA key, and the base64url RSA components.

use vstd::prelude::*;

verus! {

/// One public signing key of the identity provider.
#[derive(Clone, Debug)]
pub struct Key {
    pub kid: String,
    /// Whether the key is of the RSA family; only RSA keys can verify here.
    pub is_rsa: bool,
    /// The base64url-encoded RSA modulus, empty for a non-RSA key.
    pub modulus: String,
    /// The base64url-encoded RSA public exponent, empty for a non-RSA key.
    pub exponent: String,
}

/// Whether some key in the set carries the identifier `kid`.
pub open spec fn has_kid(keys: Seq<Key>, kid: Seq<char>) -> bool {
    exists|i: int| 0 <= i < keys.len() && keys[i].kid@ == kid
}

/// The index of the first key carrying the identifier `kid`; meaningful
/// when `has_kid` holds. Lookup uses the first match, as the provider's
/// published set is searched front to back.
pub open spec fn first_kid_index(keys: Seq<Key>, kid: Seq<char>) -> int
    decreases keys.len(),
{
    if keys.len() == 0 {
        0
    } else if keys[0].kid@ == kid {
        0
    } else {
        1 + first_kid_index(keys.drop_first(), kid)
    }
}

/// An index whose key matches `kid`, with no earlier match, is the first
/// matching index.
pub proof fn lemma_first_kid_index(keys: Seq<Key>, kid: Seq<char>, i: int)
    requires
        0 <= i < keys.len(),
        keys[i].kid@ == kid,
        forall|j: int| 0 <= j < i ==> keys[j].kid@ != kid,
    ensures
        first_kid_index(keys, kid) == i,
    decreases keys.len(),
{
    if i > 0 {
        assert(keys[0].kid@ != kid);
        assert(keys.drop_first()[i - 1] == keys[i]);
        assert forall|j: int| 0 <= j < i - 1 implies keys.drop_first()[j].kid@ != kid by {
            assert(keys.drop_first()[j] == keys[j + 1]);
        }
        lemma_first_kid_index(keys.drop_first(), kid, i - 1);
    }
}

/// The provider's current set of signing keys, keyed by identifier.
#[derive(Clone, Debug)]
pub struct KeySet {
    pub keys: Vec<Key>,
}

impl KeySet {
    pub fn new() -> (s: Self)
        ensures
            s.keys@ =~= Seq::<Key>::empty(),
    {
        Self { keys: Vec::new() }
    }

    pub fn push(&mut self, key: Key)
        ensures
            final (self).keys@ == old(self).keys@.push(key),
    {
        self.keys.push(key);
    }

    /// Looks a key up by identifier, returning the index of the first match.
    pub fn find(&self, kid: &String) -> (r: Option<usize>)
        ensures
            match r {
                Some(i) => i < self.keys@.len() && self.keys@[i as int].kid@ == kid@ && (forall|
                    k: int,
                |
                    0 <= k < i ==> self.keys@[k].kid@ != kid@),
                None => !has_kid(self.keys@, kid@),
            },
    {
        let n = self.keys.len();
        let mut i: usize = 0;
        while i < n
            invariant
                n == self.keys@.len(),
                i <= n,
                forall|k: int| 0 <= k < i ==> self.keys@[k].kid@ != kid@,
            decreases n - i,
        {
            if self.keys[i].kid.eq(kid) {
                return Some(i);
            }
            i += 1;
        }
        None
    }
}

} // verus!
