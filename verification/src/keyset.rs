//! The provider's signing-key set: a model of the key-set document the
//! identity provider publishes, and resolution of a key by its identifier.
//! Fetching the document is the caller's business; turning its text into a
//! `KeySet` and picking the right key happen here.

use vstd::prelude::*;
use crate::errors::TokenValidationError;
use crate::strutil::{opt_str_view, str_eq};

verus! {

/// The RSA public material of one published key, as the provider encodes it
/// (base64url modulus and exponent).
pub ghost struct RsaComponentsView {
    pub n: Seq<char>,
    pub e: Seq<char>,
}

/// What one published key holds: its optional key id, and its RSA components
/// when its algorithm family is RSA.
pub ghost struct JwkView {
    pub kid: Option<Seq<char>>,
    pub rsa: Option<RsaComponentsView>,
}

/// The algorithm-specific part of one published key. Families other than RSA
/// are carried only far enough to be rejected.
pub enum JwkAlg {
    Rsa { n: String, e: String },
    Other,
}

/// One key of the provider's key set.
pub struct Jwk {
    pub kid: Option<String>,
    pub alg: JwkAlg,
}

impl View for Jwk {
    type V = JwkView;

    open spec fn view(&self) -> JwkView {
        JwkView {
            kid: opt_str_view(self.kid),
            rsa: match self.alg {
                JwkAlg::Rsa { n, e } => Some(RsaComponentsView { n: n@, e: e@ }),
                JwkAlg::Other => None,
            },
        }
    }
}

/// The provider's current key set.
pub struct KeySet {
    pub keys: Vec<Jwk>,
}

impl View for KeySet {
    type V = Seq<JwkView>;

    open spec fn view(&self) -> Seq<JwkView> {
        self.keys@.map_values(|k: Jwk| k@)
    }
}

/// An RSA signing key resolved from the key set, ready for signature
/// verification.
#[derive(Debug)]
pub struct SigningKey {
    pub n: String,
    pub e: String,
}

/// What parsing a key-set document yields: a function of the document text
/// alone. `None` stands for text that is not a key-set document.
pub uninterp spec fn jwks_of(body: Seq<char>) -> Option<Seq<JwkView>>;

/// Relies on serde_json together with jsonwebtoken's key-set type: the
/// document text is deserialized as a standard key-set document, and each
/// key's id and RSA components are carried over unchanged; keys of other
/// algorithm families are kept only far enough to be rejected. The outcome
/// is a function of the text alone.
#[verifier::external_body]
pub(crate) fn parse_jwk_set(body: &str) -> (r: Result<KeySet, ()>)
    ensures
        match r {
            Ok(ks) => jwks_of(body@) == Some(ks@),
            Err(_) => jwks_of(body@) is None,
        },
{
    let set: jsonwebtoken::jwk::JwkSet = match serde_json::from_str(body) {
        Ok(s) => s,
        Err(_) => return Err(()),
    };
    let mut keys = Vec::new();
    for k in set.keys {
        let kid = k.common.key_id;
        let alg = match k.algorithm {
            jsonwebtoken::jwk::AlgorithmParameters::RSA(p) => JwkAlg::Rsa { n: p.n, e: p.e },
            _ => JwkAlg::Other,
        };
        keys.push(Jwk { kid, alg });
    }
    Ok(KeySet { keys })
}

/// The first key of the set carrying the requested key id, if any: keys
/// without an id never match.
pub open spec fn find_key(keys: Seq<JwkView>, kid: Seq<char>) -> Option<JwkView>
    decreases keys.len(),
{
    if keys.len() == 0 {
        None
    } else if keys[0].kid == Some(kid) {
        Some(keys[0])
    } else {
        find_key(keys.drop_first(), kid)
    }
}

/// What resolving `kid` against a key set yields: the RSA components of the
/// first matching key, `UnknownKey` when none matches, and
/// `UnsupportedKeyAlgorithm` when the matching key is not an RSA key.
pub open spec fn resolve_spec(keys: Seq<JwkView>, kid: Seq<char>) -> Result<
    RsaComponentsView,
    TokenValidationError,
> {
    match find_key(keys, kid) {
        None => Err(TokenValidationError::UnknownKey),
        Some(k) => match k.rsa {
            None => Err(TokenValidationError::UnsupportedKeyAlgorithm),
            Some(c) => Ok(c),
        },
    }
}

proof fn lemma_find_key_step(keys: Seq<JwkView>, kid: Seq<char>, i: int)
    requires
        0 <= i <= keys.len(),
        forall|j: int| 0 <= j < i ==> keys[j].kid != Some(kid),
    ensures
        find_key(keys, kid) == find_key(keys.subrange(i, keys.len() as int), kid),
    decreases i,
{
    if i == 0 {
        assert(keys.subrange(0, keys.len() as int) =~= keys);
    } else {
        assert(keys.drop_first() =~= keys.subrange(1, keys.len() as int));
        assert(forall|j: int|
            0 <= j < i - 1 ==> keys.subrange(1, keys.len() as int)[j].kid != Some(kid));
        lemma_find_key_step(keys.subrange(1, keys.len() as int), kid, i - 1);
        assert(keys.subrange(1, keys.len() as int).subrange(i - 1, keys.len() - 1) =~= keys.subrange(
            i,
            keys.len() as int,
        ));
    }
}

impl KeySet {
    /// Resolves a key id against this set, exactly as `resolve_spec` says:
    /// the first key with the requested id wins; a set without that id fails
    /// `UnknownKey`; a matching key of another algorithm family fails
    /// `UnsupportedKeyAlgorithm`.
    pub fn resolve(&self, kid: &str) -> (r: Result<SigningKey, TokenValidationError>)
        ensures
            match resolve_spec(self@, kid@) {
                Ok(c) => r matches Ok(sk) && sk.n@ == c.n && sk.e@ == c.e,
                Err(e) => r == Err::<SigningKey, _>(e),
            },
    {
        let n_keys = self.keys.len();
        let mut i: usize = 0;
        while i < n_keys
            invariant
                0 <= i <= n_keys,
                n_keys == self.keys@.len(),
                self@.len() == self.keys@.len(),
                forall|j: int| 0 <= j < self@.len() ==> self@[j] == self.keys@[j]@,
                forall|j: int| 0 <= j < i ==> self@[j].kid != Some(kid@),
            decreases n_keys - i,
        {
            let k = &self.keys[i];
            let matches_kid = match &k.kid {
                Some(s) => str_eq(s.as_str(), kid),
                None => false,
            };
            if matches_kid {
                proof {
                    lemma_find_key_step(self@, kid@, i as int);
                    assert(self@.subrange(i as int, self@.len() as int)[0] == self@[i as int]);
                }
                match &k.alg {
                    JwkAlg::Rsa { n, e } => {
                        return Ok(SigningKey { n: n.clone(), e: e.clone() });
                    },
                    JwkAlg::Other => {
                        return Err(TokenValidationError::UnsupportedKeyAlgorithm);
                    },
                }
            }
            i = i + 1;
        }
        proof {
            lemma_find_key_step(self@, kid@, n_keys as int);
            assert(self@.subrange(n_keys as int, self@.len() as int).len() == 0);
        }
        Err(TokenValidationError::UnknownKey)
    }
}

} // verus!
