//! The prover's key pair: a secret scalar and the element it is the
//! discrete logarithm of.

use crate::group::{basepoint, ristretto_mul, GroupElement};
use crate::scalar::{group_order, sha512_scalar, Scalar};
use vstd::prelude::*;

verus! {

/// A secret scalar `x` with the public element `X = x·G`.
pub struct KeyPair {
    secret: Scalar,
    public: GroupElement,
}

/// What a key pair holds: the secret and the encoding of the public element.
pub ghost struct KeyPairView {
    pub secret: nat,
    pub public: Seq<u8>,
}

impl KeyPairView {
    /// The public element is the generator's multiple by the secret.
    pub open spec fn well_formed(self) -> bool {
        self.secret < group_order() && self.public == ristretto_mul(basepoint(), self.secret)
    }
}

impl View for KeyPair {
    type V = KeyPairView;

    closed spec fn view(&self) -> KeyPairView {
        KeyPairView { secret: self.secret@, public: self.public@ }
    }
}

impl KeyPair {
    /// The public element is the generator's multiple by the secret.
    #[verifier::type_invariant]
    pub closed spec fn consistent(self) -> bool {
        self.public@ == ristretto_mul(basepoint(), self.secret@)
    }

    /// The key pair of a secret.
    pub fn from_secret(secret: Scalar) -> (pair: KeyPair)
        ensures
            pair@.secret == secret@,
            pair@.well_formed(),
    {
        let public = GroupElement::generator().times(&secret);
        proof {
            use_type_invariant(&secret);
            secret.lemma_reduced();
        }
        KeyPair { secret, public }
    }

    /// The key pair whose secret is derived from a seed by hashing. A secret
    /// that anyone can derive from a known text protects nothing.
    pub fn from_seed(seed: &[u8]) -> (pair: KeyPair)
        ensures
            pair@.secret == sha512_scalar(seed@),
            pair@.well_formed(),
    {
        KeyPair::from_secret(Scalar::hash_from_bytes(seed))
    }

    /// The public element `X`.
    pub fn public(&self) -> (public: GroupElement)
        ensures
            public@ == self@.public,
            self@.well_formed(),
    {
        proof {
            use_type_invariant(self);
            use_type_invariant(&self.secret);
            self.secret.lemma_reduced();
        }
        self.public
    }

    /// The secret `x`, for the prover's own arithmetic.
    pub(crate) fn secret(&self) -> (secret: Scalar)
        ensures
            secret@ == self@.secret,
            self@.well_formed(),
    {
        proof {
            use_type_invariant(self);
            use_type_invariant(&self.secret);
            self.secret.lemma_reduced();
        }
        self.secret
    }
}

} // verus!
