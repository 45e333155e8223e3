//! Elements of the Ristretto group, each held as its canonical 32-byte
//! encoding.

use crate::scalar::{group_order, le_value, lemma_le_value_of_bytes, lemma_order_fits, Scalar};
use vstd::prelude::*;

verus! {

/// Whether `CompressedRistretto::decompress` of curve25519-dalek accepts an
/// encoding: whether it is the canonical encoding of an element.
pub uninterp spec fn ristretto_valid(encoding: Seq<u8>) -> bool;

/// The encoding of the sum, by curve25519-dalek's `+` on `RistrettoPoint`, of
/// the elements that `p` and `q` encode.
pub uninterp spec fn ristretto_add(p: Seq<u8>, q: Seq<u8>) -> Seq<u8>;

/// The encoding of the multiple, by curve25519-dalek's `*` of a
/// `RistrettoPoint` and a `Scalar`, of the element that `p` encodes.
pub uninterp spec fn ristretto_mul(p: Seq<u8>, scalar: nat) -> Seq<u8>;

/// The encoding of the generator that the group is used with: the Ristretto
/// basepoint.
pub open spec fn basepoint() -> Seq<u8> {
    seq![
        0xe2u8, 0xf2, 0xae, 0x0a, 0x6a, 0xbc, 0x4e, 0x71, 0xa8, 0x84, 0xa9, 0x61, 0xc5, 0x00, 0x51, 0x5f,
        0x58, 0xe3, 0x0b, 0x6a, 0xa5, 0x82, 0xdd, 0x8d, 0xb6, 0xa6, 0x59, 0x45, 0xe0, 0x8d, 0x2d, 0x76,
    ]
}

/// No two scalars give the same multiple of `point`.
pub open spec fn multiples_differ(point: Seq<u8>) -> bool {
    forall|m: nat, n: nat|
        m < group_order() && n < group_order() && #[trigger] ristretto_mul(point, m)
            == #[trigger] ristretto_mul(point, n) ==> m == n
}

/// Where `p` and `q` are multiples of one element, `sum` is the multiple of
/// that element by the sum of their factors.
pub open spec fn adds_factors(p: Seq<u8>, q: Seq<u8>, sum: Seq<u8>) -> bool {
    forall|base: Seq<u8>, m: nat, n: nat|
        ristretto_valid(base) && m < group_order() && n < group_order() && p
            == #[trigger] ristretto_mul(base, m) && q == #[trigger] ristretto_mul(base, n) ==> sum
            == ristretto_mul(base, (m + n) % group_order())
}

/// Where `p` is a multiple of an element, `product` is the multiple of that
/// element by the product of the two factors.
pub open spec fn multiplies_factors(p: Seq<u8>, scalar: nat, product: Seq<u8>) -> bool {
    forall|base: Seq<u8>, m: nat|
        ristretto_valid(base) && m < group_order() && p == #[trigger] ristretto_mul(base, m)
            ==> product == ristretto_mul(base, (m * scalar) % group_order())
}

/// Calls `CompressedRistretto::decompress`, which returns an element exactly
/// for the canonical encoding of one. Trusted: the answer is a function of
/// the bytes, named `ristretto_valid`.
#[verifier::external_body]
fn decodes(encoding: &[u8; 32]) -> (valid: bool)
    ensures
        valid == ristretto_valid(encoding@),
{
    curve25519_dalek::ristretto::CompressedRistretto(*encoding).decompress().is_some()
}

/// Reads the constant `RISTRETTO_BASEPOINT_COMPRESSED`. Trusted: it holds the
/// 32 bytes written in `basepoint`; they encode an element; and, the
/// basepoint having the prime order of the group, its multiples by the
/// scalars below that order are all different.
#[verifier::external_body]
fn basepoint_bytes() -> (encoding: [u8; 32])
    ensures
        encoding@ == basepoint(),
        ristretto_valid(encoding@),
        multiples_differ(encoding@),
{
    curve25519_dalek::constants::RISTRETTO_BASEPOINT_COMPRESSED.to_bytes()
}

/// Decompresses both encodings, adds the two `RistrettoPoint`s with `+` and
/// compresses the sum. Trusted: the result is a function of the two
/// encodings, named `ristretto_add`; it is again the canonical encoding of an
/// element; and, the group being of prime order with the scalars as the
/// integers modulo that order, `m·B + n·B = ((m + n) mod order)·B` for every
/// element `B`.
#[verifier::external_body]
fn add_bytes(p: &[u8; 32], q: &[u8; 32]) -> (sum: [u8; 32])
    requires
        ristretto_valid(p@),
        ristretto_valid(q@),
    ensures
        sum@ == ristretto_add(p@, q@),
        ristretto_valid(sum@),
        adds_factors(p@, q@, sum@),
{
    let p = curve25519_dalek::ristretto::CompressedRistretto(*p).decompress().unwrap();
    let q = curve25519_dalek::ristretto::CompressedRistretto(*q).decompress().unwrap();
    (p + q).compress().to_bytes()
}

/// Decompresses the encoding, multiplies the `RistrettoPoint` by the `Scalar`
/// with `*` and compresses the multiple. Trusted: the result is a function of
/// the encoding and the scalar, named `ristretto_mul`; it is again the
/// canonical encoding of an element; and, for the same reason as with the
/// sum, `s·(m·B) = ((m · s) mod order)·B` for every element `B`.
#[verifier::external_body]
fn mul_bytes(p: &[u8; 32], scalar: &[u8; 32]) -> (product: [u8; 32])
    requires
        ristretto_valid(p@),
        le_value(scalar@) < group_order(),
    ensures
        product@ == ristretto_mul(p@, le_value(scalar@)),
        ristretto_valid(product@),
        multiplies_factors(p@, le_value(scalar@), product@),
{
    let p = curve25519_dalek::ristretto::CompressedRistretto(*p).decompress().unwrap();
    let scalar = curve25519_dalek::scalar::Scalar::from_bytes_mod_order(*scalar);
    (p * scalar).compress().to_bytes()
}

/// An element of the group.
#[derive(Clone, Copy, Debug)]
pub struct GroupElement {
    bytes: [u8; 32],
}

impl View for GroupElement {
    type V = Seq<u8>;

    /// The canonical encoding.
    closed spec fn view(&self) -> Seq<u8> {
        self.bytes@
    }
}

impl GroupElement {
    /// The bytes held are the canonical encoding of an element.
    #[verifier::type_invariant]
    pub closed spec fn valid(self) -> bool {
        ristretto_valid(self.bytes@)
    }

    /// What is held is a canonical encoding of 32 bytes.
    pub proof fn lemma_valid(self)
        requires
            self.valid(),
        ensures
            self@.len() == 32,
            ristretto_valid(self@),
    {
    }

    /// The element that `bytes` encodes, if they encode one.
    pub fn from_bytes(bytes: [u8; 32]) -> (decoded: Option<GroupElement>)
        ensures
            decoded is Some <==> ristretto_valid(bytes@),
            decoded matches Some(element) ==> element@ == bytes@,
    {
        if decodes(&bytes) {
            Some(GroupElement { bytes })
        } else {
            None
        }
    }

    /// The canonical encoding.
    pub fn to_bytes(&self) -> (bytes: [u8; 32])
        ensures
            bytes@ == self@,
            ristretto_valid(self@),
    {
        proof {
            use_type_invariant(self);
        }
        self.bytes
    }

    /// The generator.
    pub fn generator() -> (g: GroupElement)
        ensures
            g@ == basepoint(),
            ristretto_valid(basepoint()),
            multiples_differ(basepoint()),
    {
        GroupElement { bytes: basepoint_bytes() }
    }

    /// The sum of two elements.
    pub fn plus(&self, other: &GroupElement) -> (sum: GroupElement)
        ensures
            sum@ == ristretto_add(self@, other@),
            ristretto_valid(sum@),
            adds_factors(self@, other@, sum@),
    {
        proof {
            use_type_invariant(self);
            use_type_invariant(other);
        }
        GroupElement { bytes: add_bytes(&self.bytes, &other.bytes) }
    }

    /// The multiple of an element by a scalar.
    pub fn times(&self, scalar: &Scalar) -> (product: GroupElement)
        ensures
            product@ == ristretto_mul(self@, scalar@),
            ristretto_valid(product@),
            multiplies_factors(self@, scalar@, product@),
    {
        proof {
            use_type_invariant(self);
        }
        let factor = scalar.to_bytes();
        proof {
            lemma_order_fits();
            lemma_le_value_of_bytes(scalar@, 32);
        }
        GroupElement { bytes: mul_bytes(&self.bytes, &factor) }
    }

    /// Whether two elements are the same, which they are exactly when their
    /// encodings are.
    pub fn same(&self, other: &GroupElement) -> (equal: bool)
        ensures
            equal == (self@ == other@),
    {
        let mut i: usize = 0;
        while i < 32
            invariant
                i <= 32,
                forall|j: int| 0 <= j < i ==> self.bytes@[j] == other.bytes@[j],
            decreases 32 - i,
        {
            if self.bytes[i] != other.bytes[i] {
                return false;
            }
            i += 1;
        }
        assert(self.bytes@ =~= other.bytes@);
        true
    }
}

} // verus!
