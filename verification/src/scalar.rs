//! Scalars: the integers modulo the order of the group, each held as its
//! canonical 32-byte little-endian encoding.

use vstd::prelude::*;

verus! {

/// The order of the group: the prime 2^252 + 27742317777372353535851937790883648493.
pub open spec fn group_order() -> nat {
    0x1000000000000000000000000000000014def9dea2f79cd65812631a5cf5d3ednat
}

/// The number that `bytes` writes, least significant byte first.
pub open spec fn le_value(bytes: Seq<u8>) -> nat
    decreases bytes.len(),
{
    if bytes.len() == 0 {
        0
    } else {
        bytes[0] as nat + 256 * le_value(bytes.drop_first())
    }
}

/// The `len` least significant bytes of `value`, least significant first.
pub open spec fn le_bytes(value: nat, len: nat) -> Seq<u8>
    decreases len,
{
    if len == 0 {
        Seq::empty()
    } else {
        seq![(value % 256) as u8] + le_bytes(value / 256, (len - 1) as nat)
    }
}

/// 256 to the power `len`: the number of byte strings of that length.
pub open spec fn radix_power(len: nat) -> nat
    decreases len,
{
    if len == 0 {
        1
    } else {
        256 * radix_power((len - 1) as nat)
    }
}

/// Writing the value of a byte string in as many bytes gives the string back.
pub proof fn lemma_le_bytes_of_value(bytes: Seq<u8>)
    ensures
        le_bytes(le_value(bytes), bytes.len()) == bytes,
    decreases bytes.len(),
{
    if bytes.len() > 0 {
        let rest = bytes.drop_first();
        lemma_le_bytes_of_value(rest);
        let v = le_value(bytes);
        assert(v % 256 == bytes[0] as nat && v / 256 == le_value(rest)) by {
            vstd::arithmetic::div_mod::lemma_fundamental_div_mod_converse(
                v as int,
                256,
                le_value(rest) as int,
                bytes[0] as int,
            );
        }
        assert(le_bytes(v, bytes.len()) =~= bytes);
    } else {
        assert(le_bytes(le_value(bytes), bytes.len()) =~= bytes);
    }
}

/// A number that fits in `len` bytes is the value of its `len` bytes.
pub proof fn lemma_le_value_of_bytes(value: nat, len: nat)
    ensures
        le_bytes(value, len).len() == len,
        value < radix_power(len) ==> le_value(le_bytes(value, len)) == value,
    decreases len,
{
    if len > 0 {
        lemma_le_value_of_bytes(value / 256, (len - 1) as nat);
        let written = le_bytes(value, len);
        assert(written.drop_first() =~= le_bytes(value / 256, (len - 1) as nat));
        assert(value == 256 * (value / 256) + value % 256) by {
            vstd::arithmetic::div_mod::lemma_fundamental_div_mod(value as int, 256);
        }
    }
}

/// Byte strings of one length with one value are the same string.
pub proof fn lemma_le_value_injective(a: Seq<u8>, b: Seq<u8>)
    requires
        a.len() == b.len(),
        le_value(a) == le_value(b),
    ensures
        a == b,
{
    lemma_le_bytes_of_value(a);
    lemma_le_bytes_of_value(b);
}

/// A string of zero bytes has the value zero.
pub proof fn lemma_le_value_zero(bytes: Seq<u8>)
    requires
        forall|i: int| 0 <= i < bytes.len() ==> bytes[i] == 0,
    ensures
        le_value(bytes) == 0,
    decreases bytes.len(),
{
    if bytes.len() > 0 {
        lemma_le_value_zero(bytes.drop_first());
    }
}

/// Every number below the group's order fits in 32 bytes.
pub proof fn lemma_order_fits()
    ensures
        group_order() < radix_power(32),
{
    reveal_with_fuel(radix_power, 33);
}

/// Reading inverts writing: the 32 bytes written for a reduced scalar give
/// that scalar back.
pub proof fn lemma_scalar_bytes_round_trip(value: nat)
    requires
        value < group_order(),
    ensures
        le_bytes(value, 32).len() == 32,
        le_value(le_bytes(value, 32)) % group_order() == value,
{
    lemma_order_fits();
    lemma_le_value_of_bytes(value, 32);
    vstd::arithmetic::div_mod::lemma_small_mod(value, group_order());
}

/// The scalar that curve25519-dalek's `Scalar::hash_from_bytes`, with SHA-512
/// of the sha2 crate as the hash, derives from a seed.
pub uninterp spec fn sha512_scalar(seed: Seq<u8>) -> nat;

/// Calls `Scalar::from_bytes_mod_order` and takes the result's bytes.
/// Trusted: they write, least significant byte first, the 256-bit number of
/// the input reduced modulo the group's order.
#[verifier::external_body]
fn reduce_bytes(bytes: &[u8; 32]) -> (reduced: [u8; 32])
    ensures
        le_value(reduced@) == le_value(bytes@) % group_order(),
{
    curve25519_dalek::scalar::Scalar::from_bytes_mod_order(*bytes).to_bytes()
}

/// Adds two `Scalar`s with `+` and takes the result's bytes. Trusted: the
/// arithmetic of reduced scalars is that of the integers modulo the group's
/// order, and the bytes are the canonical encoding of the sum.
#[verifier::external_body]
fn sum_bytes(a: &[u8; 32], b: &[u8; 32]) -> (sum: [u8; 32])
    requires
        le_value(a@) < group_order(),
        le_value(b@) < group_order(),
    ensures
        le_value(sum@) == (le_value(a@) + le_value(b@)) % group_order(),
{
    let a = curve25519_dalek::scalar::Scalar::from_bytes_mod_order(*a);
    let b = curve25519_dalek::scalar::Scalar::from_bytes_mod_order(*b);
    (a + b).to_bytes()
}

/// Multiplies two `Scalar`s with `*` and takes the result's bytes. Trusted:
/// the arithmetic of reduced scalars is that of the integers modulo the
/// group's order, and the bytes are the canonical encoding of the product.
#[verifier::external_body]
fn product_bytes(a: &[u8; 32], b: &[u8; 32]) -> (product: [u8; 32])
    requires
        le_value(a@) < group_order(),
        le_value(b@) < group_order(),
    ensures
        le_value(product@) == (le_value(a@) * le_value(b@)) % group_order(),
{
    let a = curve25519_dalek::scalar::Scalar::from_bytes_mod_order(*a);
    let b = curve25519_dalek::scalar::Scalar::from_bytes_mod_order(*b);
    (a * b).to_bytes()
}

/// Calls `Scalar::hash_from_bytes` with `sha2::Sha512` and takes the result's
/// bytes. Trusted: the result depends on the seed alone, so it has the name
/// `sha512_scalar`, and it is reduced.
#[verifier::external_body]
fn hash_bytes(seed: &[u8]) -> (hashed: [u8; 32])
    ensures
        le_value(hashed@) == sha512_scalar(seed@),
        le_value(hashed@) < group_order(),
{
    curve25519_dalek::scalar::Scalar::hash_from_bytes::<sha2::Sha512>(seed).to_bytes()
}

/// Calls `Scalar::random` on `rand::rngs::OsRng` and takes the result's
/// bytes. Trusted: whatever is drawn is a reduced scalar; nothing is said of
/// which one.
#[verifier::external_body]
fn random_bytes() -> (sampled: [u8; 32])
    ensures
        le_value(sampled@) < group_order(),
{
    curve25519_dalek::scalar::Scalar::random(&mut rand::rngs::OsRng).to_bytes()
}

/// An integer modulo the group's order.
#[derive(Clone, Copy, Debug)]
pub struct Scalar {
    bytes: [u8; 32],
}

impl View for Scalar {
    type V = nat;

    /// The integer, below the group's order.
    closed spec fn view(&self) -> nat {
        le_value(self.bytes@)
    }
}

impl Scalar {
    /// The encoding held is the canonical one.
    #[verifier::type_invariant]
    pub closed spec fn reduced(self) -> bool {
        le_value(self.bytes@) < group_order()
    }

    /// A reduced scalar is below the group's order.
    pub proof fn lemma_reduced(self)
        requires
            self.reduced(),
        ensures
            self@ < group_order(),
    {
    }

    /// The scalar zero.
    pub fn zero() -> (scalar: Scalar)
        ensures
            scalar@ == 0,
    {
        let bytes = [0u8; 32];
        proof {
            lemma_le_value_zero(bytes@);
        }
        Scalar { bytes }
    }

    /// The scalar that the 256-bit number `bytes` is congruent to.
    pub fn from_bytes_mod_order(bytes: [u8; 32]) -> (scalar: Scalar)
        ensures
            scalar@ == le_value(bytes@) % group_order(),
    {
        Scalar { bytes: reduce_bytes(&bytes) }
    }

    /// The canonical encoding: 32 bytes, least significant first.
    pub fn to_bytes(&self) -> (bytes: [u8; 32])
        ensures
            bytes@ == le_bytes(self@, 32),
            self@ < group_order(),
    {
        proof {
            use_type_invariant(self);
            lemma_le_bytes_of_value(self.bytes@);
        }
        self.bytes
    }

    /// The scalar derived from a seed by SHA-512 and reduction.
    pub fn hash_from_bytes(seed: &[u8]) -> (scalar: Scalar)
        ensures
            scalar@ == sha512_scalar(seed@),
            scalar@ < group_order(),
    {
        Scalar { bytes: hash_bytes(seed) }
    }

    /// A scalar drawn from the operating system's secure generator.
    pub fn random() -> (scalar: Scalar)
        ensures
            scalar@ < group_order(),
    {
        Scalar { bytes: random_bytes() }
    }

    /// The sum modulo the group's order.
    pub fn plus(&self, other: &Scalar) -> (sum: Scalar)
        ensures
            sum@ == (self@ + other@) % group_order(),
    {
        proof {
            use_type_invariant(self);
            use_type_invariant(other);
        }
        Scalar { bytes: sum_bytes(&self.bytes, &other.bytes) }
    }

    /// The product modulo the group's order.
    pub fn times(&self, other: &Scalar) -> (product: Scalar)
        ensures
            product@ == (self@ * other@) % group_order(),
    {
        proof {
            use_type_invariant(self);
            use_type_invariant(other);
        }
        Scalar { bytes: product_bytes(&self.bytes, &other.bytes) }
    }
}

} // verus!
