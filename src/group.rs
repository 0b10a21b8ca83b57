use vstd::prelude::*;
use curve25519_dalek::ristretto::{CompressedRistretto, RistrettoPoint};
use curve25519_dalek::scalar::Scalar;
use sha2::{Digest, Sha512};
use crate::error::OprfError;

verus! {

/// The length of an encoded group element.
pub const ELEMENT_LEN: usize = 32;

/// Whether 32 bytes are the canonical encoding of a ristretto255 point.
pub uninterp spec fn ristretto_decodes(b: Seq<u8>) -> bool;

/// The encoding of `k * P`, for the scalar `k mod l` and the point `P` that `p` encodes.
pub uninterp spec fn ristretto_mul_of(k: Seq<u8>, p: Seq<u8>) -> Seq<u8>;

/// The encoding of `k * B`, for the ristretto255 base point `B`.
pub uninterp spec fn ristretto_base_mul_of(k: Seq<u8>) -> Seq<u8>;

/// The encoding of the sum of two points.
pub uninterp spec fn ristretto_add_of(a: Seq<u8>, b: Seq<u8>) -> Seq<u8>;

/// The encoding of the point that SHA-512 and Elligator map a message to.
pub uninterp spec fn ristretto_hash_of(m: Seq<u8>) -> Seq<u8>;

/// The SHA-512 digest of a message.
pub uninterp spec fn sha512_of(m: Seq<u8>) -> Seq<u8>;

/// Relies on CompressedRistretto::decompress: whether 32 bytes are the
/// canonical encoding of a point.
#[verifier::external_body]
pub(crate) fn point_is_valid(b: &[u8]) -> (r: bool)
    requires
        b@.len() == 32,
    ensures
        r == ristretto_decodes(b@),
{
    let a: [u8; 32] = b.try_into().unwrap();
    CompressedRistretto(a).decompress().is_some()
}

/// Relies on Scalar * RistrettoPoint; the result is compressed, so it is the
/// canonical encoding of a point.
#[verifier::external_body]
pub(crate) fn point_mul(k: &[u8], p: &[u8]) -> (r: Vec<u8>)
    requires
        k@.len() == 32,
        p@.len() == 32,
        ristretto_decodes(p@),
    ensures
        r@ == ristretto_mul_of(k@, p@),
        r@.len() == 32,
        ristretto_decodes(r@),
{
    let s = Scalar::from_bytes_mod_order(k.try_into().unwrap());
    let q = CompressedRistretto(p.try_into().unwrap()).decompress().unwrap();
    (&s * &q).compress().to_bytes().to_vec()
}

/// Relies on RistrettoPoint::mul_base: the base point times a scalar.
#[verifier::external_body]
pub(crate) fn point_base_mul(k: &[u8]) -> (r: Vec<u8>)
    requires
        k@.len() == 32,
    ensures
        r@ == ristretto_base_mul_of(k@),
        r@.len() == 32,
        ristretto_decodes(r@),
{
    let s = Scalar::from_bytes_mod_order(k.try_into().unwrap());
    RistrettoPoint::mul_base(&s).compress().to_bytes().to_vec()
}

/// Relies on RistrettoPoint + RistrettoPoint.
#[verifier::external_body]
pub(crate) fn point_add(a: &[u8], b: &[u8]) -> (r: Vec<u8>)
    requires
        a@.len() == 32,
        b@.len() == 32,
        ristretto_decodes(a@),
        ristretto_decodes(b@),
    ensures
        r@ == ristretto_add_of(a@, b@),
        r@.len() == 32,
        ristretto_decodes(r@),
{
    let x = CompressedRistretto(a.try_into().unwrap()).decompress().unwrap();
    let y = CompressedRistretto(b.try_into().unwrap()).decompress().unwrap();
    (&x + &y).compress().to_bytes().to_vec()
}

/// Relies on RistrettoPoint::hash_from_bytes with SHA-512: a message mapped
/// to a point.
#[verifier::external_body]
pub(crate) fn point_from_hash(m: &[u8]) -> (r: Vec<u8>)
    ensures
        r@ == ristretto_hash_of(m@),
        r@.len() == 32,
        ristretto_decodes(r@),
{
    RistrettoPoint::hash_from_bytes::<Sha512>(m).compress().to_bytes().to_vec()
}

/// Relies on sha2::Sha512::digest: the 64-byte digest of a message.
#[verifier::external_body]
pub(crate) fn sha512(m: &[u8]) -> (r: Vec<u8>)
    ensures
        r@ == sha512_of(m@),
        r@.len() == 64,
{
    Sha512::digest(m).to_vec()
}

/// Accepts exactly the canonical encodings of group elements.
pub fn decode(b: &[u8]) -> (r: Result<Vec<u8>, OprfError>)
    ensures
        match r {
            Ok(e) => e@ == b@ && b@.len() == ELEMENT_LEN && ristretto_decodes(b@),
            Err(err) => err == OprfError::DecodeError && !(b@.len() == ELEMENT_LEN
                && ristretto_decodes(b@)),
        },
{
    if b.len() != ELEMENT_LEN || !point_is_valid(b) {
        return Err(OprfError::DecodeError);
    }
    let mut e: Vec<u8> = Vec::new();
    crate::bytes::push_bytes(&mut e, b);
    Ok(e)
}

} // verus!
