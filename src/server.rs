use vstd::prelude::*;
use crate::bytes::{views, push_bytes};
use crate::ciphersuite::Ciphersuite;
use crate::dleq::{all_decode, proof_of, prove};
use crate::error::OprfError;
use crate::group::{ristretto_decodes, ristretto_mul_of, ristretto_base_mul_of, point_is_valid,
    point_mul, point_base_mul};
use crate::scalar::{nonzero_scalar, is_nonzero_scalar, random_wide, scalar_reduce_wide};

verus! {

/// The server's secret scalar: canonical and not zero.
pub struct SecretKey {
    bytes: Vec<u8>,
}

impl View for SecretKey {
    type V = Seq<u8>;

    closed spec fn view(&self) -> Seq<u8> {
        self.bytes@
    }
}

impl SecretKey {
    #[verifier::type_invariant]
    spec fn inv(&self) -> bool {
        nonzero_scalar(self.bytes@)
    }

    /// Reads a key from its 32-byte encoding.
    pub fn from_bytes(b: &[u8]) -> (r: Result<SecretKey, OprfError>)
        ensures
            b@.len() != 32 ==> r == Err::<SecretKey, OprfError>(OprfError::InvalidKeyLength),
            b@.len() == 32 && !nonzero_scalar(b@) ==> r == Err::<SecretKey, OprfError>(OprfError::InvalidScalar),
            nonzero_scalar(b@) ==> (r matches Ok(k) && k@ == b@),
    {
        if b.len() != 32 {
            return Err(OprfError::InvalidKeyLength);
        }
        if !is_nonzero_scalar(b) {
            return Err(OprfError::InvalidScalar);
        }
        let mut bytes: Vec<u8> = Vec::new();
        push_bytes(&mut bytes, b);
        Ok(SecretKey { bytes })
    }

    /// The public key, the generator times the secret.
    pub fn pub_key(&self) -> (r: Vec<u8>)
        ensures
            r@ == ristretto_base_mul_of(self@),
            r@.len() == 32,
            ristretto_decodes(r@),
    {
        proof {
            use_type_invariant(self);
        }
        point_base_mul(self.bytes.as_slice())
    }

    /// The secret's encoding, for exporting test vectors only.
    pub fn to_bytes(&self) -> (r: Vec<u8>)
        ensures
            r@ == self@,
            nonzero_scalar(r@),
    {
        proof {
            use_type_invariant(self);
        }
        let mut out: Vec<u8> = Vec::new();
        push_bytes(&mut out, self.bytes.as_slice());
        out
    }
}

/// A proof of evaluation: the challenge and the response, each a 32-byte scalar.
#[derive(Debug)]
pub struct Proof {
    pub challenge: Vec<u8>,
    pub response: Vec<u8>,
}

/// The server's answer to a batch: one element per blinded element, in
/// order, and a proof if the ciphersuite is verifiable.
#[derive(Debug)]
pub struct Evaluation {
    pub elements: Vec<Vec<u8>>,
    pub proof: Option<Proof>,
}

/// The proof's two scalars, as byte strings.
pub open spec fn proof_view(p: Option<Proof>) -> Option<(Seq<u8>, Seq<u8>)> {
    match p {
        Some(q) => Some((q.challenge@, q.response@)),
        None => None,
    }
}

/// Each element multiplied by the secret.
pub open spec fn evaluated(sk: Seq<u8>, ms: Seq<Seq<u8>>) -> Seq<Seq<u8>> {
    Seq::new(ms.len(), |i: int| ristretto_mul_of(sk, ms[i]))
}

/// What evaluating `ms` with the key `sk` and the proof nonce `k` gives:
/// the evaluated elements and, for a verifiable suite, the proof.
pub open spec fn eval_result(
    suite: Ciphersuite,
    sk: Seq<u8>,
    ms: Seq<Seq<u8>>,
    k: Seq<u8>,
) -> Result<(Seq<Seq<u8>>, Option<(Seq<u8>, Seq<u8>)>), OprfError> {
    if !all_decode(ms) {
        Err(OprfError::DecodeError)
    } else if suite.verifiable && !nonzero_scalar(k) {
        Err(OprfError::InvalidScalar)
    } else if suite.verifiable {
        Ok((evaluated(sk, ms), Some(proof_of(suite, sk, ms, evaluated(sk, ms), k))))
    } else {
        Ok((evaluated(sk, ms), None))
    }
}

/// Whether every byte string is an encoded group element.
pub fn all_elements_valid(es: &Vec<Vec<u8>>) -> (r: bool)
    ensures
        r == all_decode(views(es@)),
{
    let mut i: usize = 0;
    while i < es.len()
        invariant
            i <= es@.len(),
            all_decode(views(es@.subrange(0, i as int))),
        decreases es@.len() - i,
    {
        if es[i].len() != 32 || !point_is_valid(es[i].as_slice()) {
            assert(views(es@)[i as int] == es@[i as int]@);
            return false;
        }
        assert(views(es@.subrange(0, i + 1 as int)) =~= views(es@.subrange(0, i as int)).push(es@[i as int]@));
        i = i + 1;
    }
    assert(es@.subrange(0, i as int) =~= es@);
    true
}

/// The holder of the secret key, which evaluates blinded elements.
pub struct Server {
    pub ciphersuite: Ciphersuite,
    pub key: Option<SecretKey>,
}

impl Server {
    /// A server with no key yet.
    pub fn setup(ciphersuite: Ciphersuite) -> (r: Server)
        ensures
            r.ciphersuite == ciphersuite,
            r.key is None,
    {
        Server { ciphersuite, key: None }
    }

    /// Sets the secret key from its 32-byte encoding; on failure the server
    /// is left as it was.
    pub fn set_key(&mut self, key: Vec<u8>) -> (r: Result<(), OprfError>)
        ensures
            final(self).ciphersuite == old(self).ciphersuite,
            key@.len() != 32 ==> r == Err::<(), OprfError>(OprfError::InvalidKeyLength),
            key@.len() == 32 && !nonzero_scalar(key@) ==> r == Err::<(), OprfError>(OprfError::InvalidScalar),
            r is Err ==> final(self).key == old(self).key,
            nonzero_scalar(key@) ==> r is Ok && (final(self).key matches Some(k) && k@ == key@),
    {
        match SecretKey::from_bytes(key.as_slice()) {
            Ok(k) => {
                self.key = Some(k);
                Ok(())
            },
            Err(e) => Err(e),
        }
    }

    /// Evaluates a batch with the given proof nonce `k`. The nonce must be
    /// fresh and secret in real use: this form exists to reproduce test
    /// vectors.
    pub fn fixed_eval(&self, elems: &Vec<Vec<u8>>, k: &[u8]) -> (r: Result<Evaluation, OprfError>)
        requires
            self.key is Some,
        ensures
            match r {
                Ok(ev) => eval_result(self.ciphersuite, self.key.unwrap()@, views(elems@), k@)
                    == Ok::<(Seq<Seq<u8>>, Option<(Seq<u8>, Seq<u8>)>), OprfError>(
                        (views(ev.elements@), proof_view(ev.proof)))
                    && all_decode(views(ev.elements@)),
                Err(e) => eval_result(self.ciphersuite, self.key.unwrap()@, views(elems@), k@)
                    == Err::<(Seq<Seq<u8>>, Option<(Seq<u8>, Seq<u8>)>), OprfError>(e),
            },
    {
        let sk = match &self.key {
            Some(sk) => sk,
            None => { return Err(OprfError::InvalidScalar); },
        };
        if !all_elements_valid(elems) {
            return Err(OprfError::DecodeError);
        }
        if self.ciphersuite.verifiable && !is_nonzero_scalar(k) {
            return Err(OprfError::InvalidScalar);
        }
        let skb = sk.to_bytes();
        let ghost ms = views(elems@);
        let mut zs: Vec<Vec<u8>> = Vec::new();
        let mut i: usize = 0;
        while i < elems.len()
            invariant
                i <= elems@.len(),
                ms == views(elems@),
                all_decode(ms),
                skb@.len() == 32,
                views(zs@) == evaluated(skb@, ms).subrange(0, i as int),
                all_decode(views(zs@)),
            decreases elems@.len() - i,
        {
            assert(ms[i as int] == elems@[i as int]@);
            let z = point_mul(skb.as_slice(), elems[i].as_slice());
            let ghost prev = zs@;
            zs.push(z);
            assert(views(zs@) =~= views(prev).push(z@));
            i = i + 1;
            assert(views(zs@) =~= evaluated(skb@, ms).subrange(0, i as int));
        }
        assert(views(zs@) =~= evaluated(skb@, ms));
        if self.ciphersuite.verifiable {
            let (c, s) = prove(&self.ciphersuite, skb.as_slice(), elems, &zs, k);
            Ok(Evaluation { elements: zs, proof: Some(Proof { challenge: c, response: s }) })
        } else {
            Ok(Evaluation { elements: zs, proof: None })
        }
    }

    /// Evaluates a batch, drawing a fresh proof nonce. It fails with
    /// `InvalidScalar` only if the draw gives zero.
    pub fn eval(&self, elems: &Vec<Vec<u8>>) -> (r: Result<Evaluation, OprfError>)
        requires
            self.key is Some,
        ensures
            !all_decode(views(elems@)) ==> r == Err::<Evaluation, OprfError>(OprfError::DecodeError),
            r == Err::<Evaluation, OprfError>(OprfError::DecodeError) ==> !all_decode(views(elems@)),
            !self.ciphersuite.verifiable && all_decode(views(elems@)) ==> r is Ok,
            r matches Err(e) ==> e == OprfError::DecodeError || (e == OprfError::InvalidScalar
                && self.ciphersuite.verifiable),
            r matches Ok(ev) ==> views(ev.elements@) == evaluated(self.key.unwrap()@, views(elems@))
                && ev.proof is Some == self.ciphersuite.verifiable
                && (self.ciphersuite.verifiable ==> exists|k: Seq<u8>| nonzero_scalar(k)
                    && proof_view(ev.proof) == Some(proof_of(self.ciphersuite, self.key.unwrap()@,
                        views(elems@), evaluated(self.key.unwrap()@, views(elems@)), k))),
    {
        let w = random_wide();
        let k = scalar_reduce_wide(w.as_slice());
        let r = self.fixed_eval(elems, k.as_slice());
        proof {
            if r is Ok && self.ciphersuite.verifiable {
                assert(nonzero_scalar(k@));
            }
        }
        r
    }
}

} // verus!
