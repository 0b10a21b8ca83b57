use vstd::prelude::*;
use vstd::arithmetic::power::pow;
use crate::bytes::{frame, field, views, push_bytes, push_field, lemma_frame_push};
use crate::ciphersuite::{Ciphersuite, Step};
use crate::dleq::{all_decode, proof_verifies, verify};
use crate::error::OprfError;
use crate::group::{ristretto_decodes, ristretto_mul_of, ristretto_hash_of, sha512_of,
    point_is_valid, point_mul, point_from_hash, sha512};
use crate::scalar::{group_order, le_nat, scalar_enc, nonzero_scalar, canonical_scalar,
    is_nonzero_scalar, scalar_is_canonical, scalar_invert, random_wide, scalar_reduce_wide};
use crate::server::{Evaluation, proof_view, all_elements_valid};

verus! {

/// An input, the blind that hides it, and the blinded element sent to the server.
#[derive(Debug)]
pub struct Input {
    pub data: Vec<u8>,
    pub blind: Vec<u8>,
    pub elem: Vec<u8>,
}

/// An input mapped to the group, under the suite's hash-to-group domain.
pub open spec fn hash_to_group(suite: Ciphersuite, data: Seq<u8>) -> Seq<u8> {
    ristretto_hash_of(frame(seq![suite.spec_tag(Step::HashToGroup), data]))
}

/// The blinded element: the blind times the input's group element.
pub open spec fn blinded(suite: Ciphersuite, data: Seq<u8>, blind: Seq<u8>) -> Seq<u8> {
    ristretto_mul_of(blind, hash_to_group(suite, data))
}

/// The inverse of a nonzero scalar modulo the group order.
pub open spec fn scalar_inverse(blind: Seq<u8>) -> Seq<u8> {
    scalar_enc(pow(le_nat(blind) as int, (group_order() - 2) as nat))
}

/// An evaluated element with its blind removed.
pub open spec fn unblinded(blind: Seq<u8>, z: Seq<u8>) -> Seq<u8> {
    ristretto_mul_of(scalar_inverse(blind), z)
}

/// The bytes hashed into the output: the input, the unblinded element and
/// the context, each preceded by its length, then the suite's finalize tag.
pub open spec fn finalize_input(suite: Ciphersuite, data: Seq<u8>, elem: Seq<u8>, ctx: Seq<u8>) -> Seq<u8> {
    field(data) + field(elem) + field(ctx) + suite.spec_tag(Step::Finalize)
}

/// An input that can be unblinded: a nonzero blind and an encoded element.
pub open spec fn input_ok(i: Input) -> bool {
    nonzero_scalar(i.blind@) && i.elem@.len() == 32 && ristretto_decodes(i.elem@)
}

/// The blinded elements of a batch, in order.
pub open spec fn blinded_elems(inputs: Seq<Input>) -> Seq<Seq<u8>> {
    Seq::new(inputs.len(), |i: int| inputs[i].elem@)
}

/// Whether the proof shows that the key behind `pk` maps each blinded
/// element to the evaluated element at its place.
pub open spec fn evaluation_verifies(
    suite: Ciphersuite,
    pk: Option<Seq<u8>>,
    ms: Seq<Seq<u8>>,
    zs: Seq<Seq<u8>>,
    proof: Option<(Seq<u8>, Seq<u8>)>,
) -> bool {
    &&& pk matches Some(y)
    &&& y.len() == 32 && ristretto_decodes(y)
    &&& proof matches Some((c, s))
    &&& c.len() == 32 && canonical_scalar(s)
    &&& all_decode(zs)
    &&& proof_verifies(suite, pk.unwrap(), ms, zs, proof.unwrap().0, proof.unwrap().1)
}

/// What unblinding the evaluated elements `zs` (with `proof`) of a batch gives.
pub open spec fn unblind_result(
    suite: Ciphersuite,
    pk: Option<Seq<u8>>,
    inputs: Seq<Input>,
    zs: Seq<Seq<u8>>,
    proof: Option<(Seq<u8>, Seq<u8>)>,
) -> Result<Seq<Seq<u8>>, OprfError> {
    if inputs.len() != zs.len() {
        Err(OprfError::BatchLengthMismatch)
    } else if exists|i: int| 0 <= i < inputs.len() && !nonzero_scalar(#[trigger] inputs[i].blind@) {
        Err(OprfError::InvalidScalar)
    } else if !all_decode(blinded_elems(inputs)) {
        Err(OprfError::DecodeError)
    } else if suite.verifiable && !evaluation_verifies(suite, pk, blinded_elems(inputs), zs, proof) {
        Err(OprfError::ProofVerificationFailed)
    } else if !all_decode(zs) {
        Err(OprfError::DecodeError)
    } else {
        Ok(Seq::new(zs.len(), |i: int| unblinded(inputs[i].blind@, zs[i])))
    }
}

/// The public key as byte strings.
pub open spec fn key_view(pk: Option<Vec<u8>>) -> Option<Seq<u8>> {
    match pk {
        Some(y) => Some(y@),
        None => None,
    }
}

/// The party that blinds inputs, checks evaluations and derives outputs.
#[derive(Debug)]
pub struct Client {
    pub ciphersuite: Ciphersuite,
    pub pub_key: Option<Vec<u8>>,
}

fn copy_bytes(b: &[u8]) -> (r: Vec<u8>)
    ensures
        r@ == b@,
{
    let mut out: Vec<u8> = Vec::new();
    push_bytes(&mut out, b);
    out
}

/// Maps an input to the group.
pub fn hash_to_group_of(suite: &Ciphersuite, data: &[u8]) -> (r: Vec<u8>)
    ensures
        r@ == hash_to_group(*suite, data@),
        r@.len() == 32,
        ristretto_decodes(r@),
{
    let tag = suite.tag(Step::HashToGroup);
    let mut m: Vec<u8> = Vec::new();
    let ghost e = Seq::<Seq<u8>>::empty();
    assert(m@ =~= frame(e));
    push_field(&mut m, tag.as_slice());
    proof { lemma_frame_push(e, tag@); }
    push_field(&mut m, data);
    proof {
        lemma_frame_push(e.push(tag@), data@);
        assert(seq![suite.spec_tag(Step::HashToGroup), data@] =~= e.push(tag@).push(data@));
    }
    point_from_hash(m.as_slice())
}

/// The bytes that `finalize` hashes.
pub fn finalize_input_of(suite: &Ciphersuite, data: &[u8], elem: &[u8], ctx: &[u8]) -> (r: Vec<u8>)
    ensures
        r@ == finalize_input(*suite, data@, elem@, ctx@),
{
    let mut m: Vec<u8> = Vec::new();
    push_field(&mut m, data);
    push_field(&mut m, elem);
    push_field(&mut m, ctx);
    let tag = suite.tag(Step::Finalize);
    push_bytes(&mut m, tag.as_slice());
    assert(m@ =~= finalize_input(*suite, data@, elem@, ctx@));
    m
}

impl Client {
    /// A client for the suite; a verifiable suite needs the server's public key.
    pub fn setup(ciphersuite: Ciphersuite, pub_key: Option<Vec<u8>>) -> (r: Result<Client, OprfError>)
        ensures
            ciphersuite.verifiable && pub_key is None ==> r == Err::<Client, OprfError>(OprfError::MissingPublicKey),
            (pub_key matches Some(y) && !(y@.len() == 32 && ristretto_decodes(y@)))
                ==> r == Err::<Client, OprfError>(OprfError::DecodeError),
            r matches Ok(c) ==> c.ciphersuite == ciphersuite && key_view(c.pub_key) == key_view(pub_key),
            r is Err ==> (ciphersuite.verifiable && pub_key is None) || (pub_key matches Some(y)
                && !(y@.len() == 32 && ristretto_decodes(y@))),
    {
        match pub_key {
            None => {
                if ciphersuite.verifiable {
                    Err(OprfError::MissingPublicKey)
                } else {
                    Ok(Client { ciphersuite, pub_key: None })
                }
            },
            Some(y) => {
                if y.len() != 32 || !point_is_valid(y.as_slice()) {
                    Err(OprfError::DecodeError)
                } else {
                    Ok(Client { ciphersuite, pub_key: Some(y) })
                }
            },
        }
    }

    /// Blinds an input with the given blind. The blind must be fresh and
    /// secret in real use: this form exists to reproduce test vectors.
    pub fn blind_fixed(&self, data: &[u8], blind: &[u8]) -> (r: Result<Vec<u8>, OprfError>)
        ensures
            !nonzero_scalar(blind@) ==> r == Err::<Vec<u8>, OprfError>(OprfError::InvalidScalar),
            nonzero_scalar(blind@) ==> (r matches Ok(e) && e@ == blinded(self.ciphersuite, data@, blind@)
                && e@.len() == 32 && ristretto_decodes(e@)),
    {
        if !is_nonzero_scalar(blind) {
            return Err(OprfError::InvalidScalar);
        }
        let h = hash_to_group_of(&self.ciphersuite, data);
        Ok(point_mul(blind, h.as_slice()))
    }

    /// Blinds an input with the blind that 64 drawn bytes reduce to.
    pub fn blind_from_wide(&self, data: &[u8], w: &[u8]) -> (r: Result<Input, OprfError>)
        requires
            w@.len() == 64,
        ensures
            nonzero_scalar(scalar_enc(le_nat(w@) as int)) ==> (r matches Ok(i) && i.data@ == data@
                && i.blind@ == scalar_enc(le_nat(w@) as int)
                && i.elem@ == blinded(self.ciphersuite, data@, i.blind@) && input_ok(i)),
            !nonzero_scalar(scalar_enc(le_nat(w@) as int)) ==> r == Err::<Input, OprfError>(OprfError::InvalidScalar),
    {
        let b = scalar_reduce_wide(w);
        match self.blind_fixed(data, b.as_slice()) {
            Ok(e) => Ok(Input { data: copy_bytes(data), blind: b, elem: e }),
            Err(e) => Err(e),
        }
    }

    /// Blinds an input with a freshly drawn blind. It fails with
    /// `InvalidScalar` only if the draw gives zero.
    pub fn blind(&self, data: &[u8]) -> (r: Result<Input, OprfError>)
        ensures
            r matches Err(e) ==> e == OprfError::InvalidScalar,
            r matches Ok(i) ==> i.data@ == data@ && nonzero_scalar(i.blind@)
                && i.elem@ == blinded(self.ciphersuite, data@, i.blind@) && input_ok(i),
    {
        let w = random_wide();
        self.blind_from_wide(data, w.as_slice())
    }

    /// Checks the evaluation of a batch and removes each blind, keeping the
    /// order of the batch.
    pub fn unblind(&self, inputs: &Vec<Input>, ev: &Evaluation) -> (r: Result<Vec<Vec<u8>>, OprfError>)
        ensures
            match r {
                Ok(v) => unblind_result(self.ciphersuite, key_view(self.pub_key), inputs@,
                    views(ev.elements@), proof_view(ev.proof)) == Ok::<Seq<Seq<u8>>, OprfError>(views(v@)),
                Err(e) => unblind_result(self.ciphersuite, key_view(self.pub_key), inputs@,
                    views(ev.elements@), proof_view(ev.proof)) == Err::<Seq<Seq<u8>>, OprfError>(e),
            },
    {
        let n = inputs.len();
        if n != ev.elements.len() {
            return Err(OprfError::BatchLengthMismatch);
        }
        let ghost zs = views(ev.elements@);
        // blinds
        let mut i: usize = 0;
        while i < n
            invariant
                i <= n == inputs@.len() == ev.elements@.len(),
                forall|j: int| 0 <= j < i ==> nonzero_scalar(#[trigger] inputs@[j].blind@),
            decreases n - i,
        {
            if !is_nonzero_scalar(inputs[i].blind.as_slice()) {
                assert(!nonzero_scalar(inputs@[i as int].blind@));
                return Err(OprfError::InvalidScalar);
            }
            i = i + 1;
        }
        // blinded elements, copied for the proof check
        let mut ms: Vec<Vec<u8>> = Vec::new();
        let mut i: usize = 0;
        while i < n
            invariant
                i <= n == inputs@.len() == ev.elements@.len(),
                views(ms@) == blinded_elems(inputs@).subrange(0, i as int),
                all_decode(views(ms@)),
                forall|j: int| 0 <= j < n ==> nonzero_scalar(#[trigger] inputs@[j].blind@),
            decreases n - i,
        {
            let e = &inputs[i].elem;
            if e.len() != 32 || !point_is_valid(e.as_slice()) {
                assert(blinded_elems(inputs@)[i as int] == e@);
                assert(!all_decode(blinded_elems(inputs@)));
                return Err(OprfError::DecodeError);
            }
            let ghost prev = ms@;
            ms.push(copy_bytes(e.as_slice()));
            assert(views(ms@) =~= views(prev).push(e@));
            i = i + 1;
            assert(views(ms@) =~= blinded_elems(inputs@).subrange(0, i as int));
        }
        assert(views(ms@) =~= blinded_elems(inputs@));
        if self.ciphersuite.verifiable {
            if !self.check_proof(&ms, ev) {
                return Err(OprfError::ProofVerificationFailed);
            }
        } else if !all_elements_valid(&ev.elements) {
            return Err(OprfError::DecodeError);
        }
        let mut out: Vec<Vec<u8>> = Vec::new();
        let mut i: usize = 0;
        while i < n
            invariant
                i <= n == inputs@.len() == ev.elements@.len(),
                zs == views(ev.elements@),
                all_decode(zs),
                forall|j: int| 0 <= j < n ==> nonzero_scalar(#[trigger] inputs@[j].blind@),
                views(out@) == Seq::new(n as nat, |j: int| unblinded(inputs@[j].blind@, zs[j])).subrange(0, i as int),
            decreases n - i,
        {
            let b = &inputs[i].blind;
            assert(nonzero_scalar(inputs@[i as int].blind@));
            proof {
                vstd::arithmetic::div_mod::lemma_small_mod(le_nat(b@), group_order());
            }
            let inv = scalar_invert(b.as_slice());
            assert(zs[i as int] == ev.elements@[i as int]@);
            let u = point_mul(inv.as_slice(), ev.elements[i].as_slice());
            let ghost prev = out@;
            out.push(u);
            assert(views(out@) =~= views(prev).push(u@));
            i = i + 1;
            assert(views(out@) =~= Seq::new(n as nat, |j: int| unblinded(inputs@[j].blind@, zs[j])).subrange(0, i as int));
        }
        assert(views(out@) =~= Seq::new(n as nat, |j: int| unblinded(inputs@[j].blind@, zs[j])));
        Ok(out)
    }

    fn check_proof(&self, ms: &Vec<Vec<u8>>, ev: &Evaluation) -> (r: bool)
        requires
            all_decode(views(ms@)),
        ensures
            r == evaluation_verifies(self.ciphersuite, key_view(self.pub_key), views(ms@),
                views(ev.elements@), proof_view(ev.proof)),
    {
        let y = match &self.pub_key {
            Some(y) => y,
            None => { return false; },
        };
        if y.len() != 32 || !point_is_valid(y.as_slice()) {
            return false;
        }
        let answer = &ev.proof;
        let p = match answer {
            Some(p) => p,
            None => { return false; },
        };
        if p.challenge.len() != 32 || p.response.len() != 32 {
            return false;
        }
        if !scalar_is_canonical(p.response.as_slice()) {
            return false;
        }
        if !all_elements_valid(&ev.elements) {
            return false;
        }
        verify(&self.ciphersuite, y.as_slice(), ms, &ev.elements, p.challenge.as_slice(),
            p.response.as_slice())
    }

    /// The output for an input and its unblinded element, under a context
    /// string: SHA-512 of the length-prefixed fields and the finalize tag.
    pub fn finalize(&self, data: &[u8], elem: &[u8], ctx: &[u8]) -> (r: Vec<u8>)
        ensures
            r@ == sha512_of(finalize_input(self.ciphersuite, data@, elem@, ctx@)),
            r@.len() == 64,
    {
        let m = finalize_input_of(&self.ciphersuite, data, elem, ctx);
        sha512(m.as_slice())
    }
}

} // verus!
