use vstd::prelude::*;
use crate::ciphersuite::Ciphersuite;
use crate::client::{Input, unblind_result, unblinded, blinded_elems, blinded, scalar_inverse};
use crate::group::ristretto_mul_of;
use crate::dleq::all_decode;
use crate::error::OprfError;
use crate::server::eval_result;
use crate::scalar::nonzero_scalar;

verus! {

/// Unblinding a batch gives one element per input, in the order of the
/// batch; the element at place `i` is the evaluated element there with the
/// blind of input `i` removed, and it is what unblinding input `i` alone,
/// with its own evaluated element, gives whenever that succeeds. Without a
/// proof to check, unblinding input `i` alone does succeed.
pub proof fn lemma_batch_positional(
    suite: Ciphersuite,
    pk: Option<Seq<u8>>,
    inputs: Seq<Input>,
    zs: Seq<Seq<u8>>,
    proof: Option<(Seq<u8>, Seq<u8>)>,
    single_proof: Option<(Seq<u8>, Seq<u8>)>,
    i: int,
)
    requires
        unblind_result(suite, pk, inputs, zs, proof) is Ok,
        0 <= i < inputs.len(),
    ensures
        unblind_result(suite, pk, inputs, zs, proof)->Ok_0.len() == inputs.len(),
        unblind_result(suite, pk, inputs, zs, proof)->Ok_0[i] == unblinded(inputs[i].blind@, zs[i]),
        unblind_result(suite, pk, seq![inputs[i]], seq![zs[i]], single_proof) is Ok
            ==> unblind_result(suite, pk, seq![inputs[i]], seq![zs[i]], single_proof)
                == Ok::<Seq<Seq<u8>>, OprfError>(seq![unblind_result(suite, pk, inputs, zs, proof)->Ok_0[i]]),
        !suite.verifiable ==> unblind_result(suite, pk, seq![inputs[i]], seq![zs[i]], single_proof) is Ok,
{
    let one = seq![inputs[i]];
    let z1 = seq![zs[i]];
    assert(nonzero_scalar(inputs[i].blind@));
    assert(blinded_elems(inputs)[i] == inputs[i].elem@);
    assert(blinded_elems(one) =~= seq![inputs[i].elem@]);
    assert(!(exists|j: int| 0 <= j < one.len() && !nonzero_scalar(#[trigger] one[j].blind@)));
    assert(all_decode(blinded_elems(one)));
    assert(all_decode(zs));
    assert(all_decode(z1));
    if unblind_result(suite, pk, one, z1, single_proof) is Ok {
        assert(unblind_result(suite, pk, one, z1, single_proof)->Ok_0 =~= seq![unblinded(inputs[i].blind@, zs[i])]);
    }
}

/// One input through blind, evaluate and unblind: the element that comes
/// out is the input's group element multiplied by the blind, then by the
/// key, then by the inverse of the blind, whatever the proof nonce.
pub proof fn lemma_round_trip_composition(
    suite: Ciphersuite,
    pk: Option<Seq<u8>>,
    sk: Seq<u8>,
    input: Input,
    k: Seq<u8>,
)
    requires
        input.elem@ == blinded(suite, input.data@, input.blind@),
        eval_result(suite, sk, seq![input.elem@], k) is Ok,
        unblind_result(suite, pk, seq![input], eval_result(suite, sk, seq![input.elem@], k)->Ok_0.0,
            eval_result(suite, sk, seq![input.elem@], k)->Ok_0.1) is Ok,
    ensures
        unblind_result(suite, pk, seq![input], eval_result(suite, sk, seq![input.elem@], k)->Ok_0.0,
            eval_result(suite, sk, seq![input.elem@], k)->Ok_0.1)->Ok_0
            == seq![ristretto_mul_of(scalar_inverse(input.blind@),
                ristretto_mul_of(sk, blinded(suite, input.data@, input.blind@)))],
{
    let zs = eval_result(suite, sk, seq![input.elem@], k)->Ok_0.0;
    assert(zs[0] == ristretto_mul_of(sk, input.elem@));
    assert(unblind_result(suite, pk, seq![input], zs, eval_result(suite, sk, seq![input.elem@], k)->Ok_0.1)->Ok_0
        =~= seq![unblinded(input.blind@, zs[0])]);
}

/// With fixed randomness, evaluation is reproducible: two evaluations of the
/// same batch with the same key and nonce give the same elements and the
/// same proof, byte for byte.
pub proof fn lemma_fixed_eval_reproducible(
    suite: Ciphersuite,
    sk: Seq<u8>,
    ms: Seq<Seq<u8>>,
    k: Seq<u8>,
    first: (Seq<Seq<u8>>, Option<(Seq<u8>, Seq<u8>)>),
    second: (Seq<Seq<u8>>, Option<(Seq<u8>, Seq<u8>)>),
)
    requires
        eval_result(suite, sk, ms, k) == Ok::<(Seq<Seq<u8>>, Option<(Seq<u8>, Seq<u8>)>), OprfError>(first),
        eval_result(suite, sk, ms, k) == Ok::<(Seq<Seq<u8>>, Option<(Seq<u8>, Seq<u8>)>), OprfError>(second),
    ensures
        first == second,
{
}

/// Evaluation keeps the batch: as many elements come back as went in, and a
/// proof comes back exactly when the suite is verifiable.
pub proof fn lemma_eval_shape(suite: Ciphersuite, sk: Seq<u8>, ms: Seq<Seq<u8>>, k: Seq<u8>)
    requires
        eval_result(suite, sk, ms, k) is Ok,
    ensures
        eval_result(suite, sk, ms, k)->Ok_0.0.len() == ms.len(),
        eval_result(suite, sk, ms, k)->Ok_0.1 is Some == suite.verifiable,
{
}

} // verus!
