use vstd::prelude::*;
use vstd::string::StringSliceAdditionalSpecFns;
use crate::hexcodec::{hex_valid, hex_bytes, hex_of, hex_list, hex_list_valid, hex_decode, hex_encode,
    decode_hex_list, encode_hex_list};
use crate::ciphersuite::Group;
use crate::bytes::{views, push_bytes};
use crate::ciphersuite::Ciphersuite;
use crate::client::{Input, Client, unblind_result, key_view, blinded, unblinded, finalize_input, evaluation_verifies,
    blinded_elems, input_ok};
use crate::dleq::{all_decode, proof_of};
use crate::error::OprfError;
use crate::group::{ristretto_decodes, ristretto_mul_of, ristretto_base_mul_of, sha512_of};
use crate::scalar::nonzero_scalar;
use crate::server::{Server, Proof, evaluated, proof_view};

verus! {

/// How many (input, blind) pairs a run takes: the shorter of the two lists.
pub open spec fn pair_count(xs: Seq<Seq<u8>>, bs: Seq<Seq<u8>>) -> nat {
    if xs.len() <= bs.len() {
        xs.len()
    } else {
        bs.len()
    }
}

/// The blinded elements of a run, one per pair.
pub open spec fn run_blinded(suite: Ciphersuite, xs: Seq<Seq<u8>>, bs: Seq<Seq<u8>>) -> Seq<Seq<u8>> {
    Seq::new(pair_count(xs, bs), |i: int| blinded(suite, xs[i], bs[i]))
}

/// The output of pair `i` of a run.
pub open spec fn run_output(
    suite: Ciphersuite,
    sk: Seq<u8>,
    x: Seq<u8>,
    b: Seq<u8>,
    ctx: Seq<u8>,
) -> Seq<u8> {
    sha512_of(finalize_input(suite, x, unblinded(b, evaluated(sk, seq![blinded(suite, x, b)])[0]), ctx))
}

/// The proof of a run, for a verifiable suite.
pub open spec fn run_proof(suite: Ciphersuite, sk: Seq<u8>, xs: Seq<Seq<u8>>, bs: Seq<Seq<u8>>, k: Seq<u8>) -> (Seq<u8>, Seq<u8>) {
    proof_of(suite, sk, run_blinded(suite, xs, bs), evaluated(sk, run_blinded(suite, xs, bs)), k)
}

/// The key, every blind and, for a verifiable suite, the nonce are valid.
pub open spec fn run_arguments_valid(suite: Ciphersuite, sk: Seq<u8>, xs: Seq<Seq<u8>>, bs: Seq<Seq<u8>>, k: Seq<u8>) -> bool {
    &&& nonzero_scalar(sk)
    &&& forall|i: int| 0 <= i < pair_count(xs, bs) ==> nonzero_scalar(#[trigger] bs[i])
    &&& suite.verifiable ==> nonzero_scalar(k)
}

/// The proof of a run verifies against the key's public key.
pub open spec fn run_proof_verifies(suite: Ciphersuite, sk: Seq<u8>, xs: Seq<Seq<u8>>, bs: Seq<Seq<u8>>, k: Seq<u8>) -> bool {
    evaluation_verifies(suite, Some(ristretto_base_mul_of(sk)), run_blinded(suite, xs, bs),
        evaluated(sk, run_blinded(suite, xs, bs)), Some(run_proof(suite, sk, xs, bs, k)))
}

fn copy_bytes(b: &[u8]) -> (r: Vec<u8>)
    ensures
        r@ == b@,
{
    let mut out: Vec<u8> = Vec::new();
    push_bytes(&mut out, b);
    out
}

/// Blinds each input with the blind at its place, for as many pairs as
/// both lists hold.
fn blind_batch(cli: &Client, inputs: &Vec<Vec<u8>>, blinds: &Vec<Vec<u8>>) -> (r: Result<(Vec<Input>, Vec<Vec<u8>>), OprfError>)
    ensures
        match r {
            Ok((batch, ms)) => {
                &&& forall|j: int| 0 <= j < pair_count(views(inputs@), views(blinds@))
                    ==> nonzero_scalar(#[trigger] views(blinds@)[j])
                &&& batch@.len() == pair_count(views(inputs@), views(blinds@))
                &&& views(ms@) == run_blinded(cli.ciphersuite, views(inputs@), views(blinds@))
                &&& views(ms@) == blinded_elems(batch@)
                &&& all_decode(views(ms@))
                &&& forall|j: int| 0 <= j < batch@.len() ==> input_ok(#[trigger] batch@[j])
                    && batch@[j].blind@ == views(blinds@)[j] && batch@[j].data@ == views(inputs@)[j]
            },
            Err(e) => e == OprfError::InvalidScalar && exists|j: int| 0 <= j < pair_count(views(inputs@), views(blinds@))
                && !nonzero_scalar(#[trigger] views(blinds@)[j]),
        },
{
    let ghost suite = cli.ciphersuite;
    let ghost xs = views(inputs@);
    let ghost bs = views(blinds@);
    let n: usize = if inputs.len() <= blinds.len() { inputs.len() } else { blinds.len() };
    let mut batch: Vec<Input> = Vec::new();
    let mut ms: Vec<Vec<u8>> = Vec::new();
    let mut i: usize = 0;
    while i < n
        invariant
            i <= n == pair_count(xs, bs),
            n <= inputs@.len(),
            n <= blinds@.len(),
            xs == views(inputs@),
            bs == views(blinds@),
            cli.ciphersuite == suite,
            batch@.len() == i,
            views(ms@) == run_blinded(suite, xs, bs).subrange(0, i as int),
            views(ms@) == blinded_elems(batch@),
            all_decode(views(ms@)),
            forall|j: int| 0 <= j < i ==> input_ok(#[trigger] batch@[j]) && batch@[j].blind@ == bs[j]
                && batch@[j].data@ == xs[j],
            forall|j: int| 0 <= j < i ==> nonzero_scalar(#[trigger] bs[j]),
        decreases n - i,
    {
        assert(xs[i as int] == inputs@[i as int]@ && bs[i as int] == blinds@[i as int]@);
        let e = match cli.blind_fixed(inputs[i].as_slice(), blinds[i].as_slice()) {
            Ok(e) => e,
            Err(err) => {
                assert(!nonzero_scalar(bs[i as int]));
                return Err(err);
            },
        };
        let ghost prev_ms = ms@;
        ms.push(copy_bytes(e.as_slice()));
        batch.push(Input { data: copy_bytes(inputs[i].as_slice()), blind: copy_bytes(blinds[i].as_slice()), elem: e });
        assert(views(ms@) =~= views(prev_ms).push(e@));
        i = i + 1;
        assert(views(ms@) =~= run_blinded(suite, xs, bs).subrange(0, i as int));
        assert(views(ms@) =~= blinded_elems(batch@));
    }
    assert(views(ms@) =~= run_blinded(suite, xs, bs));
    Ok((batch, ms))
}

/// Finalizes each unblinded element with the input at its place.
fn finalize_batch(cli: &Client, batch: &Vec<Input>, u: &Vec<Vec<u8>>, ctx: &[u8]) -> (r: Vec<Vec<u8>>)
    requires
        u@.len() == batch@.len(),
    ensures
        r@.len() == batch@.len(),
        forall|j: int| 0 <= j < r@.len() ==> (#[trigger] r@[j])@ == sha512_of(finalize_input(cli.ciphersuite,
            batch@[j].data@, u@[j]@, ctx@)),
{
    let mut outs: Vec<Vec<u8>> = Vec::new();
    let mut i: usize = 0;
    while i < batch.len()
        invariant
            i <= batch@.len() == u@.len(),
            outs@.len() == i,
            forall|j: int| 0 <= j < i ==> (#[trigger] outs@[j])@ == sha512_of(finalize_input(cli.ciphersuite,
                batch@[j].data@, u@[j]@, ctx@)),
        decreases batch@.len() - i,
    {
        let o = cli.finalize(batch[i].data.as_slice(), u[i].as_slice(), ctx);
        outs.push(o);
        i = i + 1;
    }
    outs
}

proof fn lemma_unblind_run(
    suite: Ciphersuite,
    sk: Seq<u8>,
    xs: Seq<Seq<u8>>,
    bs: Seq<Seq<u8>>,
    k: Seq<u8>,
    batch: Seq<Input>,
    zs: Seq<Seq<u8>>,
    pr: Option<(Seq<u8>, Seq<u8>)>,
    ctx: Seq<u8>,
)
    requires
        batch.len() == pair_count(xs, bs),
        run_blinded(suite, xs, bs) == blinded_elems(batch),
        all_decode(run_blinded(suite, xs, bs)),
        forall|j: int| 0 <= j < batch.len() ==> input_ok(#[trigger] batch[j]) && batch[j].blind@ == bs[j],
        zs == evaluated(sk, run_blinded(suite, xs, bs)),
        all_decode(zs),
        pr == (if suite.verifiable { Some(run_proof(suite, sk, xs, bs, k)) } else { None::<(Seq<u8>, Seq<u8>)> }),
    ensures
        unblind_result(suite, Some(ristretto_base_mul_of(sk)), batch, zs, pr) is Ok <==> (!suite.verifiable
            || run_proof_verifies(suite, sk, xs, bs, k)),
        unblind_result(suite, Some(ristretto_base_mul_of(sk)), batch, zs, pr) matches Err(e) ==> e == OprfError::ProofVerificationFailed,
        unblind_result(suite, Some(ristretto_base_mul_of(sk)), batch, zs, pr) is Ok ==> (
            unblind_result(suite, Some(ristretto_base_mul_of(sk)), batch, zs, pr)->Ok_0.len() == batch.len()
            && forall|j: int| 0 <= j < batch.len() ==> run_output(suite, sk, xs[j], bs[j], ctx) == sha512_of(
                finalize_input(suite, xs[j], #[trigger] unblind_result(suite, Some(ristretto_base_mul_of(sk)), batch, zs,
                    pr)->Ok_0[j], ctx))),
{
    assert(!(exists|i: int| 0 <= i < batch.len() && !nonzero_scalar(#[trigger] batch[i].blind@)));
    if unblind_result(suite, Some(ristretto_base_mul_of(sk)), batch, zs, pr) is Ok {
        let o = unblind_result(suite, Some(ristretto_base_mul_of(sk)), batch, zs, pr)->Ok_0;
        assert forall|j: int| 0 <= j < batch.len() implies run_output(suite, sk, xs[j], bs[j], ctx) == sha512_of(
            finalize_input(suite, xs[j], #[trigger] o[j], ctx)) by {
            assert(evaluated(sk, seq![blinded(suite, xs[j], bs[j])])[0] == ristretto_mul_of(sk, blinded(suite, xs[j], bs[j])));
            assert(run_blinded(suite, xs, bs)[j] == blinded(suite, xs[j], bs[j]));
        }
    }
}

/// Evaluates a blinded batch, checks and unblinds it, and finalizes each element.
#[verifier::rlimit(100)]
fn finish_run(
    srv: &Server,
    cli: &Client,
    batch: &Vec<Input>,
    ms: &Vec<Vec<u8>>,
    k: &[u8],
    ctx: &[u8],
    Ghost(xs): Ghost<Seq<Seq<u8>>>,
    Ghost(bs): Ghost<Seq<Seq<u8>>>,
) -> (r: Result<(Vec<Vec<u8>>, Option<Proof>), OprfError>)
    requires
        srv.key is Some,
        srv.ciphersuite == cli.ciphersuite,
        key_view(cli.pub_key) == Some(ristretto_base_mul_of(srv.key.unwrap()@)),
        batch@.len() == pair_count(xs, bs),
        views(ms@) == run_blinded(cli.ciphersuite, xs, bs),
        views(ms@) == blinded_elems(batch@),
        all_decode(views(ms@)),
        forall|j: int| 0 <= j < batch@.len() ==> input_ok(#[trigger] batch@[j]) && batch@[j].blind@ == bs[j]
            && batch@[j].data@ == xs[j],
    ensures
        cli.ciphersuite.verifiable && !nonzero_scalar(k@) ==> r == Err::<(Vec<Vec<u8>>, Option<Proof>), OprfError>(OprfError::InvalidScalar),
        !cli.ciphersuite.verifiable || nonzero_scalar(k@) ==> (r is Ok <==> (!cli.ciphersuite.verifiable
            || run_proof_verifies(cli.ciphersuite, srv.key.unwrap()@, xs, bs, k@))),
        r matches Err(e) ==> (e == OprfError::InvalidScalar || e == OprfError::ProofVerificationFailed),
        r matches Ok((outs, p)) ==> outs@.len() == batch@.len()
            && (forall|i: int| 0 <= i < outs@.len() ==> (#[trigger] outs@[i])@ == run_output(cli.ciphersuite,
                srv.key.unwrap()@, xs[i], bs[i], ctx@))
            && proof_view(p) == (if cli.ciphersuite.verifiable {
                Some(run_proof(cli.ciphersuite, srv.key.unwrap()@, xs, bs, k@))
            } else {
                None
            }),
{
    let ghost suite = cli.ciphersuite;
    let ghost sk = srv.key.unwrap()@;
    let ghost msv = run_blinded(suite, xs, bs);
    let ev = match srv.fixed_eval(ms, k) {
        Ok(ev) => ev,
        Err(e) => { return Err(e); },
    };
    proof {
        lemma_unblind_run(suite, sk, xs, bs, k@, batch@, views(ev.elements@), proof_view(ev.proof), ctx@);
    }
    let u = match cli.unblind(batch, &ev) {
        Ok(u) => u,
        Err(e) => { return Err(e); },
    };
    let outs = finalize_batch(cli, batch, &u, ctx);
    assert forall|i: int| 0 <= i < outs@.len() implies (#[trigger] outs@[i])@ == run_output(suite, sk,
        xs[i], bs[i], ctx@) by {
        assert(u@[i]@ == views(u@)[i]);
    }
    Ok((outs, ev.proof))
}

/// One whole run with fixed randomness: sets the key, blinds each input
/// with the blind at its place, evaluates the batch with the nonce `k`,
/// checks the proof, unblinds and finalizes each element under `ctx`.
#[verifier::rlimit(100)]
pub fn run_fixed(
    suite: Ciphersuite,
    key: &[u8],
    inputs: &Vec<Vec<u8>>,
    blinds: &Vec<Vec<u8>>,
    k: &[u8],
    ctx: &[u8],
) -> (r: Result<(Vec<Vec<u8>>, Option<Proof>), OprfError>)
    ensures
        key@.len() != 32 ==> r == Err::<(Vec<Vec<u8>>, Option<Proof>), OprfError>(OprfError::InvalidKeyLength),
        key@.len() == 32 && !run_arguments_valid(suite, key@, views(inputs@), views(blinds@), k@)
            ==> r == Err::<(Vec<Vec<u8>>, Option<Proof>), OprfError>(OprfError::InvalidScalar),
        run_arguments_valid(suite, key@, views(inputs@), views(blinds@), k@) ==> (r is Ok <==> (
            !suite.verifiable || run_proof_verifies(suite, key@, views(inputs@), views(blinds@), k@))),
        r matches Err(e) ==> (e == OprfError::InvalidKeyLength || e == OprfError::InvalidScalar
            || e == OprfError::ProofVerificationFailed),
        r matches Ok((outs, p)) ==> outs@.len() == pair_count(views(inputs@), views(blinds@))
            && (forall|i: int| 0 <= i < outs@.len() ==> (#[trigger] outs@[i])@ == run_output(suite, key@,
                views(inputs@)[i], views(blinds@)[i], ctx@))
            && proof_view(p) == (if suite.verifiable {
                Some(run_proof(suite, key@, views(inputs@), views(blinds@), k@))
            } else {
                None
            }),
{
    let mut srv = Server::setup(suite);
    match srv.set_key(copy_bytes(key)) {
        Ok(()) => {},
        Err(e) => { return Err(e); },
    }
    let pk = match &srv.key {
        Some(sk) => sk.pub_key(),
        None => { return Err(OprfError::InvalidScalar); },
    };
    let cli = match Client::setup(suite, Some(pk)) {
        Ok(c) => c,
        Err(e) => { return Err(e); },
    };
    let (batch, ms) = match blind_batch(&cli, inputs, blinds) {
        Ok(p) => p,
        Err(e) => { return Err(e); },
    };
    finish_run(&srv, &cli, &batch, &ms, k, ctx, Ghost(views(inputs@)), Ghost(views(blinds@)))
}

/// The context string of the output hash in test-vector runs.
pub open spec fn aux_data() -> Seq<u8> {
    "oprf_finalization_step".spec_bytes()
}

/// The suite of test-vector runs: ristretto255 with SHA-512, verifiable.
pub open spec fn vector_suite() -> Ciphersuite {
    Ciphersuite { group: Group::Ristretto255, verifiable: true }
}

/// The expected section of a test vector: the outputs and the proof, in hex.
#[derive(Debug)]
pub struct Expected {
    pub outputs: Vec<String>,
    pub proof: (String, String),
}

/// All hex arguments of a test vector are valid hex.
pub open spec fn vector_hex_valid(inputs: Seq<Vec<u8>>, blinds: Seq<Vec<u8>>, key: Seq<u8>, k: Seq<u8>) -> bool {
    hex_list_valid(inputs) && hex_list_valid(blinds) && hex_valid(key) && hex_valid(k)
}

/// Computes the expected section of a test vector from its hex key, inputs,
/// blinds and proof nonce, with the verifiable suite and the context
/// `oprf_finalization_step`.
pub fn oprf(inputs: &Vec<Vec<u8>>, blinds: &Vec<Vec<u8>>, key: &[u8], dleq_scalar: &[u8]) -> (r: Result<Expected, OprfError>)
    ensures
        !vector_hex_valid(inputs@, blinds@, key@, dleq_scalar@) ==> r == Err::<Expected, OprfError>(OprfError::InvalidHex),
        vector_hex_valid(inputs@, blinds@, key@, dleq_scalar@) ==> {
            let (xs, bs, sk, k) = (hex_list(inputs@), hex_list(blinds@), hex_bytes(key@), hex_bytes(dleq_scalar@));
            &&& sk.len() != 32 ==> r == Err::<Expected, OprfError>(OprfError::InvalidKeyLength)
            &&& sk.len() == 32 && !run_arguments_valid(vector_suite(), sk, xs, bs, k)
                ==> r == Err::<Expected, OprfError>(OprfError::InvalidScalar)
            &&& run_arguments_valid(vector_suite(), sk, xs, bs, k) ==> (r is Ok <==> run_proof_verifies(
                vector_suite(), sk, xs, bs, k))
            &&& r matches Err(e) ==> (e == OprfError::InvalidKeyLength || e == OprfError::InvalidScalar
                || e == OprfError::ProofVerificationFailed)
            &&& r matches Ok(exp) ==> exp.outputs@.len() == pair_count(xs, bs)
                && (forall|i: int| 0 <= i < exp.outputs@.len() ==> (#[trigger] exp.outputs@[i])@ == hex_of(
                    run_output(vector_suite(), sk, xs[i], bs[i], aux_data())))
                && exp.proof.0@ == hex_of(run_proof(vector_suite(), sk, xs, bs, k).0)
                && exp.proof.1@ == hex_of(run_proof(vector_suite(), sk, xs, bs, k).1)
        },
{
    let xs = match decode_hex_list(inputs) {
        Some(v) => v,
        None => { return Err(OprfError::InvalidHex); },
    };
    let bs = match decode_hex_list(blinds) {
        Some(v) => v,
        None => { return Err(OprfError::InvalidHex); },
    };
    let sk = match hex_decode(key) {
        Some(v) => v,
        None => { return Err(OprfError::InvalidHex); },
    };
    let k = match hex_decode(dleq_scalar) {
        Some(v) => v,
        None => { return Err(OprfError::InvalidHex); },
    };
    let suite = Ciphersuite::new(Group::Ristretto255, true);
    let ctx = "oprf_finalization_step".as_bytes();
    let (outs, p) = match run_fixed(suite, sk.as_slice(), &xs, &bs, k.as_slice(), ctx) {
        Ok(x) => x,
        Err(e) => { return Err(e); },
    };
    let pr = match p {
        Some(pr) => pr,
        None => { return Err(OprfError::ProofVerificationFailed); },
    };
    let outputs = encode_hex_list(&outs);
    let c = hex_encode(pr.challenge.as_slice());
    let s = hex_encode(pr.response.as_slice());
    Ok(Expected { outputs, proof: (c, s) })
}

} // verus!
