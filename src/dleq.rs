use vstd::prelude::*;
use crate::bytes::{frame, views, len_prefix, push_field, push_fields, push_bytes, push_len, lemma_frame_push};
use crate::ciphersuite::{Ciphersuite, Step};
use crate::group::{
    ristretto_decodes, ristretto_mul_of, ristretto_base_mul_of, ristretto_add_of, sha512_of,
    point_mul, point_base_mul, point_add, sha512,
};
use crate::scalar::{le_nat, scalar_enc, scalar_one, scalar_zero, one_bytes, zero_bytes,
    scalar_reduce_wide, scalar_mul, scalar_sub};

verus! {

/// The group's generator, the base point.
pub open spec fn generator() -> Seq<u8> {
    ristretto_base_mul_of(scalar_one())
}

/// The group's identity element.
pub open spec fn identity() -> Seq<u8> {
    ristretto_base_mul_of(scalar_zero())
}

/// A message hashed to a scalar: its SHA-512 digest reduced modulo the group order.
pub open spec fn hash_to_scalar(m: Seq<u8>) -> Seq<u8> {
    scalar_enc(le_nat(sha512_of(m)) as int)
}

/// Every element of the sequence is an encoded group element.
pub open spec fn all_decode(es: Seq<Seq<u8>>) -> bool {
    forall|i: int| 0 <= i < es.len() ==> (#[trigger] es[i]).len() == 32 && ristretto_decodes(es[i])
}

/// The seed of the batching coefficients: a hash of the whole statement.
pub open spec fn batch_seed(suite: Ciphersuite, y: Seq<u8>, ms: Seq<Seq<u8>>, zs: Seq<Seq<u8>>) -> Seq<u8> {
    sha512_of(frame(seq![suite.spec_tag(Step::Seed), generator(), y] + ms + zs))
}

/// The coefficient of the `i`-th pair of the batch.
pub open spec fn coefficient(seed: Seq<u8>, i: nat) -> Seq<u8> {
    hash_to_scalar(seed + len_prefix(i))
}

/// The sum of the elements, each weighted by its coefficient.
pub open spec fn composite(seed: Seq<u8>, es: Seq<Seq<u8>>) -> Seq<u8>
    decreases es.len(),
{
    if es.len() == 0 {
        identity()
    } else {
        ristretto_add_of(
            composite(seed, es.drop_last()),
            ristretto_mul_of(coefficient(seed, (es.len() - 1) as nat), es.last()),
        )
    }
}

/// The Fiat-Shamir challenge over the batched statement and the two commitments.
pub open spec fn challenge(
    suite: Ciphersuite,
    y: Seq<u8>,
    m: Seq<u8>,
    z: Seq<u8>,
    a: Seq<u8>,
    b: Seq<u8>,
) -> Seq<u8> {
    hash_to_scalar(frame(seq![suite.spec_tag(Step::Challenge), generator(), y, m, z, a, b]))
}

/// The proof `(c, s)` that the key `sk` maps the generator to its public key
/// and each `ms[i]` to `zs[i]`, made with the nonce `k`.
pub open spec fn proof_of(
    suite: Ciphersuite,
    sk: Seq<u8>,
    ms: Seq<Seq<u8>>,
    zs: Seq<Seq<u8>>,
    k: Seq<u8>,
) -> (Seq<u8>, Seq<u8>) {
    let y = ristretto_base_mul_of(sk);
    let seed = batch_seed(suite, y, ms, zs);
    let m = composite(seed, ms);
    let z = composite(seed, zs);
    let c = challenge(suite, y, m, z, ristretto_base_mul_of(k), ristretto_mul_of(k, m));
    (c, scalar_enc(le_nat(k) - le_nat(c) * le_nat(sk)))
}

/// Whether `(c, s)` proves that one key maps the generator to `y` and each
/// `ms[i]` to `zs[i]`: the challenge recomputed from the response equals `c`.
pub open spec fn proof_verifies(
    suite: Ciphersuite,
    y: Seq<u8>,
    ms: Seq<Seq<u8>>,
    zs: Seq<Seq<u8>>,
    c: Seq<u8>,
    s: Seq<u8>,
) -> bool {
    let seed = batch_seed(suite, y, ms, zs);
    let m = composite(seed, ms);
    let z = composite(seed, zs);
    let a = ristretto_add_of(ristretto_base_mul_of(s), ristretto_mul_of(c, y));
    let b = ristretto_add_of(ristretto_mul_of(s, m), ristretto_mul_of(c, z));
    challenge(suite, y, m, z, a, b) == c
}

/// Hashes a message to a scalar.
pub fn hash_to_scalar_of(m: &[u8]) -> (r: Vec<u8>)
    ensures
        r@ == hash_to_scalar(m@),
        r@.len() == 32,
{
    let h = sha512(m);
    scalar_reduce_wide(h.as_slice())
}

/// The encoding of the generator.
pub fn generator_of() -> (r: Vec<u8>)
    ensures
        r@ == generator(),
        r@.len() == 32,
        ristretto_decodes(r@),
{
    let one = one_bytes();
    point_base_mul(one.as_slice())
}

fn batch_seed_of(suite: &Ciphersuite, y: &[u8], ms: &Vec<Vec<u8>>, zs: &Vec<Vec<u8>>) -> (r: Vec<u8>)
    ensures
        r@ == batch_seed(*suite, y@, views(ms@), views(zs@)),
        r@.len() == 64,
{
    let mut out: Vec<u8> = Vec::new();
    let tag = suite.tag(Step::Seed);
    let g = generator_of();
    let ghost e = Seq::<Seq<u8>>::empty();
    assert(out@ =~= frame(e));
    push_field(&mut out, tag.as_slice());
    proof { lemma_frame_push(e, tag@); }
    push_field(&mut out, g.as_slice());
    proof { lemma_frame_push(e.push(tag@), g@); }
    push_field(&mut out, y);
    proof { lemma_frame_push(e.push(tag@).push(g@), y@); }
    let ghost head = seq![suite.spec_tag(Step::Seed), generator(), y@];
    assert(head =~= e.push(tag@).push(g@).push(y@));
    push_fields(&mut out, ms, Ghost(head));
    push_fields(&mut out, zs, Ghost(head + views(ms@)));
    sha512(out.as_slice())
}

fn coefficient_of(seed: &[u8], i: usize) -> (r: Vec<u8>)
    ensures
        r@ == coefficient(seed@, i as nat),
        r@.len() == 32,
{
    let mut m: Vec<u8> = Vec::new();
    push_bytes(&mut m, seed);
    push_len(&mut m, i as u64);
    assert(m@ =~= seed@ + len_prefix(i as nat));
    hash_to_scalar_of(m.as_slice())
}

fn composite_of(seed: &[u8], es: &Vec<Vec<u8>>) -> (r: Vec<u8>)
    requires
        all_decode(views(es@)),
    ensures
        r@ == composite(seed@, views(es@)),
        r@.len() == 32,
        ristretto_decodes(r@),
{
    let ghost vs = views(es@);
    let zero = zero_bytes();
    let mut acc = point_base_mul(zero.as_slice());
    let mut i: usize = 0;
    assert(vs.subrange(0, 0) =~= Seq::<Seq<u8>>::empty());
    while i < es.len()
        invariant
            i <= es@.len(),
            vs == views(es@),
            all_decode(vs),
            acc@ == composite(seed@, vs.subrange(0, i as int)),
            acc@.len() == 32,
            ristretto_decodes(acc@),
        decreases es@.len() - i,
    {
        let d = coefficient_of(seed, i);
        assert(vs[i as int] == es@[i as int]@);
        let term = point_mul(d.as_slice(), es[i].as_slice());
        acc = point_add(acc.as_slice(), term.as_slice());
        i = i + 1;
        assert(vs.subrange(0, i as int).drop_last() =~= vs.subrange(0, i - 1 as int));
    }
    assert(vs.subrange(0, i as int) =~= vs);
    acc
}

fn challenge_of(
    suite: &Ciphersuite,
    y: &[u8],
    m: &[u8],
    z: &[u8],
    a: &[u8],
    b: &[u8],
) -> (r: Vec<u8>)
    ensures
        r@ == challenge(*suite, y@, m@, z@, a@, b@),
        r@.len() == 32,
{
    let tag = suite.tag(Step::Challenge);
    let g = generator_of();
    let mut out: Vec<u8> = Vec::new();
    let ghost e = Seq::<Seq<u8>>::empty();
    assert(out@ =~= frame(e));
    push_field(&mut out, tag.as_slice());
    proof { lemma_frame_push(e, tag@); }
    push_field(&mut out, g.as_slice());
    proof { lemma_frame_push(e.push(tag@), g@); }
    push_field(&mut out, y);
    proof { lemma_frame_push(e.push(tag@).push(g@), y@); }
    push_field(&mut out, m);
    proof { lemma_frame_push(e.push(tag@).push(g@).push(y@), m@); }
    push_field(&mut out, z);
    proof { lemma_frame_push(e.push(tag@).push(g@).push(y@).push(m@), z@); }
    push_field(&mut out, a);
    proof { lemma_frame_push(e.push(tag@).push(g@).push(y@).push(m@).push(z@), a@); }
    push_field(&mut out, b);
    proof {
        lemma_frame_push(e.push(tag@).push(g@).push(y@).push(m@).push(z@).push(a@), b@);
        assert(seq![suite.spec_tag(Step::Challenge), generator(), y@, m@, z@, a@, b@]
            =~= e.push(tag@).push(g@).push(y@).push(m@).push(z@).push(a@).push(b@));
    }
    hash_to_scalar_of(out.as_slice())
}

/// Makes the proof that `sk` maps the generator to its public key and each
/// `ms[i]` to `zs[i]`, with the nonce `k`.
pub fn prove(suite: &Ciphersuite, sk: &[u8], ms: &Vec<Vec<u8>>, zs: &Vec<Vec<u8>>, k: &[u8]) -> (r: (Vec<u8>, Vec<u8>))
    requires
        sk@.len() == 32,
        k@.len() == 32,
        all_decode(views(ms@)),
        all_decode(views(zs@)),
    ensures
        (r.0@, r.1@) == proof_of(*suite, sk@, views(ms@), views(zs@), k@),
        r.0@.len() == 32,
        r.1@.len() == 32,
{
    let y = point_base_mul(sk);
    let seed = batch_seed_of(suite, y.as_slice(), ms, zs);
    let m = composite_of(seed.as_slice(), ms);
    let z = composite_of(seed.as_slice(), zs);
    let a = point_base_mul(k);
    let b = point_mul(k, m.as_slice());
    let c = challenge_of(suite, y.as_slice(), m.as_slice(), z.as_slice(), a.as_slice(), b.as_slice());
    let csk = scalar_mul(c.as_slice(), sk);
    let s = scalar_sub(k, csk.as_slice());
    proof {
        let x = (le_nat(c@) * le_nat(sk@)) as int;
        let l = crate::scalar::group_order() as int;
        crate::scalar::lemma_scalar_enc_value(x);
        crate::scalar::lemma_group_order_bound();
        assert((le_nat(k@) - x % l) % l == (le_nat(k@) - x) % l) by {
            vstd::arithmetic::div_mod::lemma_sub_mod_noop_right(le_nat(k@) as int, x, l);
        }
    }
    (c, s)
}

/// Whether `(c, s)` proves that one key maps the generator to `y` and each
/// `ms[i]` to `zs[i]`.
pub fn verify(suite: &Ciphersuite, y: &[u8], ms: &Vec<Vec<u8>>, zs: &Vec<Vec<u8>>, c: &[u8], s: &[u8]) -> (r: bool)
    requires
        y@.len() == 32,
        ristretto_decodes(y@),
        c@.len() == 32,
        s@.len() == 32,
        all_decode(views(ms@)),
        all_decode(views(zs@)),
    ensures
        r == proof_verifies(*suite, y@, views(ms@), views(zs@), c@, s@),
{
    let seed = batch_seed_of(suite, y, ms, zs);
    let m = composite_of(seed.as_slice(), ms);
    let z = composite_of(seed.as_slice(), zs);
    let sg = point_base_mul(s);
    let cy = point_mul(c, y);
    let a = point_add(sg.as_slice(), cy.as_slice());
    let sm = point_mul(s, m.as_slice());
    let cz = point_mul(c, z.as_slice());
    let b = point_add(sm.as_slice(), cz.as_slice());
    let c2 = challenge_of(suite, y, m.as_slice(), z.as_slice(), a.as_slice(), b.as_slice());
    bytes_equal(c2.as_slice(), c)
}

/// Compares two byte strings in time that depends on their lengths only.
pub fn bytes_equal(a: &[u8], b: &[u8]) -> (r: bool)
    ensures
        r == (a@ == b@),
{
    if a.len() != b.len() {
        return false;
    }
    let mut diff: u8 = 0;
    let mut i: usize = 0;
    while i < a.len()
        invariant
            i <= a@.len(),
            a@.len() == b@.len(),
            (diff == 0) == (forall|j: int| 0 <= j < i ==> a@[j] == b@[j]),
        decreases a@.len() - i,
    {
        let ai: u8 = a[i];
        let bi: u8 = b[i];
        let x: u8 = ai ^ bi;
        assert((x == 0) == (ai == bi)) by (bit_vector)
            requires
                x == ai ^ bi;
        let d2: u8 = diff | x;
        assert((d2 == 0) == (diff == 0 && x == 0)) by (bit_vector)
            requires
                d2 == diff | x;
        diff = d2;
        i = i + 1;
        assert((diff == 0) == (forall|j: int| 0 <= j < i ==> a@[j] == b@[j])) by {
            if diff != 0 && x == 0 {
                let w = choose|j: int| 0 <= j < i - 1 && a@[j] != b@[j];
                assert(0 <= w < i && a@[w] != b@[w]);
            }
        }
    }
    if diff == 0 {
        assert(a@ =~= b@);
    }
    diff == 0
}

} // verus!
