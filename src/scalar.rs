use vstd::prelude::*;
use vstd::arithmetic::power::pow;
use vstd::arithmetic::power2::{pow2, lemma2_to64, lemma2_to64_rest, lemma_pow2_adds, lemma_pow2_strictly_increases};
use curve25519_dalek::scalar::Scalar;
use rand::RngCore;

verus! {

/// The order of the ristretto255 group, 2^252 + 27742317777372353535851937790883648493.
pub open spec fn group_order() -> nat {
    pow2(252) + 27742317777372353535851937790883648493
}

/// The integer that a little-endian byte string denotes.
pub open spec fn le_nat(b: Seq<u8>) -> nat
    decreases b.len(),
{
    if b.len() == 0 {
        0
    } else {
        b[0] as nat + 256 * le_nat(b.drop_first())
    }
}

/// The `k` low bytes of `n`, little-endian.
pub open spec fn le_bytes(n: nat, k: nat) -> Seq<u8>
    decreases k,
{
    if k == 0 {
        Seq::empty()
    } else {
        seq![(n % 256) as u8] + le_bytes(n / 256, (k - 1) as nat)
    }
}

/// The canonical 32-byte encoding of the scalar `x mod l`.
pub open spec fn scalar_enc(x: int) -> Seq<u8> {
    le_bytes((x % group_order() as int) as nat, 32)
}

/// 32 bytes that encode an integer below the group order.
pub open spec fn canonical_scalar(b: Seq<u8>) -> bool {
    b.len() == 32 && le_nat(b) < group_order()
}

/// A canonical encoding of a scalar other than zero.
pub open spec fn nonzero_scalar(b: Seq<u8>) -> bool {
    canonical_scalar(b) && le_nat(b) != 0
}

/// The scalar one, as 32 bytes.
pub open spec fn scalar_one() -> Seq<u8> {
    seq![1u8] + Seq::new(31, |i: int| 0u8)
}

/// The scalar zero, as 32 bytes.
pub open spec fn scalar_zero() -> Seq<u8> {
    Seq::new(32, |i: int| 0u8)
}

/// Reading back `k` bytes of `n` gives `n` when it fits.
pub proof fn lemma_le_bytes_value(n: nat, k: nat)
    requires
        n < pow2(8 * k),
    ensures
        le_nat(le_bytes(n, k)) == n,
        le_bytes(n, k).len() == k,
    decreases k,
{
    if k == 0 {
        assert(pow2(0) == 1) by {
            lemma2_to64();
        }
    } else {
        let b = le_bytes(n, k);
        assert(pow2(8 * k) == pow2(8 * (k - 1) as nat) * pow2(8)) by {
            lemma_pow2_adds(8 * (k - 1) as nat, 8);
        }
        assert(pow2(8) == 256) by {
            lemma2_to64();
        }
        assert(n / 256 < pow2(8 * (k - 1) as nat)) by (nonlinear_arith)
            requires
                n < pow2(8 * (k - 1) as nat) * 256,
        ;
        lemma_le_bytes_value(n / 256, (k - 1) as nat);
        assert(b.drop_first() =~= le_bytes(n / 256, (k - 1) as nat));
        assert(n == (n % 256) + 256 * (n / 256)) by (nonlinear_arith);
    }
}

/// The group order fits in 256 bits.
pub proof fn lemma_group_order_bound()
    ensures
        0 < group_order() < pow2(256),
{
    lemma2_to64();
    lemma2_to64_rest();
    lemma_pow2_adds(252, 4);
    lemma_pow2_adds(64, 64);
    lemma_pow2_strictly_increases(128, 252);
}

/// The canonical encoding of a scalar reads back as that scalar.
pub proof fn lemma_scalar_enc_value(x: int)
    ensures
        le_nat(scalar_enc(x)) == x % group_order() as int,
        scalar_enc(x).len() == 32,
{
    lemma_group_order_bound();
    let l = group_order() as int;
    assert(0 <= x % l < l);
    lemma_le_bytes_value((x % l) as nat, 32);
}

proof fn lemma_le_nat_zero(b: Seq<u8>)
    ensures
        (le_nat(b) == 0) <==> (forall|i: int| 0 <= i < b.len() ==> b[i] == 0),
    decreases b.len(),
{
    if b.len() > 0 {
        lemma_le_nat_zero(b.drop_first());
        if le_nat(b) == 0 {
            assert forall|i: int| 0 <= i < b.len() implies b[i] == 0 by {
                if i > 0 {
                    assert(b[i] == b.drop_first()[i - 1]);
                }
            }
        }
        if forall|i: int| 0 <= i < b.len() ==> b[i] == 0 {
            assert forall|i: int| 0 <= i < b.drop_first().len() implies b.drop_first()[i] == 0 by {
                assert(b.drop_first()[i] == b[i + 1]);
            }
        }
    }
}

/// Whether 32 bytes encode a scalar that is canonical and not zero.
pub fn is_nonzero_scalar(b: &[u8]) -> (r: bool)
    ensures
        r == nonzero_scalar(b@),
{
    if b.len() != 32 {
        return false;
    }
    if !scalar_is_canonical(b) {
        return false;
    }
    let mut i: usize = 0;
    while i < 32
        invariant
            i <= 32,
            b@.len() == 32,
            le_nat(b@) < group_order(),
            forall|j: int| 0 <= j < i ==> b@[j] == 0,
        decreases 32 - i,
    {
        if b[i] != 0 {
            proof {
                lemma_le_nat_zero(b@);
                assert(b@[i as int] != 0);
            }
            return true;
        }
        i = i + 1;
    }
    proof {
        lemma_le_nat_zero(b@);
    }
    false
}

/// The scalar one.
pub fn one_bytes() -> (r: Vec<u8>)
    ensures
        r@ == scalar_one(),
{
    let mut v: Vec<u8> = Vec::new();
    v.push(1u8);
    let mut i: usize = 0;
    while i < 31
        invariant
            i <= 31,
            v@ == seq![1u8] + Seq::new(i as nat, |j: int| 0u8),
        decreases 31 - i,
    {
        v.push(0u8);
        i = i + 1;
        assert(v@ =~= seq![1u8] + Seq::new(i as nat, |j: int| 0u8));
    }
    v
}

/// The scalar zero.
pub fn zero_bytes() -> (r: Vec<u8>)
    ensures
        r@ == scalar_zero(),
{
    let mut v: Vec<u8> = Vec::new();
    let mut i: usize = 0;
    while i < 32
        invariant
            i <= 32,
            v@ == Seq::new(i as nat, |j: int| 0u8),
        decreases 32 - i,
    {
        v.push(0u8);
        i = i + 1;
        assert(v@ =~= Seq::new(i as nat, |j: int| 0u8));
    }
    v
}

/// Relies on Scalar::from_canonical_bytes: it accepts exactly the encodings
/// of integers below the group order.
#[verifier::external_body]
pub(crate) fn scalar_is_canonical(b: &[u8]) -> (r: bool)
    requires
        b@.len() == 32,
    ensures
        r == (le_nat(b@) < group_order()),
{
    let a: [u8; 32] = b.try_into().unwrap();
    bool::from(Scalar::from_canonical_bytes(a).is_some())
}

/// Relies on Scalar * Scalar: the product modulo the group order, each
/// operand read through Scalar::from_bytes_mod_order and the result through
/// Scalar::to_bytes.
#[verifier::external_body]
pub(crate) fn scalar_mul(a: &[u8], b: &[u8]) -> (r: Vec<u8>)
    requires
        a@.len() == 32,
        b@.len() == 32,
    ensures
        r@ == scalar_enc((le_nat(a@) * le_nat(b@)) as int),
        r@.len() == 32,
{
    let x = Scalar::from_bytes_mod_order(a.try_into().unwrap());
    let y = Scalar::from_bytes_mod_order(b.try_into().unwrap());
    (x * y).to_bytes().to_vec()
}

/// Relies on Scalar - Scalar: the difference modulo the group order.
#[verifier::external_body]
pub(crate) fn scalar_sub(a: &[u8], b: &[u8]) -> (r: Vec<u8>)
    requires
        a@.len() == 32,
        b@.len() == 32,
    ensures
        r@ == scalar_enc(le_nat(a@) - le_nat(b@)),
        r@.len() == 32,
{
    let x = Scalar::from_bytes_mod_order(a.try_into().unwrap());
    let y = Scalar::from_bytes_mod_order(b.try_into().unwrap());
    (x - y).to_bytes().to_vec()
}

/// Relies on Scalar::invert: the multiplicative inverse of a nonzero scalar,
/// which, the group order being prime, is `a^(l-2) mod l`.
#[verifier::external_body]
pub(crate) fn scalar_invert(a: &[u8]) -> (r: Vec<u8>)
    requires
        a@.len() == 32,
        le_nat(a@) % group_order() != 0,
    ensures
        r@ == scalar_enc(pow(le_nat(a@) as int, (group_order() - 2) as nat)),
        r@.len() == 32,
{
    Scalar::from_bytes_mod_order(a.try_into().unwrap()).invert().to_bytes().to_vec()
}

/// Relies on Scalar::from_bytes_mod_order_wide: 64 little-endian bytes
/// reduced modulo the group order.
#[verifier::external_body]
pub(crate) fn scalar_reduce_wide(w: &[u8]) -> (r: Vec<u8>)
    requires
        w@.len() == 64,
    ensures
        r@ == scalar_enc(le_nat(w@) as int),
        r@.len() == 32,
{
    let a: [u8; 64] = w.try_into().unwrap();
    Scalar::from_bytes_mod_order_wide(&a).to_bytes().to_vec()
}

/// Relies on rand's thread_rng and RngCore::fill_bytes: 64 bytes drawn from
/// the operating system's generator.
#[verifier::external_body]
pub(crate) fn random_wide() -> (r: Vec<u8>)
    ensures
        r@.len() == 64,
{
    let mut a = [0u8; 64];
    rand::thread_rng().fill_bytes(&mut a);
    a.to_vec()
}

} // verus!
