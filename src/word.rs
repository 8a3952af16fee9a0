//! Unsigned 256-bit amounts, held as four little-endian 64-bit limbs.
use vstd::prelude::*;

verus! {

/// Two to the power 256: one more than the largest amount.
pub open spec fn word_bound() -> nat {
    limb_base() * limb_base() * limb_base() * limb_base()
}

/// Two to the power 64: the weight of one limb over the next lower one.
pub open spec fn limb_base() -> nat {
    0x1_0000_0000_0000_0000
}

/// The number that a big-endian byte string spells.
pub open spec fn be_nat(b: Seq<u8>) -> nat
    decreases b.len(),
{
    if b.len() == 0 {
        0
    } else {
        be_nat(b.drop_last()) * 256 + b.last() as nat
    }
}

/// The `k` low bytes of `n`, most significant first.
pub open spec fn be_bytes(n: nat, k: nat) -> Seq<u8>
    decreases k,
{
    if k == 0 {
        Seq::empty()
    } else {
        be_bytes(n / 256, (k - 1) as nat).push((n % 256) as u8)
    }
}

/// `256` to the power `k`.
pub open spec fn byte_pow(k: nat) -> nat
    decreases k,
{
    if k == 0 {
        1
    } else {
        256 * byte_pow((k - 1) as nat)
    }
}

pub proof fn lemma_be_bytes_len(n: nat, k: nat)
    ensures
        be_bytes(n, k).len() == k,
    decreases k,
{
    if k > 0 {
        lemma_be_bytes_len(n / 256, (k - 1) as nat);
    }
}

/// Reading back the bytes of a number that fits in them gives the number.
pub proof fn lemma_be_round_trip(n: nat, k: nat)
    requires
        n < byte_pow(k),
    ensures
        be_nat(be_bytes(n, k)) == n,
    decreases k,
{
    if k == 0 {
    } else {
        let s = be_bytes(n, k);
        assert(s.drop_last() =~= be_bytes(n / 256, (k - 1) as nat));
        assert(n / 256 < byte_pow((k - 1) as nat)) by {
            vstd::arithmetic::div_mod::lemma_div_is_ordered(
                n as int,
                (256 * byte_pow((k - 1) as nat) - 1) as int,
                256,
            );
            vstd::arithmetic::div_mod::lemma_div_multiples_vanish_fancy(
                byte_pow((k - 1) as nat) as int - 1,
                255,
                256,
            );
        }
        lemma_be_round_trip(n / 256, (k - 1) as nat);
        vstd::arithmetic::div_mod::lemma_fundamental_div_mod(n as int, 256);
    }
}

pub proof fn lemma_byte_pow_32()
    ensures
        byte_pow(32) == word_bound(),
{
    reveal_with_fuel(byte_pow, 33);
}

/// An unsigned 256-bit integer.
#[derive(Clone, Copy, Debug)]
pub struct U256 {
    /// Limbs, least significant first.
    pub limbs: [u64; 4],
}

impl View for U256 {
    type V = nat;

    open spec fn view(&self) -> nat {
        let m = limb_base();
        self.limbs@[0] as nat + m * (self.limbs@[1] as nat + m * (self.limbs@[2] as nat + m
            * self.limbs@[3] as nat))
    }
}

pub proof fn lemma_u256_bound(x: U256)
    ensures
        x@ < word_bound(),
{
    let a = x.limbs@[0] as int;
    let b = x.limbs@[1] as int;
    let c = x.limbs@[2] as int;
    let d = x.limbs@[3] as int;
    let m: int = 0x1_0000_0000_0000_0000;
    assert(a + m * (b + m * (c + m * d)) < m * m * m * m) by (nonlinear_arith)
        requires
            0 <= a < m,
            0 <= b < m,
            0 <= c < m,
            0 <= d < m,
            m == 0x1_0000_0000_0000_0000,
    ;
}

impl U256 {
    /// The amount `x`.
    pub fn from_u64(x: u64) -> (r: U256)
        ensures
            r@ == x,
    {
        U256 { limbs: [x, 0, 0, 0] }
    }

    /// Zero.
    pub fn zero() -> (r: U256)
        ensures
            r@ == 0,
    {
        U256 { limbs: [0, 0, 0, 0] }
    }
}

/// Relies on `U256::div_mod` of the `uint` crate (through ethers): quotient
/// and remainder of a division; it panics on a zero divisor.
#[verifier::external_body]
pub(crate) fn div_mod(a: U256, d: U256) -> (r: (U256, U256))
    requires
        d@ > 0,
    ensures
        r.0@ == a@ / d@,
        r.1@ == a@ % d@,
{
    let (q, m) = ethers::types::U256(a.limbs).div_mod(ethers::types::U256(d.limbs));
    (U256 { limbs: q.0 }, U256 { limbs: m.0 })
}

/// Relies on `U256::checked_add` of the `uint` crate: the sum, or `None` when
/// it does not fit in 256 bits.
#[verifier::external_body]
pub(crate) fn checked_add(a: U256, b: U256) -> (r: Option<U256>)
    ensures
        r is None <==> a@ + b@ >= word_bound(),
        r matches Some(s) ==> s@ == a@ + b@,
{
    ethers::types::U256(a.limbs).checked_add(ethers::types::U256(b.limbs)).map(|s| U256 { limbs: s.0 })
}

/// Relies on `U256::checked_mul` of the `uint` crate: the product, or `None`
/// when it does not fit in 256 bits.
#[verifier::external_body]
pub(crate) fn checked_mul(a: U256, b: U256) -> (r: Option<U256>)
    ensures
        r is None <==> a@ * b@ >= word_bound(),
        r matches Some(s) ==> s@ == a@ * b@,
{
    ethers::types::U256(a.limbs).checked_mul(ethers::types::U256(b.limbs)).map(|s| U256 { limbs: s.0 })
}

/// Relies on `U256::from_big_endian` of the `uint` crate: the number that at
/// most 32 big-endian bytes spell; it panics on longer input.
#[verifier::external_body]
pub(crate) fn from_big_endian(b: &[u8]) -> (r: U256)
    requires
        b@.len() <= 32,
    ensures
        r@ == be_nat(b@),
{
    U256 { limbs: ethers::types::U256::from_big_endian(b).0 }
}

/// Relies on the `Ord` of the `uint` crate's `U256`, which compares limbs from
/// the most significant down: whether `a` is at least `b`.
#[verifier::external_body]
pub(crate) fn at_least(a: U256, b: U256) -> (r: bool)
    ensures
        r == (a@ >= b@),
{
    ethers::types::U256(a.limbs) >= ethers::types::U256(b.limbs)
}

} // verus!
