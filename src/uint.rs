//! Wide unsigned and signed words held as little-endian 64-bit limbs, and the
//! few operations of the `uint` crate (reached through `ethers::types`) that
//! the price arithmetic is built on.
use vstd::arithmetic::power2::pow2;
use vstd::prelude::*;

verus! {

/// 2^64, the weight of one limb.
pub open spec fn limb_base() -> int {
    0x1_0000_0000_0000_0000int
}

/// 2^96, the fixed-point scale of a sqrt-price.
pub open spec fn q96() -> int {
    0x1_0000_0000_0000_0000_0000_0000int
}

/// 2^160, one past the largest amount that can be shifted by 96 bits in a word.
pub open spec fn two_pow_160() -> int {
    0x1_0000_0000_0000_0000_0000_0000_0000_0000_0000_0000int
}

/// 2^255, the smallest word that reads as negative in two's complement.
pub open spec fn two_pow_255() -> int {
    0x8000_0000_0000_0000_0000_0000_0000_0000_0000_0000_0000_0000_0000_0000_0000_0000int
}

/// 2^256, one past the largest value of a 256-bit word.
pub open spec fn word_modulus() -> int {
    0x1_0000_0000_0000_0000_0000_0000_0000_0000_0000_0000_0000_0000_0000_0000_0000_0000int
}

/// An unsigned 256-bit integer: `limbs[i]` carries weight 2^(64 i).
#[derive(Clone, Copy, Debug, PartialEq, Eq)]
pub struct U256 {
    pub limbs: [u64; 4],
}

/// An unsigned 512-bit integer: `limbs[i]` carries weight 2^(64 i).
#[derive(Clone, Copy, Debug, PartialEq, Eq)]
pub struct U512 {
    pub limbs: [u64; 8],
}

/// A signed 256-bit integer in two's complement over the bits of `raw`.
#[derive(Clone, Copy, Debug, PartialEq, Eq)]
pub struct I256 {
    pub raw: U256,
}

/// The value of four little-endian 64-bit limbs.
pub open spec fn limbs4_value(l0: int, l1: int, l2: int, l3: int) -> int {
    l0 + 0x1_0000_0000_0000_0000int * l1 + 0x1_0000_0000_0000_0000_0000_0000_0000_0000int * l2
        + 0x1_0000_0000_0000_0000_0000_0000_0000_0000_0000_0000_0000_0000int * l3
}

impl View for U256 {
    type V = int;

    open spec fn view(&self) -> int {
        limbs4_value(
            self.limbs[0] as int,
            self.limbs[1] as int,
            self.limbs[2] as int,
            self.limbs[3] as int,
        )
    }
}

impl View for U512 {
    type V = int;

    open spec fn view(&self) -> int {
        limbs4_value(
            self.limbs[0] as int,
            self.limbs[1] as int,
            self.limbs[2] as int,
            self.limbs[3] as int,
        ) + word_modulus() * limbs4_value(
            self.limbs[4] as int,
            self.limbs[5] as int,
            self.limbs[6] as int,
            self.limbs[7] as int,
        )
    }
}

impl View for I256 {
    type V = int;

    open spec fn view(&self) -> int {
        if self.raw@ < two_pow_255() {
            self.raw@
        } else {
            self.raw@ - word_modulus()
        }
    }
}

/// Four limbs always make a value in `[0, 2^256)`, zero exactly when all limbs are; the
/// top limbs alone decide whether it is below 2^160 or 2^255.
proof fn lemma_limbs4_bounds(l0: int, l1: int, l2: int, l3: int)
    requires
        0 <= l0 < limb_base(),
        0 <= l1 < limb_base(),
        0 <= l2 < limb_base(),
        0 <= l3 < limb_base(),
    ensures
        0 <= limbs4_value(l0, l1, l2, l3) < word_modulus(),
        limbs4_value(l0, l1, l2, l3) == 0 <==> (l0 == 0 && l1 == 0 && l2 == 0 && l3 == 0),
        limbs4_value(l0, l1, l2, l3) < two_pow_160() <==> (l3 == 0 && l2 < 0x1_0000_0000),
        limbs4_value(l0, l1, l2, l3) < two_pow_255() <==> l3 < 0x8000_0000_0000_0000,
{
}

/// `pow2(96)` is the sqrt-price scale.
pub proof fn lemma_pow2_96()
    ensures
        pow2(96) == q96(),
{
    vstd::arithmetic::power2::lemma2_to64();
    vstd::arithmetic::power2::lemma_pow2_adds(64, 32);
}

impl U256 {
    /// The word zero.
    pub fn zero() -> (r: U256)
        ensures
            r@ == 0,
    {
        U256 { limbs: [0, 0, 0, 0] }
    }

    /// The word 2^96, the fixed-point one of a sqrt-price.
    pub fn q96() -> (r: U256)
        ensures
            r@ == q96(),
    {
        U256 { limbs: [0, 0x1_0000_0000, 0, 0] }
    }

    /// The word holding `x`.
    pub fn from_u128(x: u128) -> (r: U256)
        ensures
            r@ == x as int,
    {
        let lo = (x % 0x1_0000_0000_0000_0000) as u64;
        let hi = (x / 0x1_0000_0000_0000_0000) as u64;
        U256 { limbs: [lo, hi, 0, 0] }
    }

    /// Every word lies in `[0, 2^256)`.
    pub proof fn lemma_bounds(self)
        ensures
            0 <= self@ < word_modulus(),
    {
        lemma_limbs4_bounds(
            self.limbs[0] as int,
            self.limbs[1] as int,
            self.limbs[2] as int,
            self.limbs[3] as int,
        );
    }

    /// Whether the word is zero.
    pub fn is_zero(&self) -> (r: bool)
        ensures
            r == (self@ == 0),
    {
        proof {
            lemma_limbs4_bounds(
                self.limbs[0] as int,
                self.limbs[1] as int,
                self.limbs[2] as int,
                self.limbs[3] as int,
            );
        }
        self.limbs[0] == 0 && self.limbs[1] == 0 && self.limbs[2] == 0 && self.limbs[3] == 0
    }

    /// Whether the word is below 2^160, so that shifting it left by 96 bits loses nothing.
    pub fn fits_in_160_bits(&self) -> (r: bool)
        ensures
            r == (self@ < two_pow_160()),
    {
        proof {
            lemma_limbs4_bounds(
                self.limbs[0] as int,
                self.limbs[1] as int,
                self.limbs[2] as int,
                self.limbs[3] as int,
            );
        }
        self.limbs[3] == 0 && self.limbs[2] < 0x1_0000_0000
    }
}

impl U512 {
    /// The 512-bit word with the value of `x`.
    pub fn from_u256(x: U256) -> (r: U512)
        ensures
            r@ == x@,
    {
        let l = x.limbs;
        U512 { limbs: [l[0], l[1], l[2], l[3], 0, 0, 0, 0] }
    }

    /// The value as a 256-bit word, or `None` when it is 2^256 or more.
    pub fn to_u256(&self) -> (r: Option<U256>)
        ensures
            match r {
                Some(w) => self@ < word_modulus() && w@ == self@,
                None => self@ >= word_modulus(),
            },
    {
        let l = self.limbs;
        proof {
            lemma_limbs4_bounds(l[0] as int, l[1] as int, l[2] as int, l[3] as int);
            lemma_limbs4_bounds(l[4] as int, l[5] as int, l[6] as int, l[7] as int);
        }
        if l[4] == 0 && l[5] == 0 && l[6] == 0 && l[7] == 0 {
            Some(U256 { limbs: [l[0], l[1], l[2], l[3]] })
        } else {
            None
        }
    }

    /// Whether the word is zero.
    pub fn is_zero(&self) -> (r: bool)
        ensures
            r == (self@ == 0),
    {
        let l = self.limbs;
        proof {
            lemma_limbs4_bounds(l[0] as int, l[1] as int, l[2] as int, l[3] as int);
            lemma_limbs4_bounds(l[4] as int, l[5] as int, l[6] as int, l[7] as int);
        }
        l[0] == 0 && l[1] == 0 && l[2] == 0 && l[3] == 0 && l[4] == 0 && l[5] == 0 && l[6] == 0
            && l[7] == 0
    }
}

impl I256 {
    /// The signed word `m`, or `-m` when `negative`; `None` when `m` is 2^255 or more,
    /// so that neither sign could be trusted to fit.
    pub fn from_magnitude(m: U256, negative: bool) -> (r: Option<I256>)
        ensures
            match r {
                Some(v) => m@ < two_pow_255() && v@ == (if negative { -m@ } else { m@ }),
                None => m@ >= two_pow_255(),
            },
    {
        proof {
            lemma_limbs4_bounds(
                m.limbs[0] as int,
                m.limbs[1] as int,
                m.limbs[2] as int,
                m.limbs[3] as int,
            );
        }
        if m.limbs[3] >= 0x8000_0000_0000_0000 {
            None
        } else if negative {
            let raw = negate(m);
            proof {
                raw.lemma_bounds();
            }
            Some(I256 { raw })
        } else {
            Some(I256 { raw: m })
        }
    }
}

/// Relies on `checked_add` of the `uint` crate (ethers' `U256`): the exact sum, or
/// `None` when it does not fit in 256 bits.
#[verifier::external_body]
pub(crate) fn checked_add(a: U256, b: U256) -> (r: Option<U256>)
    ensures
        match r {
            Some(s) => a@ + b@ < word_modulus() && s@ == a@ + b@,
            None => a@ + b@ >= word_modulus(),
        },
{
    match ethers::types::U256(a.limbs).checked_add(ethers::types::U256(b.limbs)) {
        Some(s) => Some(U256 { limbs: s.0 }),
        None => None,
    }
}

/// Relies on `Add` of the `uint` crate (ethers' `U256`): the exact sum; it panics when
/// the sum does not fit, which `requires` leaves out.
#[verifier::external_body]
pub(crate) fn add_exact(a: U256, b: U256) -> (r: U256)
    requires
        a@ + b@ < word_modulus(),
    ensures
        r@ == a@ + b@,
{
    U256 { limbs: (ethers::types::U256(a.limbs) + ethers::types::U256(b.limbs)).0 }
}

/// Relies on `checked_sub` of the `uint` crate (ethers' `U256`): the exact difference,
/// or `None` when `b` exceeds `a`.
#[verifier::external_body]
pub(crate) fn checked_sub(a: U256, b: U256) -> (r: Option<U256>)
    ensures
        match r {
            Some(d) => a@ >= b@ && d@ == a@ - b@,
            None => a@ < b@,
        },
{
    match ethers::types::U256(a.limbs).checked_sub(ethers::types::U256(b.limbs)) {
        Some(d) => Some(U256 { limbs: d.0 }),
        None => None,
    }
}

/// Relies on `Sub` of the `uint` crate (ethers' `U256`): the exact difference; it panics
/// when `b` exceeds `a`, which `requires` leaves out.
#[verifier::external_body]
pub(crate) fn sub_exact(a: U256, b: U256) -> (r: U256)
    requires
        a@ >= b@,
    ensures
        r@ == a@ - b@,
{
    U256 { limbs: (ethers::types::U256(a.limbs) - ethers::types::U256(b.limbs)).0 }
}

/// Relies on `checked_mul` of the `uint` crate (ethers' `U256`): the exact product, or
/// `None` when it does not fit in 256 bits.
#[verifier::external_body]
pub(crate) fn checked_mul(a: U256, b: U256) -> (r: Option<U256>)
    ensures
        match r {
            Some(p) => a@ * b@ < word_modulus() && p@ == a@ * b@,
            None => a@ * b@ >= word_modulus(),
        },
{
    match ethers::types::U256(a.limbs).checked_mul(ethers::types::U256(b.limbs)) {
        Some(p) => Some(U256 { limbs: p.0 }),
        None => None,
    }
}

/// Relies on `div_mod` of the `uint` crate (ethers' `U256`): floored quotient and
/// remainder; it panics on a zero divisor, which `requires` leaves out.
#[verifier::external_body]
pub(crate) fn div_mod(a: U256, b: U256) -> (r: (U256, U256))
    requires
        b@ != 0,
    ensures
        r.0@ == a@ / b@,
        r.1@ == a@ % b@,
{
    let (q, m) = ethers::types::U256(a.limbs).div_mod(ethers::types::U256(b.limbs));
    (U256 { limbs: q.0 }, U256 { limbs: m.0 })
}

/// Relies on `Shl` of the `uint` crate (ethers' `U256`): the bits moved up by `bits`
/// places, those past bit 255 dropped.
#[verifier::external_body]
pub(crate) fn shl(a: U256, bits: u32) -> (r: U256)
    requires
        bits < 256,
    ensures
        r@ == (a@ * pow2(bits as nat)) % word_modulus(),
{
    U256 { limbs: (ethers::types::U256(a.limbs) << bits).0 }
}

/// Relies on `overflowing_neg` of the `uint` crate (ethers' `U256`): the two's
/// complement negation `!a + 1` of a nonzero word, and zero for zero.
#[verifier::external_body]
pub(crate) fn negate(a: U256) -> (r: U256)
    ensures
        r@ == (word_modulus() - a@) % word_modulus(),
{
    U256 { limbs: ethers::types::U256(a.limbs).overflowing_neg().0.0 }
}

/// Relies on `U256::full_mul` of `primitive-types` (through ethers): the whole
/// 512-bit product.
#[verifier::external_body]
pub(crate) fn full_mul(a: U256, b: U256) -> (r: U512)
    ensures
        r@ == a@ * b@,
{
    U512 { limbs: ethers::types::U256(a.limbs).full_mul(ethers::types::U256(b.limbs)).0 }
}

/// Relies on `div_mod` of the `uint` crate (ethers' `U512`): floored quotient and
/// remainder; it panics on a zero divisor, which `requires` leaves out.
#[verifier::external_body]
pub(crate) fn div_mod_wide(a: U512, b: U512) -> (r: (U512, U512))
    requires
        b@ != 0,
    ensures
        r.0@ == a@ / b@,
        r.1@ == a@ % b@,
{
    let (q, m) = ethers::types::U512(a.limbs).div_mod(ethers::types::U512(b.limbs));
    (U512 { limbs: q.0 }, U512 { limbs: m.0 })
}

} // verus!
