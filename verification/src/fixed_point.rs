//! Fixed-point fractions with 128 fractional bits, used to split rewards in proportion to work.
use crate::u256::{limb_base, u256_modulus, U256};
use vstd::arithmetic::power2::pow2;
use vstd::prelude::*;

verus! {

/// Number of fractional bits.
pub const FIXED_POINT_BITS: usize = 128;

/// 2^128, the fixed-point representation of one.
pub open spec fn fixed_base() -> nat {
    limb_base() * limb_base()
}

/// 2^128 is `pow2(128)`.
pub proof fn lemma_fixed_base_is_pow2()
    ensures
        pow2(128) == fixed_base(),
{
    vstd::arithmetic::power2::lemma2_to64();
    vstd::arithmetic::power2::lemma_pow2_adds(64, 64);
}

/// A non-negative fraction `raw / 2^128`.
#[derive(Clone, Copy, Debug)]
pub struct FixedPoint(U256);

impl FixedPoint {
    /// The numerator over 2^128.
    pub closed spec fn raw(self) -> nat {
        self.0.value()
    }

    /// The representation of one, 2^128.
    pub fn base() -> (r: U256)
        ensures
            r.value() == fixed_base(),
    {
        U256::from_limbs([0, 0, 1, 0])
    }

    /// Construct a fixed-point representation of the fraction `num / dem`, rounded down.
    /// The fraction must be at most one, its numerator times 2^128 must stay below 2^256,
    /// and the denominator must not be zero; these are the inputs on which it is defined.
    pub fn fraction(num: U256, dem: U256) -> (r: FixedPoint)
        requires
            num.value() * fixed_base() < u256_modulus(),
            dem.value() != 0,
            num.value() * fixed_base() / dem.value() <= fixed_base(),
        ensures
            r.raw() == num.value() * fixed_base() / dem.value(),
    {
        let scaled = match num.checked_mul(Self::base()) {
            Some(v) => v,
            None => {
                assert(false);
                U256::zero()
            },
        };
        let fraction = scaled.wrapping_div(dem);
        FixedPoint(fraction)
    }

    /// `x` scaled by this fraction, rounded down. The product of `x` and the numerator must
    /// stay below 2^256; that is where it is defined.
    pub fn mul_unwrap(&self, x: U256) -> (r: U256)
        requires
            self.raw() * x.value() < u256_modulus(),
        ensures
            r.value() == self.raw() * x.value() / fixed_base(),
    {
        proof {
            lemma_fixed_base_is_pow2();
        }
        let product = match self.0.checked_mul(x) {
            Some(v) => v,
            None => {
                assert(false);
                U256::zero()
            },
        };
        product.wrapping_shr(FIXED_POINT_BITS)
    }

    /// The sum of two fractions; it must stay below 2^256 / 2^128.
    pub fn add(self, rhs: FixedPoint) -> (r: FixedPoint)
        requires
            self.raw() + rhs.raw() < u256_modulus(),
        ensures
            r.raw() == self.raw() + rhs.raw(),
    {
        match self.0.checked_add(rhs.0) {
            Some(v) => FixedPoint(v),
            None => {
                assert(false);
                FixedPoint(U256::zero())
            },
        }
    }

    /// Adds `rhs` to this fraction in place; the sum must stay below 2^256 / 2^128.
    pub fn add_assign(&mut self, rhs: FixedPoint)
        requires
            old(self).raw() + rhs.raw() < u256_modulus(),
        ensures
            final(self).raw() == old(self).raw() + rhs.raw(),
    {
        let sum = self.add(rhs);
        *self = sum;
    }

    /// The sum of two fractions, or `None` where it reaches 2^256 / 2^128.
    pub fn checked_add(self, rhs: FixedPoint) -> (r: Option<FixedPoint>)
        ensures
            r is Some <==> self.raw() + rhs.raw() < u256_modulus(),
            r matches Some(v) ==> v.raw() == self.raw() + rhs.raw(),
    {
        match self.0.checked_add(rhs.0) {
            Some(v) => Some(FixedPoint(v)),
            None => None,
        }
    }

    /// Whether `mul_unwrap` is defined on `x`: the product of `x` and the numerator stays
    /// below 2^256.
    pub fn mul_fits(&self, x: U256) -> (r: bool)
        ensures
            r == (self.raw() * x.value() < u256_modulus()),
    {
        self.0.checked_mul(x).is_some()
    }

    /// Zero.
    pub fn zero() -> (r: FixedPoint)
        ensures
            r.raw() == 0,
    {
        FixedPoint(U256::zero())
    }
}

impl Default for FixedPoint {
    fn default() -> (r: FixedPoint)
        ensures
            r.raw() == 0,
    {
        FixedPoint(U256::zero())
    }
}

/// A fraction of at most one scales an amount to at most that amount.
pub proof fn lemma_share_at_most_whole(f: FixedPoint, x: nat)
    requires
        f.raw() <= fixed_base(),
    ensures
        f.raw() * x / fixed_base() <= x,
{
    let b = fixed_base();
    assert(f.raw() * x <= b * x) by (nonlinear_arith)
        requires
            f.raw() <= b,
    ;
    assert(b * x / b == x) by (nonlinear_arith)
        requires
            b > 0,
    ;
    vstd::arithmetic::div_mod::lemma_div_is_ordered((f.raw() * x) as int, (b * x) as int, b as int);
}

/// Scaling by the parts of a fraction never gives more than scaling by the whole: the
/// shares handed out separately add up to at most the share of the sum.
pub proof fn lemma_shares_add_up(a: nat, b: nat, x: nat)
    ensures
        a * x / fixed_base() + b * x / fixed_base() <= (a + b) * x / fixed_base(),
{
    let d = fixed_base();
    let p = a * x;
    let q = b * x;
    assert((a + b) * x == p + q) by (nonlinear_arith)
        requires
            p == a * x,
            q == b * x,
    ;
    vstd::arithmetic::div_mod::lemma_fundamental_div_mod(p as int, d as int);
    vstd::arithmetic::div_mod::lemma_fundamental_div_mod(q as int, d as int);
    vstd::arithmetic::div_mod::lemma_fundamental_div_mod((p + q) as int, d as int);
    assert(p / d + q / d <= (p + q) / d) by (nonlinear_arith)
        requires
            d > 0,
            p == d * (p / d) + p % d,
            q == d * (q / d) + q % d,
            p + q == d * ((p + q) / d) + (p + q) % d,
            0 <= p % d < d,
            0 <= q % d < d,
            0 <= (p + q) % d < d,
    ;
}

/// The fractions of two numerators over one denominator add up to at most the fraction of
/// their sum.
pub proof fn lemma_fractions_add_up(n1: nat, n2: nat, d: nat)
    requires
        d > 0,
    ensures
        n1 * fixed_base() / d + n2 * fixed_base() / d <= (n1 + n2) * fixed_base() / d,
{
    let b = fixed_base();
    let p = n1 * b;
    let q = n2 * b;
    assert((n1 + n2) * b == p + q) by (nonlinear_arith)
        requires
            p == n1 * b,
            q == n2 * b,
    ;
    vstd::arithmetic::div_mod::lemma_fundamental_div_mod(p as int, d as int);
    vstd::arithmetic::div_mod::lemma_fundamental_div_mod(q as int, d as int);
    vstd::arithmetic::div_mod::lemma_fundamental_div_mod((p + q) as int, d as int);
    assert(p / d + q / d <= (p + q) / d) by (nonlinear_arith)
        requires
            d > 0,
            p == d * (p / d) + p % d,
            q == d * (q / d) + q % d,
            p + q == d * ((p + q) / d) + (p + q) % d,
            0 <= p % d < d,
            0 <= q % d < d,
            0 <= (p + q) % d < d,
    ;
}

/// A share computed through a fixed-point fraction (`fraction(n, d)`, then `mul_unwrap(x)`)
/// never exceeds the exact share `n * x / d` rounded down, and falls short of it by at most
/// `x / 2^128` rounded up: by at most one where `x < 2^128`.
pub proof fn lemma_share_error_bound(n: nat, d: nat, x: nat)
    requires
        d > 0,
    ensures
        (n * fixed_base() / d) * x / fixed_base() <= n * x / d,
        n * x / d <= (n * fixed_base() / d) * x / fixed_base() + (x + fixed_base() - 1) as nat
            / fixed_base(),
{
    let b = fixed_base();
    let f = n * b / d;
    let m = f * x / b;
    let q = n * x / d;
    let c = ((x + b - 1) as nat) / b;
    vstd::arithmetic::div_mod::lemma_fundamental_div_mod((n * b) as int, d as int);
    vstd::arithmetic::div_mod::lemma_fundamental_div_mod((f * x) as int, b as int);
    vstd::arithmetic::div_mod::lemma_fundamental_div_mod((n * x) as int, d as int);
    vstd::arithmetic::div_mod::lemma_fundamental_div_mod((x + b - 1) as int, b as int);
    let r1 = (n * b) % d;
    let r2 = (f * x) % b;
    let r3 = (n * x) % d;
    let r4 = ((x + b - 1) as nat) % b;
    assert(n * b == d * f + r1 && r1 < d);
    assert(f * x == b * m + r2 && r2 < b);
    assert(n * x == d * q + r3 && r3 < d);
    assert((x + b - 1) as nat == b * c + r4 && r4 < b);
    assert(m <= q) by (nonlinear_arith)
        requires
            b > 0,
            d > 0,
            n * b == d * f + r1,
            f * x == b * m + r2,
            n * x == d * q + r3,
            r3 < d,
            r1 >= 0,
            r2 >= 0,
    {
        assert(m * b * d <= f * x * d);
        assert(f * x * d <= n * b * x);
        assert(m * d * b <= n * x * b);
        assert(m * d <= n * x);
        assert(m * d < (q + 1) * d);
    }
    assert(q <= m + c) by (nonlinear_arith)
        requires
            b > 0,
            d > 0,
            n * b == d * f + r1,
            r1 < d,
            f * x == b * m + r2,
            r2 < b,
            n * x == d * q + r3,
            r3 >= 0,
            x + b - 1 == b * c + r4,
            r4 < b,
    {
        assert(c * b >= x);
        assert(f * d * x >= (n * b - d) * x);
        assert((q - c) * b * d <= n * x * b - x * d);
        assert((q - c) * b * d <= f * x * d);
        assert((q - c) * b <= f * x);
        assert((q - c) * b < (m + 1) * b);
    }
}

/// A mint computed as `fraction(n, d).mul_unwrap(x)` never exceeds the exact proportional
/// share `n * x / d` rounded down, and falls short of it by at most `x / 2^128` rounded up:
/// by at most one where `x < 2^128`.
pub proof fn lemma_mul_unwrap_error_bound(f: FixedPoint, n: nat, d: nat, x: nat)
    requires
        d > 0,
        f.raw() == n * fixed_base() / d,
    ensures
        f.raw() * x / fixed_base() <= n * x / d,
        n * x / d <= f.raw() * x / fixed_base() + (x + fixed_base() - 1) as nat / fixed_base(),
        x < fixed_base() ==> n * x / d <= f.raw() * x / fixed_base() + 1,
{
    lemma_share_error_bound(n, d, x);
    let b = fixed_base();
    if x < b {
        let y = (x + b - 1) as nat;
        vstd::arithmetic::div_mod::lemma_fundamental_div_mod(y as int, b as int);
        assert(y / b <= 1) by (nonlinear_arith)
            requires
                b > 0,
                y < 2 * b,
                y == b * (y / b) + y % b,
                y % b >= 0,
        ;
    }
}

} // verus!
