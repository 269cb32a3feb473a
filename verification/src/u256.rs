//! Unsigned 256-bit integers, as used for token amounts, work values and epochs.
//!
//! The value is held as four little-endian 64-bit limbs, the layout of
//! `alloy_primitives::U256`; the arithmetic itself is done by that type.
use crate::text::{all_digits, decimal_digits, decimal_value, is_digit};
use std::str::FromStr;
use vstd::prelude::*;

verus! {

/// 2^64, the base of one limb.
pub open spec fn limb_base() -> nat {
    0x1_0000_0000_0000_0000
}

/// 2^256, one more than the largest value.
pub open spec fn u256_modulus() -> nat {
    limb_base() * limb_base() * limb_base() * limb_base()
}

/// The value of a decimal string as `alloy_primitives::U256::from_str` parses it
/// (a `0x`, `0o` or `0b` prefix selects another radix, `_` is skipped), or `None`
/// where the parse fails.
pub uninterp spec fn u256_parse(s: Seq<char>) -> Option<nat>;

/// `s` does not start with one of the radix prefixes `0x`, `0X`, `0o`, `0O`, `0b`, `0B`.
pub open spec fn no_radix_prefix(s: Seq<char>) -> bool {
    s.len() < 2 || s[0] != '0' || !(s[1] == 'x' || s[1] == 'X' || s[1] == 'o' || s[1] == 'O'
        || s[1] == 'b' || s[1] == 'B')
}

/// An unsigned 256-bit integer.
#[derive(Clone, Copy, Debug, PartialEq, Eq, Structural)]
pub struct U256 {
    l0: u64,
    l1: u64,
    l2: u64,
    l3: u64,
}

impl U256 {
    /// The number this value stands for.
    pub closed spec fn value(self) -> nat {
        self.l0 as nat + limb_base() * (self.l1 as nat + limb_base() * (self.l2 as nat
            + limb_base() * self.l3 as nat))
    }

    /// Builds a value from its four little-endian limbs.
    pub fn from_limbs(limbs: [u64; 4]) -> (r: U256)
        ensures
            r.value() == limbs[0] as nat + limb_base() * (limbs[1] as nat + limb_base() * (
            limbs[2] as nat + limb_base() * limbs[3] as nat)),
    {
        U256 { l0: limbs[0], l1: limbs[1], l2: limbs[2], l3: limbs[3] }
    }

    /// The four little-endian limbs of this value.
    pub fn into_limbs(self) -> (r: [u64; 4])
        ensures
            self.value() == r[0] as nat + limb_base() * (r[1] as nat + limb_base() * (r[2] as nat
                + limb_base() * r[3] as nat)),
    {
        [self.l0, self.l1, self.l2, self.l3]
    }

    /// Zero.
    pub fn zero() -> (r: U256)
        ensures
            r.value() == 0,
    {
        U256 { l0: 0, l1: 0, l2: 0, l3: 0 }
    }

    /// The value `x`.
    pub fn from_u64(x: u64) -> (r: U256)
        ensures
            r.value() == x,
    {
        U256 { l0: x, l1: 0, l2: 0, l3: 0 }
    }

    /// The value `x`.
    pub fn from_u128(x: u128) -> (r: U256)
        ensures
            r.value() == x,
    {
        let lo = (x % 0x1_0000_0000_0000_0000u128) as u64;
        let hi = (x / 0x1_0000_0000_0000_0000u128) as u64;
        assert(x == lo + limb_base() * hi);
        U256 { l0: lo, l1: hi, l2: 0, l3: 0 }
    }

    /// The value as a `u64`, where it is below 2^64.
    pub fn to_u64(&self) -> (r: Option<u64>)
        ensures
            r is Some <==> self.value() < limb_base(),
            r matches Some(x) ==> x == self.value(),
    {
        if self.l1 == 0 && self.l2 == 0 && self.l3 == 0 {
            Some(self.l0)
        } else {
            proof {
                let b = limb_base();
                let m = self.l1 as nat + b * (self.l2 as nat + b * self.l3 as nat);
                assert(m >= 1) by (nonlinear_arith)
                    requires
                        m == self.l1 as nat + b * (self.l2 as nat + b * self.l3 as nat),
                        b > 0,
                        self.l1 != 0 || self.l2 != 0 || self.l3 != 0,
                ;
                assert(b * m >= b) by (nonlinear_arith)
                    requires
                        m >= 1,
                        b > 0,
                ;
            }
            None
        }
    }

    /// The largest value, 2^256 - 1.
    pub fn max_value() -> (r: U256)
        ensures
            r.value() == u256_modulus() - 1,
    {
        U256 { l0: u64::MAX, l1: u64::MAX, l2: u64::MAX, l3: u64::MAX }
    }

    /// The value is below 2^256, and two values are equal exactly when they stand for the
    /// same number.
    pub proof fn lemma_value_bounds(self)
        ensures
            self.value() < u256_modulus(),
    {
        lemma_limb_step(self.l2 as nat, self.l3 as nat, limb_base());
        lemma_limb_step(
            self.l1 as nat,
            self.l2 as nat + limb_base() * self.l3 as nat,
            limb_base() * limb_base(),
        );
        lemma_limb_step(
            self.l0 as nat,
            self.l1 as nat + limb_base() * (self.l2 as nat + limb_base() * self.l3 as nat),
            limb_base() * limb_base() * limb_base(),
        );
        assert(limb_base() * (limb_base() * limb_base() * limb_base()) == u256_modulus())
            by (nonlinear_arith);
        assert(limb_base() * (limb_base() * limb_base()) == limb_base() * limb_base()
            * limb_base()) by (nonlinear_arith);
    }

    /// Equal numbers have equal limbs.
    pub proof fn lemma_value_injective(self, other: U256)
        ensures
            (self.value() == other.value()) == (self == other),
    {
        let b = limb_base();
        lemma_limb_lex(self.l2 as nat, self.l3 as nat, other.l2 as nat, other.l3 as nat);
        let m2 = self.l2 as nat + b * self.l3 as nat;
        let n2 = other.l2 as nat + b * other.l3 as nat;
        lemma_limb_lex(self.l1 as nat, m2, other.l1 as nat, n2);
        let m1 = self.l1 as nat + b * m2;
        let n1 = other.l1 as nat + b * n2;
        lemma_limb_lex(self.l0 as nat, m1, other.l0 as nat, n1);
    }

    /// `self < other`.
    pub fn lt(&self, other: &U256) -> (r: bool)
        ensures
            r == (self.value() < other.value()),
    {
        proof {
            let b = limb_base();
            lemma_limb_lex(self.l2 as nat, self.l3 as nat, other.l2 as nat, other.l3 as nat);
            let m2 = self.l2 as nat + b * self.l3 as nat;
            let n2 = other.l2 as nat + b * other.l3 as nat;
            lemma_limb_lex(self.l1 as nat, m2, other.l1 as nat, n2);
            let m1 = self.l1 as nat + b * m2;
            let n1 = other.l1 as nat + b * n2;
            lemma_limb_lex(self.l0 as nat, m1, other.l0 as nat, n1);
        }
        if self.l3 != other.l3 {
            self.l3 < other.l3
        } else if self.l2 != other.l2 {
            self.l2 < other.l2
        } else if self.l1 != other.l1 {
            self.l1 < other.l1
        } else {
            self.l0 < other.l0
        }
    }

    /// `self <= other`.
    pub fn le(&self, other: &U256) -> (r: bool)
        ensures
            r == (self.value() <= other.value()),
    {
        !other.lt(self)
    }

    /// `self == other`.
    pub fn eq(&self, other: &U256) -> (r: bool)
        ensures
            r == (self.value() == other.value()),
    {
        proof {
            self.lemma_value_injective(*other);
        }
        self.l0 == other.l0 && self.l1 == other.l1 && self.l2 == other.l2 && self.l3 == other.l3
    }

    /// `self == 0`.
    pub fn is_zero(&self) -> (r: bool)
        ensures
            r == (self.value() == 0),
    {
        self.eq(&U256::zero())
    }
}

/// One limb step of the positional value stays below the next power of the base.
pub proof fn lemma_limb_step(a: nat, b: nat, m: nat)
    requires
        a < limb_base(),
        b < m,
    ensures
        a + limb_base() * b < limb_base() * m,
{
    assert(a + limb_base() * b < limb_base() * m) by (nonlinear_arith)
        requires
            a < limb_base(),
            b < m,
    ;
}

/// Positional values compare like their digits, most significant first.
pub proof fn lemma_limb_lex(a: nat, b: nat, c: nat, d: nat)
    requires
        a < limb_base(),
        c < limb_base(),
    ensures
        (a + limb_base() * b < c + limb_base() * d) == (b < d || (b == d && a < c)),
        (a + limb_base() * b == c + limb_base() * d) == (b == d && a == c),
{
    let k = limb_base();
    if b < d {
        assert(a + k * b < c + k * d) by (nonlinear_arith)
            requires
                a < k,
                b < d,
        ;
    } else if b > d {
        assert(a + k * b > c + k * d) by (nonlinear_arith)
            requires
                c < k,
                b > d,
        ;
    }
}

impl U256 {
    /// `alloy_primitives::U256::wrapping_add`: the sum modulo 2^256.
    #[verifier::external_body]
    pub(crate) fn wrapping_add(self, rhs: U256) -> (r: U256)
        ensures
            r.value() == (self.value() + rhs.value()) % u256_modulus(),
    {
        let a = alloy_primitives::U256::from_limbs(self.into_limbs());
        let b = alloy_primitives::U256::from_limbs(rhs.into_limbs());
        U256::from_limbs(a.wrapping_add(b).into_limbs())
    }

    /// `alloy_primitives::U256::wrapping_mul`: the product modulo 2^256.
    #[verifier::external_body]
    pub(crate) fn wrapping_mul(self, rhs: U256) -> (r: U256)
        ensures
            r.value() == (self.value() * rhs.value()) % u256_modulus(),
    {
        let a = alloy_primitives::U256::from_limbs(self.into_limbs());
        let b = alloy_primitives::U256::from_limbs(rhs.into_limbs());
        U256::from_limbs(a.wrapping_mul(b).into_limbs())
    }

    /// `alloy_primitives::U256::checked_add`: the sum, or `None` where it reaches 2^256.
    #[verifier::external_body]
    pub(crate) fn checked_add(self, rhs: U256) -> (r: Option<U256>)
        ensures
            r is Some <==> self.value() + rhs.value() < u256_modulus(),
            r matches Some(v) ==> v.value() == self.value() + rhs.value(),
    {
        let a = alloy_primitives::U256::from_limbs(self.into_limbs());
        let b = alloy_primitives::U256::from_limbs(rhs.into_limbs());
        a.checked_add(b).map(|v| U256::from_limbs(v.into_limbs()))
    }

    /// `alloy_primitives::U256::checked_mul`: the product, or `None` where it reaches 2^256.
    #[verifier::external_body]
    pub(crate) fn checked_mul(self, rhs: U256) -> (r: Option<U256>)
        ensures
            r is Some <==> self.value() * rhs.value() < u256_modulus(),
            r matches Some(v) ==> v.value() == self.value() * rhs.value(),
    {
        let a = alloy_primitives::U256::from_limbs(self.into_limbs());
        let b = alloy_primitives::U256::from_limbs(rhs.into_limbs());
        a.checked_mul(b).map(|v| U256::from_limbs(v.into_limbs()))
    }

    /// `alloy_primitives::U256::saturating_add`: the sum, or 2^256 - 1 where it overflows.
    #[verifier::external_body]
    pub(crate) fn saturating_add(self, rhs: U256) -> (r: U256)
        ensures
            r.value() == if self.value() + rhs.value() < u256_modulus() {
                self.value() + rhs.value()
            } else {
                (u256_modulus() - 1) as nat
            },
    {
        let a = alloy_primitives::U256::from_limbs(self.into_limbs());
        let b = alloy_primitives::U256::from_limbs(rhs.into_limbs());
        U256::from_limbs(a.saturating_add(b).into_limbs())
    }

    /// `alloy_primitives::U256::saturating_sub`: the difference, or 0 where it would be negative.
    #[verifier::external_body]
    pub(crate) fn saturating_sub(self, rhs: U256) -> (r: U256)
        ensures
            r.value() == if self.value() >= rhs.value() {
                (self.value() - rhs.value()) as nat
            } else {
                0
            },
    {
        let a = alloy_primitives::U256::from_limbs(self.into_limbs());
        let b = alloy_primitives::U256::from_limbs(rhs.into_limbs());
        U256::from_limbs(a.saturating_sub(b).into_limbs())
    }

    /// `alloy_primitives::U256::saturating_mul`: the product, or 2^256 - 1 where it overflows.
    #[verifier::external_body]
    pub(crate) fn saturating_mul(self, rhs: U256) -> (r: U256)
        ensures
            r.value() == if self.value() * rhs.value() < u256_modulus() {
                self.value() * rhs.value()
            } else {
                (u256_modulus() - 1) as nat
            },
    {
        let a = alloy_primitives::U256::from_limbs(self.into_limbs());
        let b = alloy_primitives::U256::from_limbs(rhs.into_limbs());
        U256::from_limbs(a.saturating_mul(b).into_limbs())
    }

    /// `alloy_primitives::U256::wrapping_div` (the `/` operator): the quotient rounded down.
    #[verifier::external_body]
    pub(crate) fn wrapping_div(self, rhs: U256) -> (r: U256)
        requires
            rhs.value() != 0,
        ensures
            r.value() == self.value() / rhs.value(),
    {
        let a = alloy_primitives::U256::from_limbs(self.into_limbs());
        let b = alloy_primitives::U256::from_limbs(rhs.into_limbs());
        U256::from_limbs(a.wrapping_div(b).into_limbs())
    }

    /// `alloy_primitives::U256::div_ceil`: the quotient rounded up.
    #[verifier::external_body]
    pub(crate) fn div_ceil(self, rhs: U256) -> (r: U256)
        requires
            rhs.value() != 0,
        ensures
            r.value() == (self.value() + rhs.value() - 1) / (rhs.value() as int),
    {
        let a = alloy_primitives::U256::from_limbs(self.into_limbs());
        let b = alloy_primitives::U256::from_limbs(rhs.into_limbs());
        U256::from_limbs(a.div_ceil(b).into_limbs())
    }

    /// `alloy_primitives::U256::wrapping_shr`: the value divided by 2^`bits`, rounded down.
    #[verifier::external_body]
    pub(crate) fn wrapping_shr(self, bits: usize) -> (r: U256)
        ensures
            r.value() == self.value() / vstd::arithmetic::power2::pow2(bits as nat),
    {
        let a = alloy_primitives::U256::from_limbs(self.into_limbs());
        U256::from_limbs(a.wrapping_shr(bits).into_limbs())
    }

    /// `alloy_primitives::U256::pow`: `self` raised to `exp`, modulo 2^256.
    #[verifier::external_body]
    pub(crate) fn pow(self, exp: U256) -> (r: U256)
        ensures
            r.value() == vstd::arithmetic::power::pow(self.value() as int, exp.value())
                % (u256_modulus() as int),
    {
        let a = alloy_primitives::U256::from_limbs(self.into_limbs());
        let e = alloy_primitives::U256::from_limbs(exp.into_limbs());
        U256::from_limbs(a.pow(e).into_limbs())
    }

    /// `ToString` through `Display` of `alloy_primitives::U256`: the decimal digits of the
    /// value, without leading zeros.
    #[verifier::external_body]
    pub(crate) fn to_decimal(&self) -> (s: String)
        ensures
            s@ == decimal_digits(self.value()),
    {
        alloy_primitives::U256::from_limbs(self.into_limbs()).to_string()
    }

    /// `FromStr` of `alloy_primitives::U256`. A string of decimal digits (the empty string
    /// included) parses to its value where that is below 2^256 and fails otherwise; without
    /// a radix prefix, a character that is neither a decimal digit nor `_` makes it fail.
    /// What it does with prefixes and `_` is named by `u256_parse`, not stated.
    #[verifier::external_body]
    pub(crate) fn parse(s: &str) -> (r: Option<U256>)
        ensures
            r matches Some(v) ==> u256_parse(s@) == Some(v.value()),
            r is None ==> u256_parse(s@) is None,
            all_digits(s@) ==> (r is Some <==> decimal_value(s@) < u256_modulus()),
            all_digits(s@) ==> (r matches Some(v) ==> v.value() == decimal_value(s@)),
            no_radix_prefix(s@) && (exists|i: int|
                0 <= i < s@.len() && !is_digit(#[trigger] s@[i]) && s@[i] != '_') ==> r is None,
    {
        alloy_primitives::U256::from_str(s).ok().map(|v| U256::from_limbs(v.into_limbs()))
    }
}

} // verus!
