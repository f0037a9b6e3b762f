//! Binary64 scalars as bit patterns: their sign, class, order, opposite and
//! whole part.
//!
//! A pattern is read as the standard lays it out: one sign bit, eleven bits
//! of biased exponent, fifty-two bits of fraction. Its value is modelled in
//! units of 2^-1074, the spacing of the smallest binary64 numbers, so that
//! every finite value is an integer and no contract needs a fraction.

use core::ops::Neg;
use vstd::arithmetic::div_mod::{
    lemma_basic_div, lemma_div_by_multiple, lemma_div_denominator, lemma_fundamental_div_mod,
};
use vstd::arithmetic::power2::{
    lemma2_to64, lemma2_to64_rest, lemma_pow2_adds, lemma_pow2_pos,
    lemma_pow2_strictly_increases, lemma_pow2_unfold, pow2,
};
use vstd::bits::{lemma_u64_shl_is_mul, lemma_u64_shr_is_div};
use vstd::prelude::*;

verus! {

/// The sign bit of a binary64 pattern.
pub const SIGN_BIT: u64 = 0x8000_0000_0000_0000;

/// Two to the 52nd: the weight of the leading significand bit, which the
/// pattern of a normal number leaves out.
pub const HIDDEN_BIT: u64 = 0x0010_0000_0000_0000;

/// The exponent field shared by the infinities and the NaNs.
pub const EXPONENT_SPECIAL: u64 = 2047;

/// The pattern of 1.
pub const ONE_BITS: u64 = 0x3FF0_0000_0000_0000;

/// The pattern of positive infinity.
pub const INFINITY_BITS: u64 = 0x7FF0_0000_0000_0000;

/// How many units of 2^-1074 make 1, as a power of two.
pub const UNIT_SHIFT: u64 = 1074;

/// A binary64 number, held as its bit pattern. Every pattern is a scalar.
#[derive(Clone, Copy, Debug)]
pub struct Scalar {
    pub bits: u64,
}

impl Scalar {
    /// Whether the sign bit is set (true of `-0`, and of half the NaNs).
    pub open spec fn sign(self) -> bool {
        self.bits >= SIGN_BIT
    }

    /// The pattern without its sign bit.
    pub open spec fn abs_bits(self) -> nat {
        if self.bits >= SIGN_BIT {
            (self.bits - SIGN_BIT) as nat
        } else {
            self.bits as nat
        }
    }

    /// The biased exponent field, from 0 to 2047.
    pub open spec fn exponent(self) -> nat {
        self.abs_bits() / (HIDDEN_BIT as nat)
    }

    /// The 52 stored significand bits.
    pub open spec fn fraction(self) -> nat {
        self.abs_bits() % (HIDDEN_BIT as nat)
    }

    pub open spec fn spec_is_nan(self) -> bool {
        self.exponent() == EXPONENT_SPECIAL && self.fraction() != 0
    }

    /// The absolute value in units of 2^-1074. On an infinity the same
    /// formula gives 2^2098, above every finite magnitude, which is where
    /// the order needs it.
    pub open spec fn magnitude(self) -> nat {
        if self.exponent() == 0 {
            self.fraction()
        } else {
            (HIDDEN_BIT + self.fraction()) as nat * pow2((self.exponent() - 1) as nat)
        }
    }

    /// The value in units of 2^-1074; both zeros give 0.
    pub open spec fn scaled(self) -> int {
        if self.sign() {
            -(self.magnitude() as int)
        } else {
            self.magnitude() as int
        }
    }

    /// The order `<` of binary64: false whenever a NaN takes part, and
    /// otherwise the order of the values.
    pub open spec fn spec_lt(self, other: Scalar) -> bool {
        !self.spec_is_nan() && !other.spec_is_nan() && self.scaled() < other.scaled()
    }

    /// The order `<=` of binary64.
    pub open spec fn spec_le(self, other: Scalar) -> bool {
        !self.spec_is_nan() && !other.spec_is_nan() && self.scaled() <= other.scaled()
    }

    /// The whole part of `|self| * 2^up`, held down to `cap`.
    pub open spec fn spec_whole(self, up: nat, cap: u64) -> nat {
        let whole = self.magnitude() * pow2(up) / pow2(UNIT_SHIFT as nat);
        if whole > cap {
            cap as nat
        } else {
            whole
        }
    }

    /// The same pattern with the other sign.
    pub open spec fn opposite(self) -> Scalar {
        Scalar {
            bits: if self.bits >= SIGN_BIT {
                (self.bits - SIGN_BIT) as u64
            } else {
                (self.bits + SIGN_BIT) as u64
            },
        }
    }

    /// What a cast to `u16` leaves of a scalar: nothing of a NaN or of a
    /// number below zero, the whole part of any other, and the largest `u16`
    /// where that is too large.
    pub open spec fn spec_trunc_u16(self) -> nat {
        if self.spec_is_nan() || self.sign() {
            0
        } else {
            self.spec_whole(0, 0xFFFF)
        }
    }

    pub open spec fn spec_zero() -> Scalar {
        Scalar { bits: 0 }
    }

    pub open spec fn spec_one() -> Scalar {
        Scalar { bits: ONE_BITS }
    }

    pub open spec fn spec_infinity() -> Scalar {
        Scalar { bits: INFINITY_BITS }
    }

    pub fn from_bits(bits: u64) -> (s: Scalar)
        ensures
            s.bits == bits,
    {
        Scalar { bits }
    }

    pub fn to_bits(self) -> (bits: u64)
        ensures
            bits == self.bits,
    {
        self.bits
    }

    /// Positive zero.
    #[verifier::when_used_as_spec(spec_zero)]
    pub fn zero() -> (s: Scalar)
        ensures
            s == Scalar::spec_zero(),
            s.scaled() == 0,
            !s.spec_is_nan(),
    {
        Scalar { bits: 0 }
    }

    /// The number 1, which is 2^1074 units.
    #[verifier::when_used_as_spec(spec_one)]
    pub fn one() -> (s: Scalar)
        ensures
            s == Scalar::spec_one(),
            s.scaled() == pow2(UNIT_SHIFT as nat),
            !s.spec_is_nan(),
    {
        proof {
            lemma_pow2_adds(52, 1022);
            lemma2_to64_rest();
        }
        Scalar { bits: ONE_BITS }
    }

    /// Positive infinity, above every finite scalar.
    #[verifier::when_used_as_spec(spec_infinity)]
    pub fn infinity() -> (s: Scalar)
        ensures
            s == Scalar::spec_infinity(),
            !s.spec_is_nan(),
            !s.sign(),
            s.exponent() == EXPONENT_SPECIAL,
    {
        Scalar { bits: INFINITY_BITS }
    }

    /// The pattern without its sign bit.
    fn abs(self) -> (a: u64)
        ensures
            a == self.abs_bits(),
            a < SIGN_BIT,
    {
        if self.bits >= SIGN_BIT {
            self.bits - SIGN_BIT
        } else {
            self.bits
        }
    }

    #[verifier::when_used_as_spec(spec_is_nan)]
    pub fn is_nan(self) -> (r: bool)
        ensures
            r == self.spec_is_nan(),
    {
        let a: u64 = self.abs();
        a / HIDDEN_BIT == EXPONENT_SPECIAL && a % HIDDEN_BIT != 0
    }

    #[verifier::when_used_as_spec(sign)]
    pub fn is_sign_negative(self) -> (r: bool)
        ensures
            r == self.sign(),
    {
        self.bits >= SIGN_BIT
    }

    /// `self < other` as binary64 compares.
    #[verifier::when_used_as_spec(spec_lt)]
    pub fn lt(self, other: Scalar) -> (r: bool)
        ensures
            r == self.spec_lt(other),
    {
        if self.is_nan() || other.is_nan() {
            return false;
        }
        let a: u64 = self.abs();
        let b: u64 = other.abs();
        proof {
            lemma_magnitude_order(self, other);
            lemma_magnitude_order(other, self);
        }
        if self.bits >= SIGN_BIT {
            if other.bits >= SIGN_BIT {
                b < a
            } else {
                a != 0 || b != 0
            }
        } else {
            if other.bits >= SIGN_BIT {
                false
            } else {
                a < b
            }
        }
    }

    /// `self <= other` as binary64 compares.
    #[verifier::when_used_as_spec(spec_le)]
    pub fn le(self, other: Scalar) -> (r: bool)
        ensures
            r == self.spec_le(other),
    {
        if self.is_nan() || other.is_nan() {
            return false;
        }
        let a: u64 = self.abs();
        let b: u64 = other.abs();
        proof {
            lemma_magnitude_order(self, other);
            lemma_magnitude_order(other, self);
        }
        if self.bits >= SIGN_BIT {
            if other.bits >= SIGN_BIT {
                b <= a
            } else {
                true
            }
        } else {
            if other.bits >= SIGN_BIT {
                a == 0 && b == 0
            } else {
                a <= b
            }
        }
    }

    /// The whole part of `|self| * 2^up`, held down to `cap`: the significand
    /// with the binary point moved to its place.
    pub fn whole(self, up: u8, cap: u64) -> (w: u64)
        ensures
            w == self.spec_whole(up as nat, cap),
    {
        let a: u64 = self.abs();
        let e: u64 = a / HIDDEN_BIT;
        let f: u64 = a % HIDDEN_BIT;
        proof {
            lemma_whole(self, up as nat);
        }
        if e == 0 {
            return 0;
        }
        let m: u64 = HIDDEN_BIT + f;
        let raised: u64 = e - 1 + up as u64;
        let q: u64 = if raised >= UNIT_SHIFT {
            let over: u64 = raised - UNIT_SHIFT;
            if over >= 12 {
                proof {
                    lemma2_to64();
                    if over > 12 {
                        lemma_pow2_strictly_increases(12, over as nat);
                    }
                    assert(m * pow2(over as nat) > u64::MAX) by (nonlinear_arith)
                        requires
                            m >= 0x0010_0000_0000_0000,
                            pow2(over as nat) >= 0x1000,
                    ;
                }
                return cap;
            }
            proof {
                lemma2_to64();
                if over < 11 {
                    lemma_pow2_strictly_increases(over as nat, 11);
                }
                assert(m * pow2(over as nat) <= u64::MAX) by (nonlinear_arith)
                    requires
                        m < 0x0020_0000_0000_0000,
                        pow2(over as nat) <= 0x800,
                ;
                lemma_u64_shl_is_mul(m, over);
            }
            m << over
        } else {
            let down: u64 = UNIT_SHIFT - raised;
            if down >= 53 {
                return 0;
            }
            proof {
                lemma_u64_shr_is_div(m, down);
            }
            m >> down
        };
        if q > cap {
            cap
        } else {
            q
        }
    }

    /// The scalar cut down to a `u16`, as a cast would.
    pub fn trunc_u16(self) -> (n: u16)
        ensures
            n == self.spec_trunc_u16(),
    {
        if self.is_nan() || self.is_sign_negative() {
            0
        } else {
            let w: u64 = self.whole(0, 0xFFFF);
            w as u16
        }
    }
}

impl Neg for Scalar {
    type Output = Scalar;

    /// The opposite number: the same pattern with the other sign. This is
    /// exact for every scalar; a NaN stays a NaN.
    fn neg(self) -> (r: Scalar)
        ensures
            r == self.opposite(),
            r.scaled() == -self.scaled(),
            r.spec_is_nan() == self.spec_is_nan(),
    {
        if self.bits >= SIGN_BIT {
            Scalar { bits: self.bits - SIGN_BIT }
        } else {
            Scalar { bits: self.bits + SIGN_BIT }
        }
    }
}

impl vstd::std_specs::ops::NegSpecImpl for Scalar {
    open spec fn obeys_neg_spec() -> bool {
        true
    }

    open spec fn neg_req(self) -> bool {
        true
    }

    open spec fn neg_spec(self) -> Scalar {
        self.opposite()
    }
}

impl Default for Scalar {
    /// Positive zero.
    fn default() -> (s: Scalar)
        ensures
            s == Scalar::spec_zero(),
    {
        Scalar { bits: 0 }
    }
}

/// Magnitudes grow with the pattern: of two patterns without sign, the
/// smaller encodes the smaller magnitude, and only the pattern 0 encodes 0.
pub proof fn lemma_magnitude_order(a: Scalar, b: Scalar)
    ensures
        a.abs_bits() < b.abs_bits() ==> a.magnitude() < b.magnitude(),
        a.abs_bits() == b.abs_bits() ==> a.magnitude() == b.magnitude(),
        a.abs_bits() == 0 <==> a.magnitude() == 0,
{
    let h = HIDDEN_BIT as nat;
    let ea = a.exponent();
    let eb = b.exponent();
    let fa = a.fraction();
    let fb = b.fraction();
    assert(a.abs_bits() == h * ea + fa && fa < h) by {
        lemma_fundamental_div_mod(a.abs_bits() as int, h as int);
    }
    assert(b.abs_bits() == h * eb + fb && fb < h) by {
        lemma_fundamental_div_mod(b.abs_bits() as int, h as int);
    }
    if ea > 0 {
        lemma_pow2_pos((ea - 1) as nat);
        assert(a.magnitude() >= h) by (nonlinear_arith)
            requires
                a.magnitude() == (h + fa) * pow2((ea - 1) as nat),
                pow2((ea - 1) as nat) > 0,
        ;
    }
    if a.abs_bits() < b.abs_bits() {
        assert(ea <= eb) by (nonlinear_arith)
            requires
                h * ea + fa < h * eb + fb,
                fb < h,
        ;
        if ea == eb {
            if ea > 0 {
                let p = pow2((ea - 1) as nat);
                assert((h + fa) * p < (h + fb) * p) by (nonlinear_arith)
                    requires
                        fa < fb,
                        p > 0,
                ;
            }
        } else {
            let q = pow2((eb - 1) as nat);
            lemma_pow2_pos((eb - 1) as nat);
            assert(h <= (h + fb) * q) by (nonlinear_arith)
                requires
                    q > 0,
            ;
            if ea > 0 {
                let p = pow2((ea - 1) as nat);
                lemma_pow2_unfold(ea);
                if ea < eb - 1 {
                    lemma_pow2_strictly_increases(ea, (eb - 1) as nat);
                }
                assert((h + fa) * p < (h + fb) * q) by (nonlinear_arith)
                    requires
                        fa < h,
                        p > 0,
                        2 * p <= q,
                ;
            }
        }
    }
}

/// The whole part of `|a| * 2^up`, read off the fields of the pattern. With
/// significand `m` and `raised = exponent - 1 + up`: where `raised` reaches
/// 1074 it is `m * 2^(raised - 1074)`; below that it is `m` without its last
/// `1074 - raised` bits. A subnormal has no whole part while `up` is small.
proof fn lemma_whole(a: Scalar, up: nat)
    ensures
        a.exponent() == 0 && up <= 1022 ==> a.magnitude() * pow2(up) / pow2(UNIT_SHIFT as nat)
            == 0,
        a.exponent() > 0 && a.exponent() - 1 + up >= UNIT_SHIFT ==> a.magnitude() * pow2(up)
            / pow2(UNIT_SHIFT as nat) == (HIDDEN_BIT + a.fraction()) * pow2(
            (a.exponent() - 1 + up - UNIT_SHIFT) as nat,
        ),
        a.exponent() > 0 && a.exponent() - 1 + up < UNIT_SHIFT ==> a.magnitude() * pow2(up)
            / pow2(UNIT_SHIFT as nat) == (HIDDEN_BIT + a.fraction()) as nat / pow2(
            (UNIT_SHIFT - (a.exponent() - 1 + up)) as nat,
        ),
        a.exponent() > 0 && a.exponent() - 1 + up + 53 <= UNIT_SHIFT ==> a.magnitude() * pow2(up)
            / pow2(UNIT_SHIFT as nat) == 0,
        a.fraction() < HIDDEN_BIT,
{
    let h = HIDDEN_BIT as nat;
    let e = a.exponent();
    let f = a.fraction();
    let unit = pow2(UNIT_SHIFT as nat);
    lemma_pow2_pos(UNIT_SHIFT as nat);
    lemma_pow2_pos(up);
    lemma2_to64_rest();
    assert(f < h) by {
        lemma_fundamental_div_mod(a.abs_bits() as int, h as int);
    }
    if e == 0 {
        if up <= 1022 {
            lemma_pow2_adds(52, 1022);
            if up < 1022 {
                lemma_pow2_strictly_increases(up, 1022);
            }
            assert(f * pow2(up) < h * pow2(1022)) by (nonlinear_arith)
                requires
                    f < h,
                    0 < pow2(up) <= pow2(1022),
            ;
            lemma_basic_div((f * pow2(up)) as int, unit as int);
        }
    } else {
        let m = h + f;
        let raised = (e - 1 + up) as nat;
        lemma_pow2_adds((e - 1) as nat, up);
        assert(a.magnitude() * pow2(up) == m * pow2(raised)) by (nonlinear_arith)
            requires
                a.magnitude() == m * pow2((e - 1) as nat),
                pow2(raised) == pow2((e - 1) as nat) * pow2(up),
        ;
        if raised >= UNIT_SHIFT {
            let over = (raised - UNIT_SHIFT) as nat;
            lemma_pow2_adds(over, UNIT_SHIFT as nat);
            assert(m * pow2(raised) == (m * pow2(over)) * unit) by (nonlinear_arith)
                requires
                    pow2(raised) == pow2(over) * unit,
            ;
            lemma_div_by_multiple((m * pow2(over)) as int, unit as int);
        } else {
            let down = (UNIT_SHIFT - raised) as nat;
            lemma_pow2_adds(raised, down);
            lemma_pow2_pos(raised);
            lemma_pow2_pos(down);
            lemma_div_denominator(
                (m * pow2(raised)) as int,
                pow2(raised) as int,
                pow2(down) as int,
            );
            lemma_div_by_multiple(m as int, pow2(raised) as int);
            if down >= 53 {
                if down > 53 {
                    lemma_pow2_strictly_increases(53, down);
                }
                lemma_basic_div(m as int, pow2(down) as int);
            }
        }
    }
}

} // verus!
