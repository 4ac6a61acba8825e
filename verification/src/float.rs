//! Numbers in the IEEE 754 binary64 interchange format, held as their bits.
//!
//! Everything here is exact: classification, sign changes and comparisons read
//! or move bits and never round. Arithmetic that rounds is not part of this
//! module; callers that need it perform it on the hardware and hand the bits
//! back.

use vstd::prelude::*;
use vstd::arithmetic::power2::pow2;
use vstd::arithmetic::power2::lemma2_to64;
use vstd::arithmetic::power2::lemma2_to64_rest;
use vstd::arithmetic::power2::lemma_pow2_pos;
use vstd::arithmetic::power2::lemma_pow2_strictly_increases;
use vstd::arithmetic::power2::lemma_pow2_unfold;
use vstd::bits::lemma_u64_shl_is_mul;
use vstd::bits::lemma_u64_shr_is_div;

verus! {

/// The sign bit of a binary64 number.
pub const SIGN_BIT: u64 = 0x8000_0000_0000_0000;

/// The bits of positive infinity: all exponent bits set, no fraction bit set.
pub const INFINITY_BITS: u64 = 0x7ff0_0000_0000_0000;

/// The bits of the canonical quiet NaN.
pub const NAN_BITS: u64 = 0x7ff8_0000_0000_0000;

/// The weight of the lowest exponent bit: two to the power of 52, the number
/// of fraction bits.
pub const HIDDEN_BIT: u64 = 0x0010_0000_0000_0000;

/// The bits of `1`.
pub const ONE_BITS: u64 = 0x3ff0_0000_0000_0000;

/// The bits of one half.
pub const HALF_BITS: u64 = 0x3fe0_0000_0000_0000;

/// The bits of `10`.
pub const TEN_BITS: u64 = 0x4024_0000_0000_0000;

/// The bits of the binary64 number nearest to one millionth.
pub const MILLIONTH_BITS: u64 = 0x3eb0_c6f7_a0b5_ed8d;

/// A binary64 number, identified by its bit pattern.
///
/// `==` on this type compares bit patterns: every NaN payload is its own value
/// and the two zeros differ. The numeric comparisons are [`Float::lt`],
/// [`Float::le`] and [`Float::equals`].
#[derive(Clone, Copy, Debug, PartialEq, Eq, Hash, Structural)]
pub struct Float {
    pub bits: u64,
}

impl Float {
    /// Whether the sign bit is set.
    pub open spec fn spec_is_sign_negative(self) -> bool {
        self.bits >= SIGN_BIT
    }

    /// The bits without the sign bit: exponent and fraction.
    pub open spec fn magnitude(self) -> int {
        if self.bits >= SIGN_BIT {
            self.bits - SIGN_BIT
        } else {
            self.bits as int
        }
    }

    pub open spec fn spec_is_nan(self) -> bool {
        self.magnitude() > INFINITY_BITS
    }

    pub open spec fn spec_is_infinite(self) -> bool {
        self.magnitude() == INFINITY_BITS
    }

    pub open spec fn spec_is_finite(self) -> bool {
        self.magnitude() < INFINITY_BITS
    }

    pub open spec fn spec_is_zero(self) -> bool {
        self.magnitude() == 0
    }

    /// The position of a number in the numeric order: for numbers that are not
    /// NaN, `a < b` exactly when `a.key() < b.key()`. Both zeros have key 0.
    pub open spec fn key(self) -> int {
        if self.bits >= SIGN_BIT {
            -self.magnitude()
        } else {
            self.magnitude()
        }
    }

    /// The position of a bit pattern in the IEEE 754 total order, which puts
    /// negative zero below positive zero and the NaNs at the two ends.
    pub open spec fn total_key(self) -> int {
        if self.bits >= SIGN_BIT {
            -self.magnitude() - 1
        } else {
            self.magnitude()
        }
    }

    /// `self < other` as numbers: false when either is NaN.
    pub open spec fn spec_lt(self, other: Float) -> bool {
        !self.spec_is_nan() && !other.spec_is_nan() && self.key() < other.key()
    }

    /// `self <= other` as numbers: false when either is NaN.
    pub open spec fn spec_le(self, other: Float) -> bool {
        !self.spec_is_nan() && !other.spec_is_nan() && self.key() <= other.key()
    }

    /// `self == other` as numbers: false when either is NaN, true of the two zeros.
    pub open spec fn spec_equals(self, other: Float) -> bool {
        !self.spec_is_nan() && !other.spec_is_nan() && self.key() == other.key()
    }

    /// The number with the sign bit flipped.
    pub open spec fn spec_neg(self) -> Float {
        if self.bits >= SIGN_BIT {
            Float { bits: (self.bits - SIGN_BIT) as u64 }
        } else {
            Float { bits: (self.bits + SIGN_BIT) as u64 }
        }
    }

    /// The number with the sign bit cleared.
    pub open spec fn spec_abs(self) -> Float {
        Float { bits: self.magnitude() as u64 }
    }

    /// `self.spec_neg()` if `negate`, else `self`.
    pub open spec fn spec_neg_if(self, negate: bool) -> Float {
        if negate {
            self.spec_neg()
        } else {
            self
        }
    }

    /// The larger of two numbers; where one is NaN, the other.
    pub open spec fn spec_max(self, other: Float) -> Float {
        if self.spec_is_nan() {
            other
        } else if other.spec_is_nan() {
            self
        } else if self.key() < other.key() {
            other
        } else {
            self
        }
    }

    /// The smaller of two numbers; where one is NaN, the other.
    pub open spec fn spec_min(self, other: Float) -> Float {
        if self.spec_is_nan() {
            other
        } else if other.spec_is_nan() {
            self
        } else if other.key() < self.key() {
            other
        } else {
            self
        }
    }

    /// `self` held between `lo` and `hi`: `lo` below it, `hi` above it, and
    /// `self` itself otherwise, which includes NaN.
    pub open spec fn spec_clamp(self, lo: Float, hi: Float) -> Float {
        if self.spec_lt(lo) {
            lo
        } else if hi.spec_lt(self) {
            hi
        } else {
            self
        }
    }

    pub open spec fn spec_zero() -> Float {
        Float { bits: 0 }
    }

    pub open spec fn spec_one() -> Float {
        Float { bits: ONE_BITS }
    }

    pub open spec fn spec_half() -> Float {
        Float { bits: HALF_BITS }
    }

    pub open spec fn spec_ten() -> Float {
        Float { bits: TEN_BITS }
    }

    pub open spec fn spec_nan() -> Float {
        Float { bits: NAN_BITS }
    }

    pub open spec fn spec_infinity() -> Float {
        Float { bits: INFINITY_BITS }
    }

    pub open spec fn spec_neg_infinity() -> Float {
        Float { bits: 0xfff0_0000_0000_0000 }
    }

    pub fn from_bits(bits: u64) -> (r: Float)
        ensures
            r.bits == bits,
    {
        Float { bits }
    }

    pub fn to_bits(self) -> (r: u64)
        ensures
            r == self.bits,
    {
        self.bits
    }

    /// Positive zero.
    #[verifier::when_used_as_spec(spec_zero)]
    pub fn zero() -> (r: Float)
        ensures
            r == Float::spec_zero(),
    {
        Float { bits: 0 }
    }

    #[verifier::when_used_as_spec(spec_one)]
    pub fn one() -> (r: Float)
        ensures
            r == Float::spec_one(),
    {
        Float { bits: ONE_BITS }
    }

    #[verifier::when_used_as_spec(spec_half)]
    pub fn half() -> (r: Float)
        ensures
            r == Float::spec_half(),
    {
        Float { bits: HALF_BITS }
    }

    #[verifier::when_used_as_spec(spec_ten)]
    pub fn ten() -> (r: Float)
        ensures
            r == Float::spec_ten(),
    {
        Float { bits: TEN_BITS }
    }

    /// The canonical quiet NaN.
    #[verifier::when_used_as_spec(spec_nan)]
    pub fn nan() -> (r: Float)
        ensures
            r == Float::spec_nan(),
    {
        Float { bits: NAN_BITS }
    }

    #[verifier::when_used_as_spec(spec_infinity)]
    pub fn infinity() -> (r: Float)
        ensures
            r == Float::spec_infinity(),
    {
        Float { bits: INFINITY_BITS }
    }

    #[verifier::when_used_as_spec(spec_neg_infinity)]
    pub fn neg_infinity() -> (r: Float)
        ensures
            r == Float::spec_neg_infinity(),
    {
        Float { bits: 0xfff0_0000_0000_0000 }
    }

    #[verifier::when_used_as_spec(spec_is_sign_negative)]
    pub fn is_sign_negative(self) -> (r: bool)
        ensures
            r == self.spec_is_sign_negative(),
    {
        self.bits >= SIGN_BIT
    }

    /// Exponent and fraction bits, as a number below `2^63`.
    fn magnitude_bits(self) -> (r: u64)
        ensures
            r == self.magnitude(),
            r < SIGN_BIT,
    {
        if self.bits >= SIGN_BIT {
            self.bits - SIGN_BIT
        } else {
            self.bits
        }
    }

    #[verifier::when_used_as_spec(spec_is_nan)]
    pub fn is_nan(self) -> (r: bool)
        ensures
            r == self.spec_is_nan(),
    {
        self.magnitude_bits() > INFINITY_BITS
    }

    #[verifier::when_used_as_spec(spec_is_infinite)]
    pub fn is_infinite(self) -> (r: bool)
        ensures
            r == self.spec_is_infinite(),
    {
        self.magnitude_bits() == INFINITY_BITS
    }

    #[verifier::when_used_as_spec(spec_is_finite)]
    pub fn is_finite(self) -> (r: bool)
        ensures
            r == self.spec_is_finite(),
    {
        self.magnitude_bits() < INFINITY_BITS
    }

    #[verifier::when_used_as_spec(spec_is_zero)]
    pub fn is_zero(self) -> (r: bool)
        ensures
            r == self.spec_is_zero(),
    {
        self.magnitude_bits() == 0
    }

    /// The key of the numeric order, which fits a signed 64-bit integer.
    fn key_bits(self) -> (r: i64)
        ensures
            r == self.key(),
    {
        let m: u64 = self.magnitude_bits();
        if self.bits >= SIGN_BIT {
            -(m as i64)
        } else {
            m as i64
        }
    }

    /// The key of the total order.
    fn total_key_bits(self) -> (r: i64)
        ensures
            r == self.total_key(),
    {
        let m: u64 = self.magnitude_bits();
        if self.bits >= SIGN_BIT {
            -(m as i64) - 1
        } else {
            m as i64
        }
    }

    #[verifier::when_used_as_spec(spec_lt)]
    pub fn lt(self, other: Float) -> (r: bool)
        ensures
            r == self.spec_lt(other),
    {
        !self.is_nan() && !other.is_nan() && self.key_bits() < other.key_bits()
    }

    #[verifier::when_used_as_spec(spec_le)]
    pub fn le(self, other: Float) -> (r: bool)
        ensures
            r == self.spec_le(other),
    {
        !self.is_nan() && !other.is_nan() && self.key_bits() <= other.key_bits()
    }

    #[verifier::when_used_as_spec(spec_equals)]
    pub fn equals(self, other: Float) -> (r: bool)
        ensures
            r == self.spec_equals(other),
    {
        !self.is_nan() && !other.is_nan() && self.key_bits() == other.key_bits()
    }

    /// Whether `self` comes before `other` in the total order.
    pub fn total_lt(self, other: Float) -> (r: bool)
        ensures
            r == (self.total_key() < other.total_key()),
    {
        self.total_key_bits() < other.total_key_bits()
    }

    #[verifier::when_used_as_spec(spec_neg)]
    pub fn neg(self) -> (r: Float)
        ensures
            r == self.spec_neg(),
    {
        if self.bits >= SIGN_BIT {
            Float { bits: self.bits - SIGN_BIT }
        } else {
            Float { bits: self.bits + SIGN_BIT }
        }
    }

    #[verifier::when_used_as_spec(spec_abs)]
    pub fn abs(self) -> (r: Float)
        ensures
            r == self.spec_abs(),
    {
        Float { bits: self.magnitude_bits() }
    }

    #[verifier::when_used_as_spec(spec_neg_if)]
    pub fn neg_if(self, negate: bool) -> (r: Float)
        ensures
            r == self.spec_neg_if(negate),
    {
        if negate {
            self.neg()
        } else {
            self
        }
    }

    #[verifier::when_used_as_spec(spec_max)]
    pub fn max(self, other: Float) -> (r: Float)
        ensures
            r == self.spec_max(other),
    {
        if self.is_nan() {
            other
        } else if other.is_nan() {
            self
        } else if self.key_bits() < other.key_bits() {
            other
        } else {
            self
        }
    }

    #[verifier::when_used_as_spec(spec_min)]
    pub fn min(self, other: Float) -> (r: Float)
        ensures
            r == self.spec_min(other),
    {
        if self.is_nan() {
            other
        } else if other.is_nan() {
            self
        } else if other.key_bits() < self.key_bits() {
            other
        } else {
            self
        }
    }

    #[verifier::when_used_as_spec(spec_clamp)]
    pub fn clamp(self, lo: Float, hi: Float) -> (r: Float)
        requires
            lo.spec_le(hi),
        ensures
            r == self.spec_clamp(lo, hi),
    {
        if self.lt(lo) {
            lo
        } else if hi.lt(self) {
            hi
        } else {
            self
        }
    }
}

// ----------------------------------------------------------------------------
// The number that a bit pattern stands for.

impl Float {
    /// The exponent bits, as a number from 0 to 2047.
    pub open spec fn exponent_field(self) -> int {
        self.magnitude() / (HIDDEN_BIT as int)
    }

    /// The fraction bits, as a number below `2^52`.
    pub open spec fn fraction(self) -> int {
        self.magnitude() % (HIDDEN_BIT as int)
    }

    /// The significand of a finite number as an integer: the fraction bits,
    /// with the hidden bit above them unless the number is subnormal.
    pub open spec fn significand(self) -> int {
        if self.exponent_field() == 0 {
            self.fraction()
        } else {
            HIDDEN_BIT + self.fraction()
        }
    }

    /// The power of two that scales the significand: a finite number is
    /// `significand * 2^exponent`, with the sign of the sign bit.
    pub open spec fn exponent(self) -> int {
        if self.exponent_field() == 0 {
            -1074
        } else {
            self.exponent_field() - 1075
        }
    }

    /// The whole part of the size of a finite number.
    pub open spec fn whole_magnitude(self) -> int {
        if self.exponent() >= 0 {
            self.significand() * pow2(self.exponent() as nat)
        } else {
            self.significand() / (pow2((-self.exponent()) as nat) as int)
        }
    }

    /// A finite number without what follows the decimal point: rounded
    /// towards zero.
    pub open spec fn truncated(self) -> int {
        if self.bits >= SIGN_BIT {
            -self.whole_magnitude()
        } else {
            self.whole_magnitude()
        }
    }

    /// The nearest 64-bit integer towards zero: NaN gives 0, and what lies
    /// beyond the integers of 64 bits, infinities included, gives the
    /// nearest of them.
    pub open spec fn spec_to_i64(self) -> i64 {
        if self.spec_is_nan() {
            0
        } else if self.spec_is_infinite() {
            if self.bits >= SIGN_BIT {
                i64::MIN
            } else {
                i64::MAX
            }
        } else if self.truncated() < i64::MIN {
            i64::MIN
        } else if self.truncated() > i64::MAX {
            i64::MAX
        } else {
            self.truncated() as i64
        }
    }

    /// Converts to an integer as [`Float::spec_to_i64`] says.
    #[verifier::when_used_as_spec(spec_to_i64)]
    pub fn to_i64(self) -> (r: i64)
        ensures
            r == self.spec_to_i64(),
            !self.spec_is_sign_negative() ==> r >= 0,
            self.spec_is_sign_negative() ==> r <= 0,
    {
        let m: u64 = self.magnitude_bits();
        let negative = self.bits >= SIGN_BIT;
        if m > INFINITY_BITS {
            return 0;
        }
        let field: u64 = m / HIDDEN_BIT;
        let fraction: u64 = m % HIDDEN_BIT;
        proof {
            lemma2_to64();
            lemma2_to64_rest();
        }
        if field < 1023 {
            // Below one: nothing is left of the significand.
            proof {
                let down = (-self.exponent()) as nat;
                assert(down >= 53);
                if down > 53 {
                    lemma_pow2_strictly_increases(53, down);
                }
                assert(self.significand() < pow2(down));
                assert(self.significand() / (pow2(down) as int) == 0) by (nonlinear_arith)
                    requires
                        0 <= self.significand() < pow2(down),
                ;
            }
            0
        } else if field >= 1086 {
            // At least two to the power of 63.
            proof {
                if !self.spec_is_infinite() {
                    let up = self.exponent() as nat;
                    assert(up >= 11);
                    if up > 11 {
                        lemma_pow2_strictly_increases(11, up);
                    }
                    assert(self.significand() * pow2(up) >= 0x8000_0000_0000_0000)
                        by (nonlinear_arith)
                        requires
                            self.significand() >= 0x0010_0000_0000_0000,
                            pow2(up) >= 0x800,
                    ;
                }
            }
            if negative {
                i64::MIN
            } else {
                i64::MAX
            }
        } else {
            let significand: u64 = HIDDEN_BIT + fraction;
            let whole: u64 = if field >= 1075 {
                let up: u64 = field - 1075;
                proof {
                    if up < 10 {
                        lemma_pow2_strictly_increases(up as nat, 10);
                    }
                    lemma_pow2_pos(up as nat);
                    assert(significand * pow2(up as nat) < 0x8000_0000_0000_0000)
                        by (nonlinear_arith)
                        requires
                            significand < 0x0020_0000_0000_0000,
                            0 < pow2(up as nat) <= 0x400,
                    ;
                    lemma_u64_shl_is_mul(significand, up);
                }
                significand << up
            } else {
                let down: u64 = 1075 - field;
                proof {
                    lemma_u64_shr_is_div(significand, down);
                }
                significand >> down
            };
            proof {
                lemma_pow2_pos((-self.exponent()) as nat);
                assert(whole == self.whole_magnitude());
                assert(whole < 0x8000_0000_0000_0000) by {
                    if field < 1075 {
                        assert(significand as nat / pow2((1075 - field) as nat) <= significand)
                            by (nonlinear_arith)
                            requires
                                pow2((1075 - field) as nat) > 0,
                        ;
                    }
                }
            }
            if negative {
                -(whole as i64)
            } else {
                whole as i64
            }
        }
    }
}

// ----------------------------------------------------------------------------
// The order of the keys is the order of the numbers.

/// The size of the finite number with the magnitude bits `m`, times two to
/// the power of 1074. It is a whole number, since the smallest bit of any
/// finite number weighs two to the power of -1074.
pub open spec fn scaled_size(m: int) -> int {
    let field = m / (HIDDEN_BIT as int);
    let fraction = m % (HIDDEN_BIT as int);
    if field == 0 {
        fraction
    } else {
        (HIDDEN_BIT + fraction) * pow2((field - 1) as nat)
    }
}

impl Float {
    /// A finite number times two to the power of 1074.
    pub open spec fn scaled(self) -> int {
        if self.bits >= SIGN_BIT {
            -scaled_size(self.magnitude())
        } else {
            scaled_size(self.magnitude())
        }
    }
}

/// Among finite numbers, more magnitude bits mean a larger size.
proof fn lemma_scaled_size_grows(m1: int, m2: int)
    requires
        0 <= m1 < m2 < INFINITY_BITS,
    ensures
        0 <= scaled_size(m1) < scaled_size(m2),
{
    let h = HIDDEN_BIT as int;
    let e1 = m1 / h;
    let e2 = m2 / h;
    let f1 = m1 % h;
    let f2 = m2 % h;
    assert(e1 <= e2);
    if e1 > 0 {
        lemma_pow2_pos((e1 - 1) as nat);
        assert(0 <= (h + f1) * pow2((e1 - 1) as nat)) by (nonlinear_arith)
            requires
                0 <= h + f1,
                0 < pow2((e1 - 1) as nat),
        ;
    }
    if e1 == e2 {
        if e1 > 0 {
            let p = pow2((e1 - 1) as nat);
            assert((h + f1) * p < (h + f2) * p) by (nonlinear_arith)
                requires
                    f1 < f2,
                    0 < p,
            ;
        }
    } else {
        let high_power = pow2((e2 - 1) as nat);
        lemma_pow2_pos((e2 - 1) as nat);
        assert(h * high_power <= (h + f2) * high_power) by (nonlinear_arith)
            requires
                0 <= f2,
                0 < high_power,
        ;
        if e1 == 0 {
            assert(h <= h * high_power) by (nonlinear_arith)
                requires
                    0 < h,
                    1 <= high_power,
            ;
        } else {
            let low_power = pow2((e1 - 1) as nat);
            lemma_pow2_unfold(e1 as nat);
            if e1 < e2 - 1 {
                lemma_pow2_strictly_increases(e1 as nat, (e2 - 1) as nat);
            }
            assert(2 * low_power <= high_power);
            assert((h + f1) * low_power < h * high_power) by (nonlinear_arith)
                requires
                    0 <= f1 < h,
                    0 < low_power,
                    2 * low_power <= high_power,
            ;
        }
    }
}

/// The key of a finite number stands for the number itself: one finite
/// number has the smaller key exactly when it is the smaller number, and the
/// same key exactly when it is the same number.
pub proof fn lemma_key_orders_numbers(a: Float, b: Float)
    requires
        a.spec_is_finite(),
        b.spec_is_finite(),
    ensures
        a.key() < b.key() <==> a.scaled() < b.scaled(),
        a.key() == b.key() <==> a.scaled() == b.scaled(),
{
    let ma = a.magnitude();
    let mb = b.magnitude();
    assert(scaled_size(0) == 0);
    if ma > 0 {
        lemma_scaled_size_grows(0, ma);
    }
    if mb > 0 {
        lemma_scaled_size_grows(0, mb);
    }
    if ma < mb {
        lemma_scaled_size_grows(ma, mb);
    }
    if mb < ma {
        lemma_scaled_size_grows(mb, ma);
    }
}

// ----------------------------------------------------------------------------
// From an integer to the nearest number.

/// The number of binary digits of a natural number.
pub open spec fn bit_length(n: nat) -> nat
    decreases n,
{
    if n == 0 {
        0
    } else {
        1 + bit_length(n / 2)
    }
}

/// A natural number kept to its 53 leading binary digits: what follows them
/// is rounded to the nearest, and a tie to the even neighbor.
pub open spec fn rounded_to_53_bits(size: nat) -> nat {
    if bit_length(size) <= 53 {
        size
    } else {
        let unit = pow2((bit_length(size) - 53) as nat);
        let kept = size / unit;
        let rest = size % unit;
        if 2 * rest > unit || (2 * rest == unit && kept % 2 == 1) {
            (kept + 1) * unit
        } else {
            kept * unit
        }
    }
}

/// A number with `length` binary digits lies between the powers of two.
proof fn lemma_bit_length_bounds(n: nat)
    requires
        n > 0,
    ensures
        pow2((bit_length(n) - 1) as nat) <= n < pow2(bit_length(n)),
    decreases n,
{
    lemma2_to64();
    if n >= 2 {
        lemma_bit_length_bounds(n / 2);
        lemma_pow2_unfold(bit_length(n));
        lemma_pow2_unfold((bit_length(n) - 1) as nat);
    } else {
        assert(bit_length(n / 2) == 0);
    }
}

/// A number below a power of two has no more binary digits than the power.
proof fn lemma_bit_length_below(n: nat, bits: nat)
    requires
        n < pow2(bits),
    ensures
        bit_length(n) <= bits,
    decreases bits,
{
    lemma2_to64();
    if n > 0 {
        if bits > 0 {
            lemma_pow2_unfold(bits);
            lemma_bit_length_below(n / 2, (bits - 1) as nat);
        }
    }
}

impl Float {
    /// Whether a finite number has nothing after the decimal point.
    pub open spec fn is_whole(self) -> bool {
        self.exponent() >= 0 || self.significand() % (pow2((-self.exponent()) as nat) as int) == 0
    }

    /// Whether this is the number nearest to the integer `n`: a finite whole
    /// number with the sign of `n`, equal to `n` where `n` has at most 53
    /// binary digits and else to `n` rounded to 53 of them.
    pub open spec fn is_nearest_to(self, n: i64) -> bool {
        &&& self.spec_is_finite()
        &&& self.is_whole()
        &&& self.spec_is_sign_negative() == (n < 0)
        &&& n >= 0 ==> self.truncated() == rounded_to_53_bits(n as nat)
        &&& n < 0 ==> self.truncated() == -(rounded_to_53_bits((-n) as nat) as int)
    }

    /// The number nearest to an integer.
    pub fn from_i64(n: i64) -> (r: Float)
        ensures
            r.is_nearest_to(n),
    {
        proof {
            lemma2_to64();
            lemma2_to64_rest();
        }
        if n == 0 {
            assert(bit_length(0) == 0);
            proof {
                lemma_pow2_pos(1074);
                assert(0int / (pow2(1074) as int) == 0 && 0int % (pow2(1074) as int) == 0)
                    by (nonlinear_arith)
                    requires
                        pow2(1074) > 0,
                ;
            }
            return Float { bits: 0 };
        }
        let size: u64 = if n >= 0 {
            n as u64
        } else {
            (-(n + 1)) as u64 + 1
        };
        let mut length: u64 = 0;
        let mut rest: u64 = size;
        proof {
            lemma_bit_length_below(size as nat, 64);
        }
        while rest > 0
            invariant
                length <= 64,
                bit_length(size as nat) == length + bit_length(rest as nat),
                length + bit_length(rest as nat) <= 64,
            decreases rest,
        {
            rest = rest / 2;
            length = length + 1;
        }
        proof {
            assert(bit_length(0) == 0);
            lemma_bit_length_bounds(size as nat);
        }
        let ghost value = rounded_to_53_bits(size as nat);
        let significand: u64 = if length <= 53 {
            let up: u64 = 53 - length;
            proof {
                lemma_pow2_pos(up as nat);
                vstd::arithmetic::power2::lemma_pow2_adds(length as nat, up as nat);
                vstd::arithmetic::power2::lemma_pow2_adds((length - 1) as nat, up as nat);
                assert(size * pow2(up as nat) < pow2(53)) by (nonlinear_arith)
                    requires
                        size < pow2(length as nat),
                        pow2(length as nat) * pow2(up as nat) == pow2(53),
                        0 < pow2(up as nat),
                ;
                assert(size * pow2(up as nat) >= pow2(52)) by (nonlinear_arith)
                    requires
                        size >= pow2((length - 1) as nat),
                        pow2((length - 1) as nat) * pow2(up as nat) == pow2(52),
                        0 < pow2(up as nat),
                ;
                lemma_u64_shl_is_mul(size, up);
            }
            size << up
        } else {
            let shift: u64 = length - 53;
            proof {
                lemma_pow2_pos(shift as nat);
                if shift < 11 {
                    lemma_pow2_strictly_increases(shift as nat, 11);
                }
                lemma_u64_shl_is_mul(1, shift);
                vstd::arithmetic::power2::lemma_pow2_adds(53, shift as nat);
                vstd::arithmetic::power2::lemma_pow2_adds(52, shift as nat);
            }
            let unit: u64 = 1u64 << shift;
            let kept: u64 = size / unit;
            let rest: u64 = size % unit;
            proof {
                assert(unit == pow2(shift as nat));
                assert(kept < pow2(53)) by (nonlinear_arith)
                    requires
                        size < pow2(53) * unit,
                        kept == size / unit,
                        unit > 0,
                ;
                assert(kept >= pow2(52)) by (nonlinear_arith)
                    requires
                        size >= pow2(52) * unit,
                        kept == size / unit,
                        unit > 0,
                ;
            }
            if 2 * rest > unit || (2 * rest == unit && kept % 2 == 1) {
                kept + 1
            } else {
                kept
            }
        };
        assert(HIDDEN_BIT <= significand <= 2 * HIDDEN_BIT);
        let field: u64 = 1022 + length;
        let magnitude: u64 = field * HIDDEN_BIT + (significand - HIDDEN_BIT);
        let r = Float {
            bits: if n < 0 {
                magnitude + SIGN_BIT
            } else {
                magnitude
            },
        };
        proof {
            assert(r.magnitude() == magnitude);
            if significand < 2 * HIDDEN_BIT {
                assert(r.exponent_field() == field);
                assert(r.fraction() == significand - HIDDEN_BIT);
                assert(r.significand() == significand);
                assert(r.exponent() == length - 53);
                if length < 53 {
                    let up = (53 - length) as nat;
                    lemma_pow2_pos(up);
                    let unit = pow2(up) as int;
                    let scaled = r.significand();
                    assert(scaled == size * unit);
                    assert(scaled / unit == size && scaled % unit == 0) by (nonlinear_arith)
                        requires
                            scaled == size * unit,
                            unit > 0,
                    ;
                    assert((-r.exponent()) as nat == up);
                    assert(r.whole_magnitude() == scaled / unit);
                    assert(scaled / unit == size);
                    assert(r.whole_magnitude() == size as int);
                } else if length == 53 {
                    assert(pow2(0) == 1);
                    assert(significand == size * pow2(0));
                    assert(r.whole_magnitude() == r.significand() * pow2(0));
                } else {
                    assert(r.whole_magnitude() == value);
                }
            } else {
                // Rounding up has carried into the next power of two.
                assert(r.exponent_field() == field + 1);
                assert(r.fraction() == 0);
                assert(r.exponent() == length - 52);
                lemma_pow2_unfold((length - 52) as nat);
                assert(HIDDEN_BIT * (2 * pow2((length - 53) as nat)) == (2 * HIDDEN_BIT) * pow2(
                    (length - 53) as nat,
                )) by (nonlinear_arith);
                assert(r.whole_magnitude() == value);
            }
            assert(r.whole_magnitude() == value);
        }
        r
    }
}

/// The size of a finite whole number, times two to the power of 1074, is its
/// whole part times two to the power of 1074.
proof fn lemma_whole_scaled(x: Float)
    requires
        x.spec_is_finite(),
        x.is_whole(),
    ensures
        scaled_size(x.magnitude()) == x.whole_magnitude() * pow2(1074),
{
    lemma2_to64();
    lemma2_to64_rest();
    let field = x.exponent_field();
    let significand = x.significand();
    let whole = x.whole_magnitude();
    lemma_pow2_pos(1074);
    if field == 0 {
        lemma_pow2_strictly_increases(52, 1074);
        let unit = pow2(1074) as int;
        assert(significand == 0) by (nonlinear_arith)
            requires
                0 <= significand < unit,
                significand % unit == 0,
        ;
        assert(0int / unit == 0) by (nonlinear_arith)
            requires
                unit > 0,
        ;
        assert(whole * pow2(1074) == 0) by (nonlinear_arith)
            requires
                whole == 0,
        ;
    } else if x.exponent() >= 0 {
        let up = x.exponent() as nat;
        vstd::arithmetic::power2::lemma_pow2_adds(up, 1074);
        assert(significand * pow2(up) * pow2(1074) == significand * (pow2(up) * pow2(1074)))
            by (nonlinear_arith);
    } else {
        let down = (-x.exponent()) as nat;
        let unit = pow2(down) as int;
        lemma_pow2_pos(down);
        vstd::arithmetic::power2::lemma_pow2_adds(down, (field - 1) as nat);
        assert(significand == whole * unit) by (nonlinear_arith)
            requires
                unit > 0,
                significand % unit == 0,
                whole == significand / unit,
        ;
        assert(whole * unit * pow2((field - 1) as nat) == whole * (unit * pow2(
            (field - 1) as nat,
        ))) by (nonlinear_arith);
    }
}

/// There is one number nearest to an integer: what [`Float::is_nearest_to`]
/// says of a number says which bits it has.
pub proof fn lemma_nearest_is_unique(a: Float, b: Float, n: i64)
    requires
        a.is_nearest_to(n),
        b.is_nearest_to(n),
    ensures
        a == b,
{
    lemma_whole_scaled(a);
    lemma_whole_scaled(b);
    assert(a.whole_magnitude() == b.whole_magnitude());
    let ma = a.magnitude();
    let mb = b.magnitude();
    if ma < mb {
        lemma_scaled_size_grows(ma, mb);
    }
    if mb < ma {
        lemma_scaled_size_grows(mb, ma);
    }
}

} // verus!
