//! Binary floating-point numbers of double precision, by their bit patterns.
//!
//! Scales and rates come in as double-precision numbers. The functions here say in
//! integers what the hardware computes from them: quotients and differences are
//! rounded to the nearest number of 53 significant bits, ties to even.

use vstd::arithmetic::power2::{
    lemma2_to64, lemma2_to64_rest, lemma_pow2_adds, lemma_pow2_pos, lemma_pow2_strictly_increases,
    lemma_pow2_unfold, pow2,
};
use vstd::prelude::*;

verus! {

/// Two to the 52nd: the weight of the leading bit of a normal significand, and the
/// number of fractions.
pub const LEADING: u64 = 0x10_0000_0000_0000;

/// Patterns from this one on have their sign bit set.
pub const SIGN: u64 = 0x8000_0000_0000_0000;

/// A double-precision number, by its bit pattern.
#[derive(Debug, Clone, Copy, PartialEq, Eq, Structural)]
pub struct Binary64 {
    pub bits: u64,
}

/// The pattern of 1.
pub const ONE: u64 = 0x3ff0_0000_0000_0000;

/// The pattern of 3.
pub const THREE: u64 = 0x4008_0000_0000_0000;

/// The pattern of positive infinity.
pub const INFINITY: u64 = 0x7ff0_0000_0000_0000;

impl Binary64 {
    pub open spec fn is_negative(self) -> bool {
        self.bits >= SIGN
    }

    pub open spec fn exponent_field(self) -> nat {
        (self.bits as nat / LEADING as nat) % 2048
    }

    pub open spec fn fraction_field(self) -> nat {
        self.bits as nat % LEADING as nat
    }

    pub open spec fn is_nan(self) -> bool {
        self.exponent_field() == 2047 && self.fraction_field() != 0
    }

    pub open spec fn is_infinite(self) -> bool {
        self.exponent_field() == 2047 && self.fraction_field() == 0
    }

    pub open spec fn is_finite(self) -> bool {
        self.exponent_field() < 2047
    }

    /// The integer of at most 53 bits that is scaled by a power of two.
    pub open spec fn significand(self) -> nat {
        if self.exponent_field() == 0 {
            self.fraction_field()
        } else {
            LEADING as nat + self.fraction_field()
        }
    }

    /// The magnitude is the significand times two to the power of `shift() - 1074`.
    pub open spec fn shift(self) -> nat {
        if self.exponent_field() == 0 {
            0
        } else {
            (self.exponent_field() - 1) as nat
        }
    }

    /// The magnitude, counted in units of the smallest positive number.
    pub open spec fn units(self) -> nat {
        self.significand() * pow2(self.shift())
    }

    pub fn nan(self) -> (is: bool)
        ensures
            is == self.is_nan(),
    {
        self.exponent() == 2047 && self.fraction() != 0
    }

    pub fn infinite(self) -> (is: bool)
        ensures
            is == self.is_infinite(),
    {
        self.exponent() == 2047 && self.fraction() == 0
    }

    fn exponent(self) -> (e: u32)
        ensures
            e == self.exponent_field(),
            e < 2048,
    {
        ((self.bits / LEADING) % 2048) as u32
    }

    fn shift_count(self) -> (shift: u32)
        ensures
            shift == self.shift(),
            shift <= 2046,
    {
        let e: u32 = self.exponent();
        if e == 0 {
            0
        } else {
            e - 1
        }
    }

    fn significand_bits(self) -> (m: u64)
        ensures
            m == self.significand(),
            m < 2 * LEADING,
    {
        if self.exponent() == 0 {
            self.fraction()
        } else {
            LEADING + self.fraction()
        }
    }

    fn fraction(self) -> (f: u64)
        ensures
            f == self.fraction_field(),
            f < LEADING,
    {
        self.bits % LEADING
    }
}

/// The integer nearest to `num / den`; of two equally near, the even one.
pub open spec fn nearest_even(num: nat, den: nat) -> nat {
    let q = num / den;
    let r = num % den;
    if 2 * r < den {
        q
    } else if 2 * r > den {
        q + 1
    } else {
        q + q % 2
    }
}

/// How often `num` has to be doubled for `num / den` to have a 53-bit integer part.
pub open spec fn doublings(num: nat, den: nat) -> nat
    decreases
            (if num < LEADING * den {
                LEADING * den - num
            } else {
                0
            }),
{
    if num == 0 || num >= LEADING * den {
        0
    } else {
        1 + doublings(2 * num, den)
    }
}

/// `num / den` rounded to 53 significant bits, and that rounded to an integer, a
/// half upwards.
pub open spec fn rounded_quotient(num: nat, den: nat) -> nat {
    let unit = pow2(doublings(num, den));
    (2 * nearest_even(num * unit, den) + unit) / (2 * unit)
}

impl Binary64 {
    /// The integer that results when `n` is divided by this magnitude, which is
    /// finite and not zero, and the quotient rounded.
    pub open spec fn divides_to(self, n: nat) -> nat {
        if self.shift() <= 1074 {
            rounded_quotient(n * pow2((1074 - self.shift()) as nat), self.significand())
        } else {
            rounded_quotient(n, self.significand() * pow2((self.shift() - 1074) as nat))
        }
    }
}

/// `n` divided by `by`, rounded to an integer, a half away from zero, and moved into
/// the range from `low` to `high`. Where the quotient is no number the result is 0.
pub open spec fn quotient_within(n: int, by: Binary64, low: int, high: int) -> int {
    let negative = (n < 0) != by.is_negative();
    if by.is_nan() || by.is_infinite() {
        0
    } else if by.units() == 0 {
        if n == 0 {
            0
        } else if negative {
            low
        } else {
            high
        }
    } else {
        let q = by.divides_to(
            if n < 0 {
                -n
            } else {
                n
            } as nat,
        );
        let signed = if negative {
            -q
        } else {
            q as int
        };
        if signed < low {
            low
        } else if signed > high {
            high
        } else {
            signed
        }
    }
}

proof fn lemma_doublings(num: nat, den: nat)
    requires
        num > 0,
        den > 0,
    ensures
        num * pow2(doublings(num, den)) >= LEADING * den,
        doublings(num, den) > 0 ==> num * pow2(doublings(num, den)) < 2 * (LEADING * den),
    decreases
            (if num < LEADING * den {
                LEADING * den - num
            } else {
                0
            }),
{
    lemma2_to64();
    if num < LEADING * den {
        let j = doublings(2 * num, den);
        lemma_doublings(2 * num, den);
        lemma_pow2_unfold(j + 1);
        assert((2 * num) * pow2(j) == num * pow2(j + 1)) by (nonlinear_arith)
            requires
                pow2(j + 1) == 2 * pow2(j),
        ;
        if j == 0 {
            assert((2 * num) * 1 == 2 * num);
        }
    } else {
        assert(num * 1 == num);
    }
}

proof fn lemma_nearest_even_bounds(num: nat, den: nat, low: nat, high: nat)
    requires
        den > 0,
        low * den <= num <= high * den,
    ensures
        low <= nearest_even(num, den) <= high,
{
    let q = num / den;
    let r = num % den;
    assert(num == q * den + r && 0 <= r < den) by (nonlinear_arith)
        requires
            q == num / den,
            r == num % den,
            den > 0,
    ;
    assert(low <= q) by (nonlinear_arith)
        requires
            low * den <= q * den + r,
            r < den,
            den > 0,
    ;
    assert(q < high || (q == high && r == 0)) by (nonlinear_arith)
        requires
            q * den + r <= high * den,
            0 <= r,
            den > 0,
    ;
}

/// A quotient of at most a quarter rounds to zero.
proof fn lemma_small_quotient(num: nat, den: nat)
    requires
        den > 0,
        4 * num <= den,
    ensures
        rounded_quotient(num, den) == 0,
{
    let j = doublings(num, den);
    let unit = pow2(j);
    lemma_pow2_pos(j);
    let m = nearest_even(num * unit, den);
    if num == 0 {
        assert(num * unit == 0) by (nonlinear_arith)
            requires
                num == 0,
        ;
        lemma_nearest_even_bounds(0, den, 0, 0);
    } else {
        lemma_doublings(num, den);
        lemma2_to64();
        lemma2_to64_rest();
        assert(unit >= 4 * LEADING) by (nonlinear_arith)
            requires
                num * unit >= LEADING * den,
                4 * num <= den,
                num > 0,
        ;
        if j < 54 {
            lemma_pow2_strictly_increases(j, 54);
        }
        if j == 54 {
            assert(num * unit <= LEADING * den) by (nonlinear_arith)
                requires
                    4 * num <= den,
                    unit == 4 * LEADING,
            ;
            lemma_nearest_even_bounds(num * unit, den, 0, LEADING as nat);
        } else {
            lemma_pow2_strictly_increases(54, j);
            lemma_pow2_unfold(j);
            if j > 55 {
                lemma_pow2_strictly_increases(55, j);
            }
            lemma_nearest_even_bounds(num * unit, den, 0, (2 * LEADING) as nat);
        }
    }
    assert(2 * m < unit);
    assert((2 * m + unit) / (2 * unit) == 0) by (nonlinear_arith)
        requires
            2 * m < unit,
            m >= 0,
    ;
}

/// A quotient from 2^33 on rounds to at least 2^33.
proof fn lemma_large_quotient(num: nat, den: nat)
    requires
        den > 0,
        num >= 0x2_0000_0000 * den,
    ensures
        rounded_quotient(num, den) >= 0x2_0000_0000,
{
    let unit = pow2(doublings(num, den));
    lemma_pow2_pos(doublings(num, den));
    let m = nearest_even(num * unit, den);
    assert((0x2_0000_0000 * unit) * den <= num * unit) by (nonlinear_arith)
        requires
            num >= 0x2_0000_0000 * den,
            unit > 0,
    ;
    assert(num * unit >= 0) by (nonlinear_arith);
    let n = num * unit;
    assert(n / den >= 0x2_0000_0000 * unit) by (nonlinear_arith)
        requires
            (0x2_0000_0000 * unit) * den <= n,
            den > 0,
    ;
    assert((2 * m + unit) / (2 * unit) >= 0x2_0000_0000) by (nonlinear_arith)
        requires
            m >= 0x2_0000_0000 * unit,
            unit > 0,
    ;
}

/// The integer nearest to `num / den`, ties to even.
fn round_to_even(num: u128, den: u128) -> (q: u128)
    requires
        0 < den <= u64::MAX,
        num < 0x4000_0000_0000_0000_0000_0000_0000_0000,
    ensures
        q == nearest_even(num as nat, den as nat),
{
    let q: u128 = num / den;
    let r: u128 = num % den;
    if 2 * r < den {
        q
    } else if 2 * r > den {
        assert(q <= num) by (nonlinear_arith)
            requires
                q == num / den,
                den > 0,
        ;
        q + 1
    } else {
        assert(q <= num) by (nonlinear_arith)
            requires
                q == num / den,
                den > 0,
        ;
        q + q % 2
    }
}

/// `num / den` rounded to 53 significant bits, as an integer over a power of two, for
/// a quotient that stays below 2^52.
fn significand_over_unit(num: u128, den: u64) -> (parts: (u128, u128))
    requires
        0 < num,
        0 < den,
        num < LEADING * den,
        den < 2 * LEADING,
    ensures
        parts.1 == pow2(doublings(num as nat, den as nat)),
        parts.0 == nearest_even(num as nat * parts.1 as nat, den as nat),
        parts.0 <= 2 * LEADING,
        1 <= parts.1,
        num * parts.1 < 2 * (LEADING * den),
        2 * (LEADING * den) <= u128::MAX / 4,
{
    let goal: u128 = LEADING as u128 * den as u128;
    assert(goal == LEADING * den) by (nonlinear_arith)
        requires
            goal == LEADING as u128 * den as u128,
    ;
    let mut scaled: u128 = num;
    let mut unit: u128 = 1;
    let ghost mut j: nat = 0;
    proof {
        lemma2_to64();
    }
    assert(num * 1 == num) by (nonlinear_arith);
    while scaled < goal
        invariant
            0 < num,
            0 < den < 2 * LEADING,
            goal == LEADING * den,
            0 < scaled < 2 * (LEADING * den),
            unit == pow2(j),
            unit >= 1,
            unit <= scaled,
            scaled == num * unit,
            doublings(num as nat, den as nat) == j + doublings(scaled as nat, den as nat),
        decreases
                (if scaled < goal {
                    goal - scaled
                } else {
                    0
                }),
    {
        proof {
            lemma_pow2_unfold(j + 1);
            assert(num * (2 * unit) == 2 * (num * unit)) by (nonlinear_arith);
            j = j + 1;
        }
        scaled = 2 * scaled;
        unit = 2 * unit;
    }
    proof {
        assert(LEADING * den <= LEADING * (2 * LEADING)) by (nonlinear_arith)
            requires
                den <= 2 * LEADING,
        ;
        assert(2 * (LEADING * den) == (2 * LEADING) * den) by (nonlinear_arith);
    }
    let m: u128 = round_to_even(scaled, den as u128);
    proof {
        lemma_nearest_even_bounds(scaled as nat, den as nat, 0, (2 * LEADING) as nat);
    }
    (m, unit)
}

/// `num / den` rounded to 53 significant bits and then to an integer, for a quotient
/// that stays below 2^52.
fn divide_rounded(num: u128, den: u64) -> (q: u128)
    requires
        0 < num,
        0 < den,
        num < LEADING * den,
        den < 2 * LEADING,
    ensures
        q == rounded_quotient(num as nat, den as nat),
{
    let (m, unit) = significand_over_unit(num, den);
    assert(unit <= num * unit) by (nonlinear_arith)
        requires
            num >= 1,
            unit >= 0,
    ;
    (2 * m + unit) / (2 * unit)
}

/// `num / den` rounded to 53 significant bits, and that rounded to whole tenths, ties
/// to even.
pub open spec fn rounded_tenths(num: nat, den: nat) -> nat {
    let unit = pow2(doublings(num, den));
    nearest_even(10 * nearest_even(num * unit, den), unit)
}

/// `n / 1000` in whole tenths, as the double-precision quotient is rounded to them.
pub fn thousandths_to_tenths(n: u32) -> (tenths: u64)
    requires
        n >= 1000,
    ensures
        tenths == rounded_tenths(n as nat, 1000),
{
    let (m, unit) = significand_over_unit(n as u128, 1000);
    assert(1000 * unit <= n * unit) by (nonlinear_arith)
        requires
            n >= 1000,
            unit >= 0,
    ;
    assert(unit <= u64::MAX);
    let tenths: u128 = round_to_even(10 * m, unit);
    proof {
        assert(10 * m <= (10 * m) * unit) by (nonlinear_arith)
            requires
                unit >= 1,
                m >= 0,
        ;
        assert(0 * unit == 0);
        lemma_nearest_even_bounds((10 * m) as nat, unit as nat, 0, (10 * m) as nat);
    }
    tenths as u64
}

/// Divides `n` by the magnitude of `by`, which is finite and not zero. The result
/// stops at the largest 32-bit number.
fn divide_magnitude(n: u32, by: Binary64) -> (q: u32)
    requires
        by.is_finite(),
        by.units() > 0,
    ensures
        q == if by.divides_to(n as nat) > u32::MAX {
            u32::MAX as int
        } else {
            by.divides_to(n as nat) as int
        },
{
    let e: u32 = by.exponent();
    let m: u64 = if e == 0 {
        by.fraction()
    } else {
        LEADING + by.fraction()
    };
    let shift: u32 = if e == 0 {
        0
    } else {
        e - 1
    };
    proof {
        lemma2_to64();
        lemma2_to64_rest();
        if m == 0 {
            assert(0 * pow2(shift as nat) == 0);
        }
    }
    if n == 0 {
        proof {
            lemma_pow2_pos((1074 - by.shift()) as nat);
            lemma_pow2_pos((by.shift() - 1074) as nat);
            if shift <= 1074 {
                assert(0 * pow2((1074 - shift) as nat) == 0);
                lemma_small_quotient(0, m as nat);
            } else {
                let den = m as nat * pow2((shift - 1074) as nat);
                assert(den > 0) by (nonlinear_arith)
                    requires
                        den == m as nat * pow2((shift - 1074) as nat),
                        m > 0,
                        pow2((shift - 1074) as nat) > 0,
                ;
                lemma_small_quotient(0, den);
            }
        }
        return 0;
    }
    if shift > 1055 {
        // The divisor is at least 2^34, so the quotient is at most a quarter.
        proof {
            if shift <= 1074 {
                let t = (1074 - shift) as nat;
                if t < 18 {
                    lemma_pow2_strictly_increases(t, 18);
                }
                assert(4 * (n * pow2(t)) <= m) by (nonlinear_arith)
                    requires
                        n <= 0xffff_ffff,
                        pow2(t) <= 0x4_0000,
                        m >= 0x10_0000_0000_0000,
                ;
                assert((n * pow2(t)) >= 0) by (nonlinear_arith);
                lemma_small_quotient((n as nat * pow2(t)), m as nat);
            } else {
                let t = (shift - 1074) as nat;
                lemma_pow2_pos(t);
                assert(m as nat * pow2(t) >= m) by (nonlinear_arith)
                    requires
                        pow2(t) > 0,
                ;
                lemma_small_quotient(n as nat, m as nat * pow2(t));
            }
        }
        return 0;
    }
    let t: u32 = 1074 - shift;
    if t > 85 {
        // The divisor is below 2^-33, so the quotient is beyond 32 bits.
        proof {
            lemma_pow2_adds(53, 33);
            if t > 86 {
                lemma_pow2_strictly_increases(86, t as nat);
            }
            assert(n * pow2(t as nat) >= 0x2_0000_0000 * m) by (nonlinear_arith)
                requires
                    n >= 1,
                    pow2(t as nat) >= 0x20_0000_0000_0000 * 0x2_0000_0000,
                    m <= 0x20_0000_0000_0000,
            ;
            lemma_large_quotient((n as nat * pow2(t as nat)), m as nat);
        }
        return u32::MAX;
    }
    let mut power: u128 = 1;
    let mut i: u32 = 0;
    while i < t
        invariant
            i <= t <= 85,
            power == pow2(i as nat),
            1 <= power <= 0x20_0000_0000_0000_0000_0000,
        decreases t - i,
    {
        proof {
            lemma_pow2_unfold((i + 1) as nat);
            lemma2_to64();
            lemma2_to64_rest();
            lemma_pow2_adds(53, 32);
            if i + 1 < 85 {
                lemma_pow2_strictly_increases((i + 1) as nat, 85);
            }
        }
        power = 2 * power;
        i += 1;
    }
    assert(n as u128 * power <= 0xffff_ffff * 0x20_0000_0000_0000_0000_0000) by (nonlinear_arith)
        requires
            n <= 0xffff_ffff,
            power <= 0x20_0000_0000_0000_0000_0000,
    ;
    let num: u128 = n as u128 * power;
    assert(num == n as nat * pow2(t as nat));
    assert(num > 0) by (nonlinear_arith)
        requires
            num == n as u128 * power,
            n > 0,
            power > 0,
    ;
    if num >= LEADING as u128 * m as u128 {
        proof {
            assert(num >= 0x2_0000_0000 * m) by (nonlinear_arith)
                requires
                    num >= LEADING as u128 * m as u128,
            ;
            lemma_large_quotient(num as nat, m as nat);
        }
        return u32::MAX;
    }
    let q: u128 = divide_rounded(num, m);
    if q > u32::MAX as u128 {
        u32::MAX
    } else {
        q as u32
    }
}

/// `n` divided by `by`, rounded to an integer, as an unsigned 32-bit number.
pub fn divide_u32(n: u32, by: Binary64) -> (q: u32)
    ensures
        q == quotient_within(n as int, by, 0, u32::MAX as int),
{
    let e: u32 = by.exponent();
    if e == 2047 {
        return 0;
    }
    if e == 0 && by.fraction() == 0 {
        assert(0 * pow2(0) == 0);
        return if n == 0 || by.bits >= SIGN {
            0
        } else {
            u32::MAX
        };
    }
    proof {
        lemma_pow2_pos(by.shift());
        assert(by.units() > 0) by (nonlinear_arith)
            requires
                by.units() == by.significand() * pow2(by.shift()),
                by.significand() > 0,
                pow2(by.shift()) > 0,
        ;
    }
    let q: u32 = divide_magnitude(n, by);
    if by.bits >= SIGN {
        0
    } else {
        q
    }
}

/// `n` divided by `by`, rounded to an integer, as a signed 32-bit number.
pub fn divide_i32(n: i32, by: Binary64) -> (q: i32)
    ensures
        q == quotient_within(n as int, by, i32::MIN as int, i32::MAX as int),
{
    let e: u32 = by.exponent();
    if e == 2047 {
        return 0;
    }
    let negative: bool = (n < 0) != (by.bits >= SIGN);
    if e == 0 && by.fraction() == 0 {
        assert(0 * pow2(0) == 0);
        return if n == 0 {
            0
        } else if negative {
            i32::MIN
        } else {
            i32::MAX
        };
    }
    proof {
        lemma_pow2_pos(by.shift());
        assert(by.units() > 0) by (nonlinear_arith)
            requires
                by.units() == by.significand() * pow2(by.shift()),
                by.significand() > 0,
                pow2(by.shift()) > 0,
        ;
    }
    let magnitude: u32 = if n < 0 {
        (-(n as i64)) as u32
    } else {
        n as u32
    };
    let q: u32 = divide_magnitude(magnitude, by);
    if negative {
        if q >= 0x8000_0000 {
            i32::MIN
        } else {
            (-(q as i64)) as i32
        }
    } else if q > 0x7fff_ffff {
        i32::MAX
    } else {
        q as i32
    }
}

/// Among patterns without a sign bit, the larger pattern is the larger number;
/// infinity counts as the number after the largest finite one.
pub proof fn lemma_patterns_are_ordered(a: Binary64, b: Binary64)
    requires
        a.bits < b.bits < SIGN,
    ensures
        a.units() < b.units(),
{
    let ea = a.exponent_field();
    let eb = b.exponent_field();
    let fa = a.fraction_field();
    let fb = b.fraction_field();
    let l = LEADING as nat;
    assert(a.bits == ea * l + fa && b.bits == eb * l + fb);
    assert(ea <= eb);
    lemma_pow2_pos(a.shift());
    lemma_pow2_pos(b.shift());
    if ea == eb {
        assert(a.significand() * pow2(a.shift()) < b.significand() * pow2(a.shift()))
            by (nonlinear_arith)
            requires
                a.significand() < b.significand(),
                pow2(a.shift()) > 0,
        ;
    } else {
        assert(b.units() >= l * pow2(b.shift())) by (nonlinear_arith)
            requires
                b.units() == b.significand() * pow2(b.shift()),
                b.significand() >= l,
                pow2(b.shift()) > 0,
        ;
        if ea == 0 {
            lemma2_to64();
            assert(a.units() == fa * 1);
            assert(l * pow2(b.shift()) >= l) by (nonlinear_arith)
                requires
                    pow2(b.shift()) > 0,
                    l > 0,
            ;
        } else {
            lemma_pow2_unfold(ea);
            if ea < b.shift() {
                lemma_pow2_strictly_increases(ea, b.shift());
            }
            assert(a.units() < l * pow2(ea)) by (nonlinear_arith)
                requires
                    a.units() == a.significand() * pow2(a.shift()),
                    a.significand() < 2 * l,
                    pow2(ea) == 2 * pow2(a.shift()),
                    pow2(a.shift()) > 0,
            ;
            assert(l * pow2(ea) <= l * pow2(b.shift())) by (nonlinear_arith)
                requires
                    pow2(ea) <= pow2(b.shift()),
                    l > 0,
            ;
        }
    }
}

impl Binary64 {
    /// This number moved into the range from `low` to `high`, which are positive.
    /// What is no number stays what it is.
    pub open spec fn clamped(self, low: Binary64, high: Binary64) -> Binary64 {
        if self.is_nan() {
            self
        } else if self.is_negative() || self.units() < low.units() {
            low
        } else if self.units() > high.units() {
            high
        } else {
            self
        }
    }

    /// Moves this number into the range from `low` to `high`.
    pub fn clamp(self, low: Binary64, high: Binary64) -> (clamped: Binary64)
        requires
            low.bits <= high.bits < SIGN,
        ensures
            clamped == self.clamped(low, high),
    {
        proof {
            if self.bits < low.bits {
                lemma_patterns_are_ordered(self, low);
            } else if low.bits < self.bits < SIGN {
                lemma_patterns_are_ordered(low, self);
            }
            if self.bits < high.bits {
                lemma_patterns_are_ordered(self, high);
            } else if high.bits < self.bits < SIGN {
                lemma_patterns_are_ordered(high, self);
            }
        }
        if self.nan() {
            self
        } else if self.bits >= SIGN || self.bits < low.bits {
            low
        } else if self.bits > high.bits {
            high
        } else {
            self
        }
    }
}

/// How many bits `n` has beyond 53.
pub open spec fn excess_bits(n: nat) -> nat
    decreases n,
{
    if n < 2 * LEADING {
        0
    } else {
        1 + excess_bits(n / 2)
    }
}

/// `n` rounded to 53 significant bits.
pub open spec fn rounded(n: nat) -> nat {
    let unit = pow2(excess_bits(n));
    nearest_even(n, unit) * unit
}

impl Binary64 {
    /// The number with its sign, in units of the smallest positive one.
    pub open spec fn signed_units(self) -> int {
        if self.is_negative() {
            -self.units()
        } else {
            self.units() as int
        }
    }
}

/// The exact distance of two finite numbers, in units of the smallest positive one.
pub open spec fn exact_distance(a: Binary64, b: Binary64) -> nat {
    let d = a.signed_units() - b.signed_units();
    if d < 0 {
        (-d) as nat
    } else {
        d as nat
    }
}

/// Where overflow begins, in units of the smallest positive number: two to the power
/// of 1024.
pub open spec fn overflow() -> nat {
    pow2(2098)
}

/// The magnitude of the difference of `a` and `b` as a computed number, in units of the
/// smallest positive one. What is out of range stands at `overflow()`. There is no
/// distance where the difference is no number.
pub open spec fn distance(a: Binary64, b: Binary64) -> Option<nat> {
    if a.is_nan() || b.is_nan() || (a.is_infinite() && b.is_infinite() && a.is_negative()
        == b.is_negative()) {
        None
    } else if a.is_infinite() || b.is_infinite() || rounded(exact_distance(a, b)) >= overflow() {
        Some(overflow())
    } else {
        Some(rounded(exact_distance(a, b)))
    }
}

proof fn lemma_nearest_even_doubled(n: nat, u: nat)
    requires
        u > 0,
    ensures
        nearest_even(2 * n, 2 * u) == nearest_even(n, u),
{
    let q = n / u;
    let r = n % u;
    assert(n == q * u + r && 0 <= r < u) by (nonlinear_arith)
        requires
            q == n / u,
            r == n % u,
            u > 0,
    ;
    assert(2 * n == q * (2 * u) + 2 * r) by (nonlinear_arith)
        requires
            n == q * u + r,
    ;
    vstd::arithmetic::div_mod::lemma_fundamental_div_mod_converse(
        (2 * n) as int,
        (2 * u) as int,
        q as int,
        (2 * r) as int,
    );
}

/// What divides evenly is not changed by rounding.
proof fn lemma_nearest_even_exact(q: nat, u: nat)
    requires
        u > 0,
    ensures
        nearest_even(q * u, u) == q,
{
    vstd::arithmetic::div_mod::lemma_fundamental_div_mod_converse(
        (q * u) as int,
        u as int,
        q as int,
        0,
    );
}

proof fn lemma_rounded_doubled(n: nat)
    ensures
        rounded(2 * n) == 2 * rounded(n),
{
    lemma2_to64();
    let k = excess_bits(n);
    let u = pow2(k);
    lemma_pow2_pos(k);
    assert((2 * n) / 2 == n);
    if 2 * n < 2 * LEADING {
        lemma_nearest_even_exact(n, 1);
        lemma_nearest_even_exact(2 * n, 1);
        assert(n * 1 == n && (2 * n) * 1 == 2 * n);
    } else {
        lemma_pow2_unfold(k + 1);
        lemma_nearest_even_doubled(n, u);
        let m = nearest_even(n, u);
        assert(m * (2 * u) == 2 * (m * u)) by (nonlinear_arith);
    }
}

proof fn lemma_rounded_scaled(n: nat, k: nat)
    ensures
        rounded(n * pow2(k)) == rounded(n) * pow2(k),
    decreases k,
{
    lemma2_to64();
    if k == 0 {
        assert(n * 1 == n && rounded(n) * 1 == rounded(n));
    } else {
        let j = (k - 1) as nat;
        lemma_rounded_scaled(n, j);
        lemma_pow2_unfold(k);
        lemma_rounded_doubled(n * pow2(j));
        let r = rounded(n);
        assert(n * pow2(k) == 2 * (n * pow2(j))) by (nonlinear_arith)
            requires
                pow2(k) == 2 * pow2(j),
        ;
        assert(r * pow2(k) == 2 * (r * pow2(j))) by (nonlinear_arith)
            requires
                pow2(k) == 2 * pow2(j),
        ;
    }
}

proof fn lemma_excess_bits(n: nat, d: nat)
    requires
        LEADING * pow2(d) <= n < 2 * (LEADING * pow2(d)),
    ensures
        excess_bits(n) == d,
    decreases d,
{
    lemma2_to64();
    if d == 0 {
        assert(LEADING * 1 == LEADING);
    } else {
        let j = (d - 1) as nat;
        lemma_pow2_unfold(d);
        lemma_pow2_pos(j);
        assert(LEADING * pow2(d) == 2 * (LEADING * pow2(j))) by (nonlinear_arith)
            requires
                pow2(d) == 2 * pow2(j),
        ;
        assert(LEADING * pow2(j) >= LEADING) by (nonlinear_arith)
            requires
                pow2(j) > 0,
        ;
        lemma_excess_bits(n / 2, j);
    }
}

/// A number that is much smaller does not change a normal one when it is added or
/// subtracted.
proof fn lemma_far_apart(m: nat, d: nat, small: nat)
    requires
        LEADING <= m < 2 * LEADING,
        small < 2 * LEADING,
        d >= 60,
    ensures
        rounded(m * pow2(d) + small) == m * pow2(d),
        m * pow2(d) >= small,
        rounded((m * pow2(d) - small) as nat) == m * pow2(d),
{
    lemma2_to64();
    lemma2_to64_rest();
    let unit = pow2(d);
    if d > 60 {
        lemma_pow2_strictly_increases(60, d);
    }
    assert(unit >= 128 * LEADING);
    assert(LEADING * unit <= m * unit <= (2 * LEADING - 1) * unit) by (nonlinear_arith)
        requires
            LEADING <= m <= 2 * LEADING - 1,
            unit > 0,
    ;
    assert((2 * LEADING - 1) * unit == 2 * (LEADING * unit) - unit) by (nonlinear_arith);
    let sum = m * unit + small;
    lemma_excess_bits(sum, d);
    vstd::arithmetic::div_mod::lemma_fundamental_div_mod_converse(
        sum as int,
        unit as int,
        m as int,
        small as int,
    );
    assert(LEADING * unit >= unit) by (nonlinear_arith)
        requires
            unit > 0,
            LEADING >= 1,
    ;
    let diff = (m * unit - small) as nat;
    if small == 0 {
    } else if m > LEADING {
        assert(m * unit >= LEADING * unit + unit) by (nonlinear_arith)
            requires
                m >= LEADING + 1,
                unit > 0,
        ;
        lemma_excess_bits(diff, d);
        assert((m - 1) * unit == m * unit - unit) by (nonlinear_arith);
        vstd::arithmetic::div_mod::lemma_fundamental_div_mod_converse(
            diff as int,
            unit as int,
            m - 1,
            unit - small,
        );
    } else {
        let j = (d - 1) as nat;
        let half = pow2(j);
        lemma_pow2_unfold(d);
        assert(LEADING * unit == 2 * (LEADING * half)) by (nonlinear_arith)
            requires
                unit == 2 * half,
        ;
        assert(LEADING * half >= half) by (nonlinear_arith)
            requires
                half > 0,
                LEADING >= 1,
        ;
        lemma_excess_bits(diff, j);
        assert((2 * LEADING - 1) * half == 2 * (LEADING * half) - half) by (nonlinear_arith);
        vstd::arithmetic::div_mod::lemma_fundamental_div_mod_converse(
            diff as int,
            half as int,
            2 * LEADING - 1,
            half - small,
        );
        assert((2 * LEADING) * half == 2 * (LEADING * half)) by (nonlinear_arith);
    }
}

/// The number `m` times two to the power of `shift`, in units of the smallest
/// positive number; infinity where that is out of range.
fn assemble(m: u64, shift: u32) -> (number: Binary64)
    requires
        m <= 2 * LEADING,
        shift <= 0x1_0000,
    ensures
        number.bits <= INFINITY,
        m * pow2(shift as nat) >= overflow() ==> number.units() == overflow(),
        m * pow2(shift as nat) < overflow() ==> number.units() == m * pow2(shift as nat),
{
    let ghost value = m * pow2(shift as nat);
    let mut m: u64 = m;
    let mut shift: u32 = shift;
    if m == 2 * LEADING {
        proof {
            lemma_pow2_unfold((shift + 1) as nat);
            assert(LEADING * pow2((shift + 1) as nat) == (2 * LEADING) * pow2(shift as nat))
                by (nonlinear_arith)
                requires
                    pow2((shift + 1) as nat) == 2 * pow2(shift as nat),
            ;
        }
        m = LEADING;
        shift += 1;
    }
    while m < LEADING && shift > 0
        invariant
            m < 2 * LEADING,
            shift <= 0x1_0001,
            m * pow2(shift as nat) == value,
        decreases shift,
    {
        proof {
            lemma_pow2_unfold(shift as nat);
            assert((2 * m) * pow2((shift - 1) as nat) == m * pow2(shift as nat))
                by (nonlinear_arith)
                requires
                    pow2(shift as nat) == 2 * pow2((shift - 1) as nat),
            ;
        }
        m = 2 * m;
        shift -= 1;
    }
    proof {
        lemma2_to64();
        lemma2_to64_rest();
        lemma_pow2_adds(52, 2046);
        lemma_pow2_pos(shift as nat);
    }
    if m < LEADING {
        let number = Binary64 { bits: m };
        proof {
            assert(m * 1 == m);
            lemma_pow2_strictly_increases(52, 2098);
        }
        number
    } else if shift >= 2046 {
        proof {
            if shift > 2046 {
                lemma_pow2_strictly_increases(2046, shift as nat);
            }
            assert(m * pow2(shift as nat) >= LEADING * pow2(2046)) by (nonlinear_arith)
                requires
                    m >= LEADING,
                    pow2(shift as nat) >= pow2(2046),
            ;
        }
        Binary64 { bits: INFINITY }
    } else {
        let number = Binary64 { bits: (shift as u64 + 1) * LEADING + (m - LEADING) };
        proof {
            if shift < 2045 {
                lemma_pow2_strictly_increases(shift as nat, 2045);
            }
            lemma_pow2_unfold(2046);
            assert(m * pow2(shift as nat) < LEADING * pow2(2046)) by (nonlinear_arith)
                requires
                    m < 2 * LEADING,
                    0 < pow2(shift as nat) <= pow2(2045),
                    pow2(2046) == 2 * pow2(2045),
            ;
            assert(number.exponent_field() == shift + 1);
            assert(number.fraction_field() == m - LEADING);
        }
        number
    }
}

/// `n` times two to the power of `shift`, rounded to 53 significant bits.
fn round_and_assemble(n: u128, shift: u32) -> (number: Binary64)
    requires
        n < 0x4_0000_0000_0000_0000_0000_0000_0000,
        shift <= 0xfff,
    ensures
        number.bits <= INFINITY,
        rounded(n as nat * pow2(shift as nat)) >= overflow() ==> number.units() == overflow(),
        rounded(n as nat * pow2(shift as nat)) < overflow() ==> number.units() == rounded(
            n as nat * pow2(shift as nat),
        ),
{
    let mut rest: u128 = n;
    let mut unit: u128 = 1;
    let mut k: u32 = 0;
    proof {
        lemma2_to64();
    }
    while rest >= 2 * LEADING as u128
        invariant
            n < 0x4_0000_0000_0000_0000_0000_0000_0000,
            excess_bits(n as nat) == k + excess_bits(rest as nat),
            unit == pow2(k as nat),
            1 <= unit <= u64::MAX,
            rest == n / unit,
            k <= 63,
        decreases rest,
    {
        proof {
            assert(rest * unit <= n) by (nonlinear_arith)
                requires
                    rest == n / unit,
                    unit >= 1,
            ;
            assert(2 * unit * LEADING <= n) by (nonlinear_arith)
                requires
                    rest * unit <= n,
                    rest >= 2 * LEADING,
                    unit >= 1,
            ;
            vstd::arithmetic::div_mod::lemma_div_denominator(n as int, unit as int, 2);
            lemma_pow2_unfold((k + 1) as nat);
            lemma2_to64();
            lemma2_to64_rest();
            if k + 1 >= 64 {
                if k + 1 > 64 {
                    lemma_pow2_strictly_increases(64, (k + 1) as nat);
                }
            }
        }
        rest = rest / 2;
        unit = 2 * unit;
        k += 1;
    }
    let m: u128 = round_to_even(n, unit);
    assert(m <= 2 * LEADING);
    let ghost r = rounded(n as nat);
    proof {
        lemma_rounded_scaled(n as nat, shift as nat);
        lemma_pow2_adds(k as nat, shift as nat);
        assert(m * pow2((k + shift) as nat) == r * pow2(shift as nat)) by (nonlinear_arith)
            requires
                r == m * pow2(k as nat),
                pow2((k + shift) as nat) == pow2(k as nat) * pow2(shift as nat),
        ;
    }
    assemble(m as u64, k + shift)
}

proof fn lemma_infinity()
    ensures
        (Binary64 { bits: INFINITY }).is_infinite(),
        (Binary64 { bits: INFINITY }).units() == overflow(),
{
    lemma2_to64_rest();
    lemma_pow2_adds(52, 2046);
}

/// Without its sign bit a number has the same magnitude.
proof fn lemma_magnitude(x: Binary64)
    ensures
        (Binary64 { bits: (x.bits % SIGN) as u64 }).exponent_field() == x.exponent_field(),
        (Binary64 { bits: (x.bits % SIGN) as u64 }).fraction_field() == x.fraction_field(),
{
}

/// The distance of two finite numbers, the first of which has the larger exponent.
fn finite_distance(high: Binary64, low: Binary64) -> (d: Binary64)
    requires
        high.is_finite(),
        low.is_finite(),
        high.shift() >= low.shift(),
    ensures
        d.bits <= INFINITY,
        distance(high, low) == Some(d.units()),
{
    let high_shift: u32 = high.shift_count();
    let low_shift: u32 = low.shift_count();
    let high_significand: u64 = high.significand_bits();
    let low_significand: u64 = low.significand_bits();
    let same_sign = (high.bits >= SIGN) == (low.bits >= SIGN);
    let apart: u32 = high_shift - low_shift;
    let ghost scale = pow2(low.shift());
    let ghost m = high.significand();
    let ghost small = low.significand();
    proof {
        lemma_pow2_adds(low.shift(), apart as nat);
        lemma_pow2_pos(low.shift());
        lemma_pow2_pos(apart as nat);
        assert(high.units() == m * pow2(apart as nat) * scale) by (nonlinear_arith)
            requires
                high.units() == m * pow2(high.shift()),
                pow2(high.shift()) == scale * pow2(apart as nat),
        ;
    }
    let ghost big = m * pow2(apart as nat);
    if apart >= 60 {
        let magnitude = Binary64 { bits: high.bits % SIGN };
        proof {
            lemma_far_apart(m, apart as nat, small);
            lemma_rounded_scaled(big + small, low.shift());
            lemma_rounded_scaled((big - small) as nat, low.shift());
            assert((big + small) * scale == big * scale + small * scale) by (nonlinear_arith);
            assert((big - small) * scale == big * scale - small * scale) by (nonlinear_arith);
            assert(big * scale >= small * scale) by (nonlinear_arith)
                requires
                    big >= small,
                    scale > 0,
            ;
            lemma_infinity();
            lemma_magnitude(high);
            lemma_patterns_are_ordered(magnitude, Binary64 { bits: INFINITY });
        }
        magnitude
    } else {
        let ghost factor = pow2(apart as nat);
        proof {
            lemma2_to64();
            lemma2_to64_rest();
            lemma_pow2_strictly_increases(apart as nat, 60);
            assert(1 * factor == factor);
            vstd::bits::lemma_u64_shl_is_mul(1, apart as u64);
        }
        let power: u64 = 1u64 << (apart as u64);
        assert(power == factor);
        assert(high_significand as nat * power as nat <= 0x1f_ffff_ffff_ffff * 0xfff_ffff_ffff_ffff)
            by (nonlinear_arith)
            requires
                high_significand <= 0x1f_ffff_ffff_ffff,
                power <= 0xfff_ffff_ffff_ffff,
        ;
        let scaled: u128 = high_significand as u128 * power as u128;
        assert(scaled == big);
        proof {
            assert((big + small) * scale == big * scale + small * scale) by (nonlinear_arith);
            assert((big - small) * scale == big * scale - small * scale) by (nonlinear_arith);
            assert((small - big) * scale == small * scale - big * scale) by (nonlinear_arith);
            assert(big >= small ==> big * scale >= small * scale) by (nonlinear_arith)
                requires
                    scale > 0,
            ;
            assert(big <= small ==> big * scale <= small * scale) by (nonlinear_arith)
                requires
                    scale > 0,
            ;
        }
        let n: u128 = if !same_sign {
            scaled + low_significand as u128
        } else if scaled >= low_significand as u128 {
            scaled - low_significand as u128
        } else {
            low_significand as u128 - scaled
        };
        assert(n as nat * scale == exact_distance(high, low));
        round_and_assemble(n, low_shift)
    }
}

/// The distance of two numbers, as a computed number without a sign.
pub fn measure(a: Binary64, b: Binary64) -> (d: Option<Binary64>)
    ensures
        d is None <==> distance(a, b) is None,
        d matches Some(x) ==> x.bits <= INFINITY && distance(a, b) == Some(x.units()),
{
    let a_infinite = a.infinite();
    let b_infinite = b.infinite();
    if a.nan() || b.nan() || (a_infinite && b_infinite && (a.bits >= SIGN) == (b.bits >= SIGN)) {
        return None;
    }
    if a_infinite || b_infinite {
        proof {
            lemma_infinity();
        }
        return Some(Binary64 { bits: INFINITY });
    }
    if a.shift_count() >= b.shift_count() {
        Some(finite_distance(a, b))
    } else {
        Some(finite_distance(b, a))
    }
}

/// The first distance is the larger one. What is no number is never larger nor smaller.
pub open spec fn farther(one: Option<nat>, other: Option<nat>) -> bool {
    one is Some && other is Some && one->0 > other->0
}

/// Which of the first `n` options is nearest to `wanted`: the first that none after it
/// undercuts.
pub open spec fn nearest_of(options: Seq<Binary64>, wanted: Binary64, n: nat) -> int
    decreases n,
{
    if n <= 1 {
        0
    } else {
        let best = nearest_of(options, wanted, (n - 1) as nat);
        if farther(distance(options[best], wanted), distance(options[n - 1], wanted)) {
            n - 1
        } else {
            best
        }
    }
}

/// The index of the option that is nearest to `wanted`.
pub fn nearest(options: &[Binary64], wanted: Binary64) -> (index: usize)
    requires
        options@.len() > 0,
    ensures
        index < options@.len(),
        index == nearest_of(options@, wanted, options@.len()),
{
    let total: usize = options.len();
    let mut best: usize = 0;
    let mut i: usize = 1;
    while i < total
        invariant
            total == options@.len(),
            1 <= i <= total,
            best < i,
            best == nearest_of(options@, wanted, i as nat),
        decreases total - i,
    {
        let best_distance = measure(options[best], wanted);
        let this_distance = measure(options[i], wanted);
        if let (Some(b), Some(t)) = (best_distance, this_distance) {
            proof {
                if b.bits > t.bits {
                    lemma_patterns_are_ordered(t, b);
                } else if b.bits < t.bits {
                    lemma_patterns_are_ordered(b, t);
                }
            }
            if b.bits > t.bits {
                best = i;
            }
        }
        i += 1;
    }
    best
}

/// What is chosen is one of the options.
pub proof fn law_one_of_the_options_is_chosen(options: Seq<Binary64>, wanted: Binary64, n: nat)
    requires
        0 < n <= options.len(),
    ensures
        0 <= nearest_of(options, wanted, n) < n,
    decreases n,
{
    if n > 1 {
        law_one_of_the_options_is_chosen(options, wanted, (n - 1) as nat);
    }
}

/// Where every option has a distance to the wanted number, none is nearer than the
/// chosen one, and of equally near options the first is chosen.
pub proof fn law_no_option_is_nearer(options: Seq<Binary64>, wanted: Binary64, n: nat)
    requires
        0 < n <= options.len(),
        forall|i: int| 0 <= i < n ==> distance(#[trigger] options[i], wanted) is Some,
    ensures
        0 <= nearest_of(options, wanted, n) < n,
        forall|i: int|
            0 <= i < n ==> distance(options[nearest_of(options, wanted, n)], wanted)->0 <= distance(
                #[trigger] options[i],
                wanted,
            )->0,
        forall|i: int|
            0 <= i < nearest_of(options, wanted, n) ==> distance(
                options[nearest_of(options, wanted, n)],
                wanted,
            )->0 < distance(#[trigger] options[i], wanted)->0,
    decreases n,
{
    if n > 1 {
        law_no_option_is_nearer(options, wanted, (n - 1) as nat);
    }
}

/// A larger fraction is not rounded to a smaller integer.
proof fn lemma_nearest_even_monotone(x: nat, b: nat, y: nat, d: nat)
    requires
        b > 0,
        d > 0,
        x * d <= y * b,
    ensures
        nearest_even(x, b) <= nearest_even(y, d),
{
    let q1 = x / b;
    let r1 = x % b;
    let q2 = y / d;
    let r2 = y % d;
    vstd::arithmetic::div_mod::lemma_fundamental_div_mod(x as int, b as int);
    vstd::arithmetic::div_mod::lemma_fundamental_div_mod(y as int, d as int);
    assert(q1 * (b * d) + r1 * d <= q2 * (b * d) + r2 * b) by (nonlinear_arith)
        requires
            x * d <= y * b,
            x == b * q1 + r1,
            y == d * q2 + r2,
    ;
    assert(r2 * b < b * d) by (nonlinear_arith)
        requires
            r2 < d,
            b > 0,
    ;
    assert(r1 * d >= 0) by (nonlinear_arith);
    assert(q1 <= q2) by (nonlinear_arith)
        requires
            q1 * (b * d) < q2 * (b * d) + b * d,
    ;
    if q1 == q2 {
        assert(r1 * d <= r2 * b);
        assert(2 * r1 > b ==> 2 * r2 > d) by (nonlinear_arith)
            requires
                r1 * d <= r2 * b,
                b > 0,
                d > 0,
        ;
        assert(2 * r1 == b ==> 2 * r2 >= d) by (nonlinear_arith)
            requires
                r1 * d <= r2 * b,
                b > 0,
                d > 0,
        ;
    }
}

/// A larger fraction does not have a smaller rounded quotient.
proof fn lemma_rounded_quotient_monotone(a: nat, b: nat, c: nat, d: nat)
    requires
        b > 0,
        d > 0,
        a * d <= c * b,
    ensures
        rounded_quotient(a, b) <= rounded_quotient(c, d),
{
    let j1 = doublings(a, b);
    let j2 = doublings(c, d);
    let u1 = pow2(j1);
    let u2 = pow2(j2);
    lemma_pow2_pos(j1);
    lemma_pow2_pos(j2);
    let m1 = nearest_even(a * u1, b);
    let m2 = nearest_even(c * u2, d);
    if a == 0 {
        lemma2_to64();
        assert(0 * u1 == 0);
        lemma_nearest_even_bounds(0, b, 0, 0);
        assert(rounded_quotient(a, b) == (2 * m1 + u1) / (2 * u1));
        assert((2 * m1 + u1) / (2 * u1) == 0) by (nonlinear_arith)
            requires
                m1 == 0,
                u1 > 0,
        ;
        assert((2 * m2 + u2) / (2 * u2) >= 0) by (nonlinear_arith)
            requires
                u2 > 0,
        ;
    } else {
        assert(c > 0) by (nonlinear_arith)
            requires
                a * d <= c * b,
                a > 0,
                d > 0,
        ;
        lemma_doublings(a, b);
        lemma_doublings(c, d);
        if j2 > j1 {
            let half = pow2((j2 - 1) as nat);
            lemma_pow2_unfold(j2);
            if j1 < j2 - 1 {
                lemma_pow2_strictly_increases(j1, (j2 - 1) as nat);
            }
            assert(c * half < LEADING * d) by (nonlinear_arith)
                requires
                    c * u2 < 2 * (LEADING * d),
                    u2 == 2 * half,
            ;
            assert(c * half >= LEADING * d) by (nonlinear_arith)
                requires
                    a * u1 >= LEADING * b,
                    a * d <= c * b,
                    half >= u1,
                    b > 0,
                    d > 0,
                    u1 > 0,
            {
                assert((c * half) * b >= (c * u1) * b);
                assert((c * u1) * b == (c * b) * u1);
                assert((c * b) * u1 >= (a * d) * u1);
                assert((a * d) * u1 == (a * u1) * d);
                assert((a * u1) * d >= (LEADING * b) * d);
                assert((LEADING * b) * d == (LEADING * d) * b);
            }
        }
        if j1 == j2 {
            assert((a * u1) * d <= (c * u1) * b) by (nonlinear_arith)
                requires
                    a * d <= c * b,
                    u1 > 0,
            ;
            lemma_nearest_even_monotone(a * u1, b, c * u1, d);
            assert(m1 * u2 <= m2 * u1) by (nonlinear_arith)
                requires
                    m1 <= m2,
                    u1 == u2,
                    u1 > 0,
            ;
        } else {
            lemma_pow2_unfold(j1);
            if j2 < j1 - 1 {
                lemma_pow2_strictly_increases(j2, (j1 - 1) as nat);
            }
            lemma_nearest_even_bounds(a * u1, b, 0, (2 * LEADING) as nat);
            let top = (c * u2) / d + 1;
            assert(c * u2 <= top * d) by (nonlinear_arith)
                requires
                    top == (c * u2) / d + 1,
                    d > 0,
            ;
            lemma_nearest_even_bounds(c * u2, d, LEADING as nat, top);
            assert(m1 * u2 <= m2 * u1) by (nonlinear_arith)
                requires
                    m1 <= 2 * LEADING,
                    m2 >= LEADING,
                    u1 >= 2 * u2,
                    u2 > 0,
            {
                assert(m1 * u2 <= (2 * LEADING) * u2);
                assert((2 * LEADING) * u2 <= LEADING * u1);
                assert(LEADING * u1 <= m2 * u1);
            }
        }
        let q1 = (2 * m1 + u1) / (2 * u1);
        let q2 = (2 * m2 + u2) / (2 * u2);
        vstd::arithmetic::div_mod::lemma_fundamental_div_mod((2 * m1 + u1) as int, (2 * u1) as int);
        vstd::arithmetic::div_mod::lemma_fundamental_div_mod((2 * m2 + u2) as int, (2 * u2) as int);
        assert((2 * u2) * (q2 + 1) == (2 * u2) * q2 + 2 * u2) by (nonlinear_arith);
        assert(q1 <= q2) by (nonlinear_arith)
            requires
                (2 * u1) * q1 <= 2 * m1 + u1,
                2 * m2 + u2 < (2 * u2) * (q2 + 1),
                m1 * u2 <= m2 * u1,
                u1 > 0,
                u2 > 0,
        {
            if q1 >= q2 + 1 {
                assert(((2 * u1) * q1) * u2 <= (2 * m1 + u1) * u2);
                assert((2 * m2 + u2) * u1 < ((2 * u2) * (q2 + 1)) * u1);
                assert(((2 * u2) * (q2 + 1)) * u1 <= ((2 * u1) * q1) * u2);
                assert((2 * m1 + u1) * u2 == 2 * (m1 * u2) + u1 * u2);
                assert((2 * m2 + u2) * u1 == 2 * (m2 * u1) + u1 * u2);
            }
        }
    }
}

impl Binary64 {
    /// The quotient that `divides_to` rounds, as a fraction.
    spec fn fraction_of(self, n: nat) -> (nat, nat) {
        if self.shift() <= 1074 {
            (n * pow2((1074 - self.shift()) as nat), self.significand())
        } else {
            (n, self.significand() * pow2((self.shift() - 1074) as nat))
        }
    }

    proof fn lemma_fraction_of(self, n: nat)
        requires
            self.units() > 0,
        ensures
            self.divides_to(n) == rounded_quotient(self.fraction_of(n).0, self.fraction_of(n).1),
            self.fraction_of(n).1 > 0,
            self.fraction_of(n).0 * self.units() == self.fraction_of(n).1 * (n * pow2(1074)),
    {
        let s = self.shift();
        let m = self.significand();
        lemma_pow2_pos(s);
        assert(m > 0) by (nonlinear_arith)
            requires
                m * pow2(s) > 0,
        ;
        if s <= 1074 {
            let p = pow2((1074 - s) as nat);
            lemma_pow2_adds((1074 - s) as nat, s);
            assert((n * p) * (m * pow2(s)) == m * (n * (p * pow2(s)))) by (nonlinear_arith);
        } else {
            let p = pow2((s - 1074) as nat);
            lemma_pow2_adds((s - 1074) as nat, 1074);
            lemma_pow2_pos((s - 1074) as nat);
            assert(m * p > 0) by (nonlinear_arith)
                requires
                    m > 0,
                    p > 0,
            ;
            assert(n * (m * (p * pow2(1074))) == (m * p) * (n * pow2(1074))) by (nonlinear_arith);
        }
    }
}

/// Dividing by a larger number gives no larger result.
pub proof fn lemma_larger_divisor(n: nat, a: Binary64, b: Binary64)
    requires
        0 < a.units() <= b.units(),
    ensures
        b.divides_to(n) <= a.divides_to(n),
{
    a.lemma_fraction_of(n);
    b.lemma_fraction_of(n);
    let (num_a, den_a) = a.fraction_of(n);
    let (num_b, den_b) = b.fraction_of(n);
    let ua = a.units();
    let ub = b.units();
    let top = n * pow2(1074);
    assert(num_b * den_a <= num_a * den_b) by (nonlinear_arith)
        requires
            num_a * ua == den_a * top,
            num_b * ub == den_b * top,
            0 < ua <= ub,
            den_a > 0,
            den_b > 0,
            top >= 0,
    {
        assert((num_b * den_a) * ub == (num_b * ub) * den_a);
        assert((num_b * ub) * den_a == (den_b * top) * den_a);
        assert((den_b * top) * den_a == (den_a * top) * den_b);
        assert((den_a * top) * den_b == (num_a * ua) * den_b);
        assert((num_a * ua) * den_b == (num_a * den_b) * ua);
        assert((num_a * den_b) * ua <= (num_a * den_b) * ub);
        assert((num_b * den_a) * ub <= (num_a * den_b) * ub);
    }
    lemma_rounded_quotient_monotone(num_b, den_b, num_a, den_a);
}

/// Dividing by one changes nothing.
pub proof fn lemma_dividing_by_one(n: nat)
    ensures
        (Binary64 { bits: ONE }).units() > 0,
        (Binary64 { bits: ONE }).divides_to(n) == n,
{
    let one = Binary64 { bits: ONE };
    lemma2_to64_rest();
    lemma_pow2_pos(1022);
    assert(one.units() > 0) by (nonlinear_arith)
        requires
            one.units() == LEADING * pow2(1022),
            pow2(1022) > 0,
    ;
    let l = LEADING as nat;
    assert(one.divides_to(n) == rounded_quotient(n * l, l));
    assert((n * l) * 1 == n * l);
    lemma_rounded_quotient_monotone(n * l, l, n, 1);
    lemma_rounded_quotient_monotone(n, 1, n * l, l);
    let unit = pow2(doublings(n, 1));
    lemma_pow2_pos(doublings(n, 1));
    lemma_nearest_even_exact(n * unit, 1);
    assert((n * unit) * 1 == n * unit);
    assert((2 * (n * unit) + unit) / (2 * unit) == n) by (nonlinear_arith)
        requires
            unit > 0,
    {
        assert(2 * (n * unit) + unit == n * (2 * unit) + unit);
    }
}

impl Binary64 {
    /// The whole number `n`.
    pub fn whole(n: u32) -> (number: Binary64)
        ensures
            number.is_finite(),
            !number.is_negative(),
            number.units() == n as nat * pow2(1074),
    {
        proof {
            lemma2_to64();
            lemma_pow2_adds(32, 1074);
            lemma_pow2_strictly_increases(1106, 2098);
            lemma_pow2_pos(1074);
            assert(n as nat * pow2(1074) < pow2(32) * pow2(1074)) by (nonlinear_arith)
                requires
                    n < pow2(32),
                    pow2(1074) > 0,
            ;
            lemma_infinity();
        }
        assemble(n as u64, 1074)
    }
}

proof fn lemma_excess_fits(n: nat)
    ensures
        n >= 2 * LEADING ==> n >= LEADING * pow2(excess_bits(n)),
        n < 2 * LEADING ==> excess_bits(n) == 0,
    decreases n,
{
    if n >= 2 * LEADING {
        let k = excess_bits(n / 2);
        lemma_excess_fits(n / 2);
        lemma2_to64();
        lemma_pow2_unfold(k + 1);
        assert(LEADING * pow2(k + 1) == 2 * (LEADING * pow2(k))) by (nonlinear_arith)
            requires
                pow2(k + 1) == 2 * pow2(k),
        ;
        if n / 2 < 2 * LEADING {
            assert(LEADING * 1 == LEADING);
        }
    }
}

/// Only nothing is rounded to nothing.
proof fn lemma_rounded_is_zero(n: nat)
    ensures
        rounded(n) == 0 <==> n == 0,
{
    let unit = pow2(excess_bits(n));
    lemma_pow2_pos(excess_bits(n));
    lemma_excess_fits(n);
    if n < 2 * LEADING {
        lemma2_to64();
        assert(n * 1 == n);
        lemma_nearest_even_exact(n, 1);
    } else {
        assert(n <= n * unit) by (nonlinear_arith)
            requires
                unit >= 1,
        ;
        lemma_nearest_even_bounds(n, unit, LEADING as nat, n);
        assert(nearest_even(n, unit) * unit > 0) by (nonlinear_arith)
            requires
                nearest_even(n, unit) >= LEADING,
                unit > 0,
        ;
    }
}

/// Two finite numbers without a sign have no distance exactly where they are the same.
proof fn lemma_no_distance(a: Binary64, b: Binary64)
    requires
        a.bits < INFINITY,
        b.bits < INFINITY,
    ensures
        distance(a, b) is Some,
        distance(a, b) == Some(0nat) <==> a == b,
{
    lemma_rounded_is_zero(exact_distance(a, b));
    lemma_pow2_pos(2098);
    if a.bits < b.bits {
        lemma_patterns_are_ordered(a, b);
    } else if b.bits < a.bits {
        lemma_patterns_are_ordered(b, a);
    }
}

/// An option is nearest to itself, where no two options are the same.
pub proof fn law_an_option_is_nearest_to_itself(options: Seq<Binary64>, i: int)
    requires
        0 <= i < options.len(),
        forall|j: int| 0 <= j < options.len() ==> (#[trigger] options[j]).bits < INFINITY,
        forall|j: int, k: int|
            0 <= j < options.len() && 0 <= k < options.len() && options[j] == options[k] ==> j == k,
    ensures
        nearest_of(options, options[i], options.len()) == i,
{
    let wanted = options[i];
    assert forall|j: int| 0 <= j < options.len() implies distance(
        #[trigger] options[j],
        wanted,
    ) is Some by {
        lemma_no_distance(options[j], wanted);
    }
    law_no_option_is_nearer(options, wanted, options.len());
    let best = nearest_of(options, wanted, options.len());
    lemma_no_distance(options[i], wanted);
    lemma_no_distance(options[best], wanted);
}

/// Rounding to the nearest integer is off by at most a half.
proof fn lemma_nearest_even_error(num: nat, den: nat)
    requires
        den > 0,
    ensures
        2 * (nearest_even(num, den) * den) <= 2 * num + den,
        2 * num <= 2 * (nearest_even(num, den) * den) + den,
{
    let q = num / den;
    let r = num % den;
    assert(num == q * den + r && 0 <= r < den) by (nonlinear_arith)
        requires
            q == num / den,
            r == num % den,
            den > 0,
    ;
    assert((q + 1) * den == q * den + den) by (nonlinear_arith);
}

/// A rounded quotient is the integer nearest to the exact one. Only the rounding to 53
/// significant bits in between can bring in one that is farther, by less than a
/// millionth.
proof fn lemma_rounded_quotient_error(num: nat, den: nat)
    requires
        den > 0,
        num < 0x1_0000_0000 * den,
    ensures
        2 * num <= (2 * rounded_quotient(num, den) + 1) * den,
        0x10_0000 * (2 * (rounded_quotient(num, den) * den) - 2 * num - den) <= den,
{
    let q = rounded_quotient(num, den);
    if num == 0 {
        lemma_small_quotient(num, den);
        assert(q * den == 0) by (nonlinear_arith)
            requires
                q == 0,
        ;
        assert((2 * q + 1) * den == den) by (nonlinear_arith)
            requires
                q == 0,
        ;
    } else {
        let j = doublings(num, den);
        let unit = pow2(j);
        let scaled = num * unit;
        let m = nearest_even(scaled, den);
        lemma_doublings(num, den);
        lemma_pow2_pos(j);
        assert(unit > 0x10_0000) by (nonlinear_arith)
            requires
                num * unit >= LEADING * den,
                num < 0x1_0000_0000 * den,
                num > 0,
                den > 0,
        ;
        lemma2_to64();
        assert(j > 0);
        lemma_pow2_unfold(j);
        let half = pow2((j - 1) as nat);
        lemma_nearest_even_error(scaled, den);
        let whole = 2 * unit;
        assert(q * whole <= 2 * m + unit < (q + 1) * whole) by (nonlinear_arith)
            requires
                q == (2 * m + unit) / whole,
                whole > 0,
        ;
        let mark = (2 * q + 1) * half;
        if 2 * num > (2 * q + 1) * den {
            assert(mark * den <= scaled) by (nonlinear_arith)
                requires
                    2 * num > (2 * q + 1) * den,
                    mark == (2 * q + 1) * half,
                    scaled == num * unit,
                    unit == 2 * half,
                    half >= 0,
            ;
            assert(scaled <= scaled * den) by (nonlinear_arith)
                requires
                    den >= 1,
            ;
            lemma_nearest_even_bounds(scaled, den, mark, scaled);
            assert(2 * m + unit >= (q + 1) * whole) by (nonlinear_arith)
                requires
                    m >= mark,
                    mark == (2 * q + 1) * half,
                    unit == 2 * half,
                    whole == 2 * unit,
            ;
        }
        let over = 2 * (q * den) - 2 * num - den;
        assert(unit * over <= den) by (nonlinear_arith)
            requires
                over == 2 * (q * den) - 2 * num - den,
                q * whole <= 2 * m + unit,
                whole == 2 * unit,
                2 * (m * den) <= 2 * scaled + den,
                scaled == num * unit,
                den > 0,
        {
            assert((q * whole) * den <= (2 * m + unit) * den);
            assert((q * whole) * den == 2 * ((q * den) * unit));
            assert((2 * m + unit) * den == 2 * (m * den) + unit * den);
            assert(unit * over == 2 * ((q * den) * unit) - 2 * (num * unit) - unit * den);
        }
        if over > 0 {
            assert(0x10_0000 * over <= unit * over) by (nonlinear_arith)
                requires
                    unit > 0x10_0000,
                    over > 0,
            ;
        }
    }
}

/// `q` is the integer nearest to `n / by`: the quotient lies at most a half above it, and
/// below it at most a half and a millionth.
pub open spec fn is_nearest_to(q: nat, n: nat, by: Binary64) -> bool {
    &&& 2 * (n * pow2(1074)) <= (2 * q + 1) * by.units()
    &&& 0x10_0000 * (2 * (q * by.units()) - 2 * (n * pow2(1074)) - by.units()) <= by.units()
}

/// Division gives the integer nearest to the exact quotient, wherever that lies within
/// the range.
pub proof fn law_quotients_are_the_nearest_integers(n: int, by: Binary64, low: int, high: int)
    requires
        by.is_finite(),
        !by.is_negative(),
        by.units() > 0,
        -0xffff_ffff <= low <= 0 <= high <= 0xffff_ffff,
        n >= 0 ==> n * pow2(1074) <= high * by.units(),
        n < 0 ==> (-n) * pow2(1074) <= (-low) * by.units(),
    ensures
        n >= 0 ==> quotient_within(n, by, low, high) >= 0 && is_nearest_to(
            quotient_within(n, by, low, high) as nat,
            n as nat,
            by,
        ),
        n < 0 ==> quotient_within(n, by, low, high) <= 0 && is_nearest_to(
            (-quotient_within(n, by, low, high)) as nat,
            (-n) as nat,
            by,
        ),
{
    let magnitude = (if n < 0 {
        -n
    } else {
        n
    }) as nat;
    let limit = (if n < 0 {
        -low
    } else {
        high
    }) as nat;
    let q = by.divides_to(magnitude);
    let u = by.units();
    let top = magnitude * pow2(1074);
    by.lemma_fraction_of(magnitude);
    let (num, den) = by.fraction_of(magnitude);
    assert(num <= limit * den) by (nonlinear_arith)
        requires
            num * u == den * top,
            top <= limit * u,
            u > 0,
            den > 0,
    {
        assert(den * top <= den * (limit * u));
        assert(den * (limit * u) == (limit * den) * u);
    }
    assert(limit * den < 0x1_0000_0000 * den) by (nonlinear_arith)
        requires
            limit < 0x1_0000_0000,
            den > 0,
    ;
    lemma_rounded_quotient_error(num, den);
    assert(2 * top <= (2 * q + 1) * u) by (nonlinear_arith)
        requires
            2 * num <= (2 * q + 1) * den,
            num * u == den * top,
            den > 0,
            u > 0,
    {
        assert((2 * num) * u <= ((2 * q + 1) * den) * u);
        assert((2 * num) * u == (2 * top) * den);
        assert(((2 * q + 1) * den) * u == ((2 * q + 1) * u) * den);
    }
    let over = 2 * (q * u) - 2 * top - u;
    assert(0x10_0000 * over <= u) by (nonlinear_arith)
        requires
            0x10_0000 * (2 * (q * den) - 2 * num - den) <= den,
            num * u == den * top,
            over == 2 * (q * u) - 2 * top - u,
            den > 0,
            u > 0,
    {
        let e = 2 * (q * den) - 2 * num - den;
        assert((0x10_0000 * e) * u <= den * u);
        assert(e * u == over * den) by {
            assert((q * den) * u == (q * u) * den);
            assert(num * u == top * den);
        }
        assert((0x10_0000 * e) * u == (0x10_0000 * over) * den);
    }
    assert(q <= limit) by (nonlinear_arith)
        requires
            0x10_0000 * (2 * (q * den) - 2 * num - den) <= den,
            num <= limit * den,
            den > 0,
    {
        if q >= limit + 1 {
            assert(q * den >= (limit + 1) * den);
            assert((limit + 1) * den == limit * den + den);
        }
    }
}

/// The patterns that have a name stand for 1 and for 3.
pub proof fn law_named_patterns()
    ensures
        (Binary64 { bits: ONE }).units() == pow2(1074),
        (Binary64 { bits: THREE }).units() == 3 * pow2(1074),
        (Binary64 { bits: ONE }).is_finite() && !(Binary64 { bits: ONE }).is_negative(),
        (Binary64 { bits: THREE }).is_finite() && !(Binary64 { bits: THREE }).is_negative(),
{
    lemma2_to64_rest();
    lemma_pow2_adds(52, 1022);
    lemma_pow2_adds(51, 1023);
    let l = LEADING as nat;
    assert((l + l / 2) * pow2(1023) == 3 * (pow2(51) * pow2(1023))) by (nonlinear_arith)
        requires
            l + l / 2 == 3 * pow2(51),
    ;
}

/// A rate in thousandths is shown as the nearest number of tenths.
pub proof fn law_tenths_are_the_nearest(n: nat)
    requires
        1000 <= n <= u32::MAX,
    ensures
        -50 <= 100 * rounded_tenths(n, 1000) - n <= 50,
{
    let j = doublings(n, 1000);
    let unit = pow2(j);
    let scaled = n * unit;
    let m = nearest_even(scaled, 1000);
    let t = rounded_tenths(n, 1000);
    lemma_doublings(n, 1000);
    lemma_pow2_pos(j);
    assert(unit > 1000) by (nonlinear_arith)
        requires
            n * unit >= LEADING * 1000,
            n <= 0xffff_ffff,
    ;
    lemma_nearest_even_error(scaled, 1000);
    lemma_nearest_even_error(10 * m, unit);
    let off = 100 * t - n;
    assert(-50 <= off <= 50) by (nonlinear_arith)
        requires
            off == 100 * t - n,
            2 * (m * 1000) <= 2 * scaled + 1000,
            2 * scaled <= 2 * (m * 1000) + 1000,
            2 * (t * unit) <= 2 * (10 * m) + unit,
            2 * (10 * m) <= 2 * (t * unit) + unit,
            scaled == n * unit,
            unit > 1000,
    {
        assert(off * unit == 100 * (t * unit) - scaled);
        assert(2 * (off * unit) <= 101 * unit);
        assert(2 * (off * unit) >= -101 * unit);
        if off >= 51 {
            assert(off * unit >= 51 * unit);
        }
        if off <= -51 {
            assert(off * unit <= -51 * unit);
        }
    }
}

/// The patterns of the quarters from 1 to 2.
pub proof fn law_quarters()
    ensures
        4 * (Binary64 { bits: 0x3ff0_0000_0000_0000 }).units() == 4 * pow2(1074),
        4 * (Binary64 { bits: 0x3ff4_0000_0000_0000 }).units() == 5 * pow2(1074),
        4 * (Binary64 { bits: 0x3ff8_0000_0000_0000 }).units() == 6 * pow2(1074),
        4 * (Binary64 { bits: 0x3ffc_0000_0000_0000 }).units() == 7 * pow2(1074),
        4 * (Binary64 { bits: 0x4000_0000_0000_0000 }).units() == 8 * pow2(1074),
{
    lemma2_to64_rest();
    lemma_pow2_adds(52, 1022);
    lemma_pow2_adds(52, 1023);
    lemma_pow2_unfold(1075);
    let l = LEADING as nat;
    let u = pow2(1022);
    assert((l + l / 4) * u * 4 == 5 * (l * u)) by (nonlinear_arith)
        requires
            4 * (l / 4) == l,
    ;
    assert((l + l / 2) * u * 4 == 6 * (l * u)) by (nonlinear_arith)
        requires
            2 * (l / 2) == l,
    ;
    assert((l + 3 * (l / 4)) * u * 4 == 7 * (l * u)) by (nonlinear_arith)
        requires
            4 * (l / 4) == l,
    ;
}

proof fn lemma_excess_bits_are_excess(n: nat)
    ensures
        excess_bits(n) > 0 ==> LEADING * pow2(excess_bits(n)) <= n,
    decreases n,
{
    lemma2_to64();
    if n >= 2 * LEADING {
        let e = excess_bits(n / 2);
        lemma_excess_bits_are_excess(n / 2);
        lemma_pow2_unfold((e + 1) as nat);
        assert(LEADING * pow2((e + 1) as nat) == 2 * (LEADING * pow2(e))) by (nonlinear_arith)
            requires
                pow2((e + 1) as nat) == 2 * pow2(e),
        ;
    }
}

/// The distance of two finite numbers is that of the values they stand for, right to the 53
/// bits that a number has.
pub proof fn law_distances_are_right_to_53_bits(a: Binary64, b: Binary64)
    requires
        a.is_finite(),
        b.is_finite(),
    ensures
        distance(a, b) is Some,
        ({
            let apart = a.signed_units() - b.signed_units();
            let exact = if apart < 0 {
                -apart
            } else {
                apart
            };
            let d = distance(a, b)->0;
            d < pow2(2098) ==> {
                &&& 0x20_0000_0000_0000 * (d - exact) <= exact
                &&& 0x20_0000_0000_0000 * (exact - d) <= exact
            }
        }),
        distance(a, b) == distance(b, a),
{
    let exact = exact_distance(a, b);
    let e = excess_bits(exact);
    let unit = pow2(e);
    lemma2_to64();
    lemma_pow2_pos(e);
    lemma_excess_bits_are_excess(exact);
    lemma_nearest_even_error(exact, unit);
    let d = rounded(exact);
    assert(d == nearest_even(exact, unit) * unit);
    if e == 0 {
        assert(d * 1 == d);
    } else {
        assert(0x20_0000_0000_0000 * (d - exact) <= exact && 0x20_0000_0000_0000 * (exact - d)
            <= exact) by (nonlinear_arith)
            requires
                2 * d <= 2 * exact + unit,
                2 * exact <= 2 * d + unit,
                0x10_0000_0000_0000 * unit <= exact,
        ;
    }
    assert(exact_distance(b, a) == exact);
}

/// Only what is no number, and infinities of the same sign, have no distance.
pub proof fn law_what_has_no_distance(a: Binary64, b: Binary64)
    ensures
        distance(a, b) is None <==> a.is_nan() || b.is_nan() || (a.is_infinite() && b.is_infinite()
            && a.is_negative() == b.is_negative()),
{
}

/// A number within the range stays, one below it becomes the lower end and one above it the
/// upper end.
pub proof fn law_clamping_moves_what_lies_outside(number: Binary64, low: Binary64, high: Binary64)
    requires
        !number.is_nan(),
        !low.is_negative(),
        !high.is_negative(),
        low.units() <= high.units(),
    ensures
        ({
            let clamped = number.clamped(low, high);
            let value = number.signed_units();
            &&& low.units() <= value <= high.units() ==> clamped == number || value == 0
            &&& value < low.units() ==> clamped == low
            &&& value > high.units() ==> clamped == high
        }),
{
}

} // verus!
