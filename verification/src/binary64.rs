//! Numbers in the IEEE 754 binary64 format, computed on as integers.

use vstd::arithmetic::div_mod::{
    lemma_div_denominator, lemma_div_multiples_vanish, lemma_fundamental_div_mod,
};
use vstd::arithmetic::power2::{
    lemma2_to64, lemma2_to64_rest, lemma_pow2_adds, lemma_pow2_pos, lemma_pow2_strictly_increases,
    lemma_pow2_unfold, pow2,
};
use vstd::prelude::*;

verus! {

/// Significands are smaller than this: two to the power of 53.
pub const SIGNIFICAND_LIMIT: u64 = 0x20_0000_0000_0000;

/// The number of fractions that a sign and an exponent can go with: two to the power of 52.
pub const FRACTION_LIMIT: u64 = 0x10_0000_0000_0000;

/// A binary64 number, given by its bits.
#[derive(Clone, Copy, PartialEq, Eq, Structural, Debug)]
pub struct Binary64 {
    pub bits: u64,
}

/// How often `p` has to be halved to become smaller than the limit of significands.
pub open spec fn excess(p: nat) -> nat
    decreases p,
{
    if p < SIGNIFICAND_LIMIT {
        0
    } else {
        1 + excess(p / 2)
    }
}

/// The distance between neighbouring binary64 numbers around the whole number `p`.
pub open spec fn spacing(p: nat) -> nat {
    pow2(excess(p))
}

/// The whole number `p` rounded to a binary64 number: to the nearest, and from halfway to
/// the one with the even significand.
pub open spec fn rounded(p: nat) -> nat {
    let unit = spacing(p);
    let below = p / unit;
    let rest = p % unit;
    if 2 * rest > unit || (2 * rest == unit && below % 2 == 1) {
        (below + 1) * unit
    } else {
        below * unit
    }
}

/// The whole part of `n` times two to the power of `power`.
pub open spec fn whole_part(n: nat, power: int) -> nat {
    if power >= 0 {
        n * pow2(power as nat)
    } else {
        n / pow2((-power) as nat)
    }
}

impl Binary64 {
    /// The sign bit is set.
    pub open spec fn negative(self) -> bool {
        self.bits >= 0x8000_0000_0000_0000
    }

    /// The biased exponent.
    pub open spec fn exponent_field(self) -> nat {
        (self.bits as nat / FRACTION_LIMIT as nat) % 2048
    }

    /// The stored bits of the significand.
    pub open spec fn fraction(self) -> nat {
        self.bits as nat % FRACTION_LIMIT as nat
    }

    /// The number is neither an infinity nor a NaN.
    pub open spec fn finite(self) -> bool {
        self.exponent_field() != 2047
    }

    /// The number is an infinity.
    pub open spec fn infinite(self) -> bool {
        self.exponent_field() == 2047 && self.fraction() == 0
    }

    /// The number is no number at all.
    pub open spec fn nan(self) -> bool {
        self.exponent_field() == 2047 && self.fraction() != 0
    }

    /// The whole number that, scaled by two to the power of `power`, is the magnitude of a
    /// finite number.
    pub open spec fn significand(self) -> nat {
        if self.exponent_field() == 0 {
            self.fraction()
        } else {
            self.fraction() + FRACTION_LIMIT as nat
        }
    }

    /// The exponent that goes with the significand.
    pub open spec fn power(self) -> int {
        if self.exponent_field() == 0 {
            -1074
        } else {
            self.exponent_field() - 1075
        }
    }

    /// The number is finite and greater than zero.
    pub open spec fn finite_and_positive(self) -> bool {
        self.finite() && !self.negative() && self.significand() > 0
    }

    /// The number is zero or less than zero, minus infinity being the least.
    pub open spec fn at_most_zero(self) -> bool {
        !self.nan() && (self.negative() || self.significand() == 0)
    }

    /// The magnitude is the whole number `n`.
    pub open spec fn stands_for(self, n: nat) -> bool {
        if self.power() >= 0 {
            self.significand() * pow2(self.power() as nat) == n
        } else {
            self.significand() == n * pow2((-self.power()) as nat)
        }
    }

    /// The magnitude is greater than `n`.
    pub open spec fn magnitude_exceeds(self, n: nat) -> bool
        recommends
            self.finite(),
    {
        if self.power() >= 0 {
            self.significand() * pow2(self.power() as nat) > n
        } else {
            self.significand() > n * pow2((-self.power()) as nat)
        }
    }

    /// The whole part of the binary64 product of the magnitude and `factor`, or the largest
    /// 64-bit number where the whole part is larger than that.
    pub open spec fn whole_product(self, factor: nat) -> nat
        recommends
            self.finite(),
    {
        let whole = whole_part(rounded(self.significand() * factor), self.power());
        if whole > u64::MAX {
            u64::MAX as nat
        } else {
            whole
        }
    }
}

proof fn significand_bound(x: Binary64)
    ensures
        x.significand() < SIGNIFICAND_LIMIT,
        -1074 <= x.power() <= 972,
        x.power() >= 0 ==> x.significand() >= FRACTION_LIMIT,
{
}

fn power_of_two(k: u32) -> (res: u128)
    requires
        k < 128,
    ensures
        res == pow2(k as nat),
{
    let mut i: u32 = 0;
    let mut res: u128 = 1;
    proof {
        lemma2_to64();
    }
    while i < k
        invariant
            i <= k < 128,
            res == pow2(i as nat),
        decreases k - i,
    {
        proof {
            lemma_pow2_unfold((i + 1) as nat);
            two_to_127();
            if i + 1 < 127 {
                lemma_pow2_strictly_increases((i + 1) as nat, 127);
            }
        }
        res = res * 2;
        i = i + 1;
    }
    res
}

proof fn two_to_127()
    ensures
        pow2(127) == 0x8000_0000_0000_0000_0000_0000_0000_0000,
        pow2(128) == u128::MAX + 1,
        pow2(64) == u64::MAX + 1,
        pow2(53) == SIGNIFICAND_LIMIT,
{
    lemma2_to64();
    lemma2_to64_rest();
    lemma_pow2_adds(63, 64);
    lemma_pow2_adds(64, 64);
    assert(pow2(63) * pow2(64) == 0x8000_0000_0000_0000int * 0x1_0000_0000_0000_0000int);
    assert(pow2(64) * pow2(64) == 0x1_0000_0000_0000_0000int * 0x1_0000_0000_0000_0000int);
}

/// Rounds a whole number to a binary64 number.
pub fn round(p: u128) -> (res: u128)
    requires
        p < 0x4000_0000_0000_0000_0000_0000_0000_0000,
    ensures
        res == rounded(p as nat),
{
    let mut unit: u128 = 1;
    let mut below: u128 = p;
    let ghost mut halvings: nat = 0;
    proof {
        lemma2_to64();
    }
    while below >= SIGNIFICAND_LIMIT as u128
        invariant
            p < 0x4000_0000_0000_0000_0000_0000_0000_0000,
            unit == pow2(halvings),
            unit > 0,
            below == p as nat / unit as nat,
            excess(p as nat) == halvings + excess(below as nat),
            unit * below <= p,
            halvings == 0 ==> unit == 1 && below == p,
            halvings > 0 ==> below >= FRACTION_LIMIT,
        decreases below,
    {
        proof {
            lemma_pow2_unfold(halvings + 1);
            lemma_div_denominator(p as int, unit as int, 2);
            assert(unit * 2 <= unit * below) by (nonlinear_arith)
                requires
                    below >= 2,
                    unit > 0,
            ;
            assert((unit * 2) * (below / 2) <= unit * below) by (nonlinear_arith)
                requires
                    below >= 2,
                    unit > 0,
            ;
            halvings = halvings + 1;
        }
        unit = unit * 2;
        below = below / 2;
    }
    assert(halvings == excess(p as nat));
    let rest: u128 = p % unit;
    proof {
        lemma_fundamental_div_mod(p as int, unit as int);
        assert(rest < unit) by (nonlinear_arith)
            requires
                rest == p % unit,
                unit > 0,
        ;
        assert(below * unit <= p) by (nonlinear_arith)
            requires
                unit * below <= p,
        ;
        assert((below + 1) * unit == below * unit + unit) by (nonlinear_arith);
        assert(unit <= p || below == 0) by (nonlinear_arith)
            requires
                unit * below <= p,
        ;
    }
    if 2 * rest > unit || (2 * rest == unit && below % 2 == 1) {
        (below + 1) * unit
    } else {
        below * unit
    }
}

/// A whole number of at most 53 bits is a binary64 number.
pub proof fn small_numbers_are_kept(p: nat)
    requires
        p < SIGNIFICAND_LIMIT,
    ensures
        rounded(p) == p,
{
    lemma2_to64();
    assert(spacing(p) == 1);
    assert(p / 1 == p && p % 1 == 0);
    assert(p * 1 == p);
}

proof fn pow2_grows(low: nat, high: nat)
    requires
        low <= high,
    ensures
        0 < pow2(low) <= pow2(high),
{
    lemma_pow2_pos(low);
    if low < high {
        lemma_pow2_strictly_increases(low, high);
    }
}

impl Binary64 {
    fn decode(&self) -> (res: (u64, i32))
        ensures
            res.0 == self.significand(),
            res.1 == self.power(),
    {
        let field: u64 = (self.bits / FRACTION_LIMIT) % 2048;
        let fraction: u64 = self.bits % FRACTION_LIMIT;
        if field == 0 {
            (fraction, -1074)
        } else {
            (fraction + FRACTION_LIMIT, field as i32 - 1075)
        }
    }

    /// Tells whether the number is finite and greater than zero.
    pub fn is_finite_and_positive(&self) -> (res: bool)
        ensures
            res == self.finite_and_positive(),
    {
        let field: u64 = (self.bits / FRACTION_LIMIT) % 2048;
        let (significand, _power) = self.decode();
        field != 2047 && self.bits < 0x8000_0000_0000_0000 && significand > 0
    }

    /// Tells whether the number is no number at all.
    pub fn is_nan(&self) -> (res: bool)
        ensures
            res == self.nan(),
    {
        (self.bits / FRACTION_LIMIT) % 2048 == 2047 && self.bits % FRACTION_LIMIT != 0
    }

    /// Tells whether the number is an infinity.
    pub fn is_infinite(&self) -> (res: bool)
        ensures
            res == self.infinite(),
    {
        (self.bits / FRACTION_LIMIT) % 2048 == 2047 && self.bits % FRACTION_LIMIT == 0
    }

    /// Tells whether the number is zero or less than zero.
    pub fn is_at_most_zero(&self) -> (res: bool)
        ensures
            res == self.at_most_zero(),
    {
        let (significand, _power) = self.decode();
        !self.is_nan() && (self.bits >= 0x8000_0000_0000_0000 || significand == 0)
    }

    /// Tells whether the magnitude of the number is greater than `n`.
    pub fn exceeds(&self, n: u128) -> (res: bool)
        requires
            self.finite(),
            n <= 0x1_0000_0000_0000_0000,
        ensures
            res == self.magnitude_exceeds(n as nat),
    {
        let (significand, power) = self.decode();
        proof {
            significand_bound(*self);
            two_to_127();
        }
        if power >= 64 {
            proof {
                pow2_grows(64, power as nat);
                assert(significand * pow2(power as nat) > n) by (nonlinear_arith)
                    requires
                        significand >= 2,
                        pow2(power as nat) >= 0x1_0000_0000_0000_0000,
                        n <= 0x1_0000_0000_0000_0000,
                ;
            }
            true
        } else if power >= 0 {
            let scale: u128 = power_of_two(power as u32);
            proof {
                pow2_grows(power as nat, 64);
                assert(significand * scale <= 0x20_0000_0000_0000 * 0x1_0000_0000_0000_0000)
                    by (nonlinear_arith)
                    requires
                        significand <= 0x20_0000_0000_0000,
                        scale <= 0x1_0000_0000_0000_0000,
                ;
            }
            significand as u128 * scale > n
        } else if power > -54 {
            let scale: u128 = power_of_two((-power) as u32);
            proof {
                pow2_grows((-power) as nat, 53);
                assert(n * scale <= 0x1_0000_0000_0000_0000 * 0x20_0000_0000_0000)
                    by (nonlinear_arith)
                    requires
                        n <= 0x1_0000_0000_0000_0000,
                        scale <= 0x20_0000_0000_0000,
                ;
            }
            significand as u128 > n * scale
        } else {
            proof {
                let scale = pow2((-power) as nat);
                pow2_grows(53, (-power) as nat);
                assert(n == 0 ==> n * scale == 0);
                assert(n > 0 ==> n * scale >= scale) by (nonlinear_arith)
                    requires
                        scale > 0,
                ;
            }
            n == 0 && significand > 0
        }
    }

    /// Multiplies the magnitude of the number by `factor` in binary64 arithmetic, and drops
    /// what follows the point. A product that does not fit gives the largest 64-bit number.
    pub fn multiply_to_whole(&self, factor: u64) -> (res: u64)
        requires
            self.finite(),
            factor <= SIGNIFICAND_LIMIT,
        ensures
            res == self.whole_product(factor as nat),
    {
        let (significand, power) = self.decode();
        proof {
            significand_bound(*self);
            two_to_127();
            assert(significand * factor <= 0x20_0000_0000_0000 * 0x20_0000_0000_0000)
                by (nonlinear_arith)
                requires
                    significand <= 0x20_0000_0000_0000,
                    factor <= 0x20_0000_0000_0000,
            ;
        }
        let product: u128 = round(significand as u128 * factor as u128);
        let largest: u128 = u64::MAX as u128;
        if power >= 64 {
            proof {
                pow2_grows(64, power as nat);
                assert(product > 0 ==> product * pow2(power as nat) > u64::MAX)
                    by (nonlinear_arith)
                    requires
                        pow2(power as nat) > u64::MAX,
                ;
                assert(product == 0 ==> product * pow2(power as nat) == 0);
            }
            if product == 0 {
                0
            } else {
                u64::MAX
            }
        } else if power >= 0 {
            let scale: u128 = power_of_two(power as u32);
            proof {
                pow2_grows(power as nat, 64);
                lemma_fundamental_div_mod(largest as int, scale as int);
                assert(product > largest / scale ==> product * scale > largest)
                    by (nonlinear_arith)
                    requires
                        largest == scale * (largest / scale) + largest % scale,
                        largest % scale < scale,
                        scale > 0,
                ;
                assert(product <= largest / scale ==> product * scale <= largest)
                    by (nonlinear_arith)
                    requires
                        largest == scale * (largest / scale) + largest % scale,
                        largest % scale >= 0,
                        scale > 0,
                ;
            }
            if product > largest / scale {
                u64::MAX
            } else {
                (product * scale) as u64
            }
        } else if power > -128 {
            let scale: u128 = power_of_two((-power) as u32);
            proof {
                lemma_pow2_pos((-power) as nat);
            }
            let whole: u128 = product / scale;
            if whole > largest {
                u64::MAX
            } else {
                whole as u64
            }
        } else {
            proof {
                pow2_grows(128, (-power) as nat);
                assert(product as nat / pow2((-power) as nat) == 0) by (nonlinear_arith)
                    requires
                        product < pow2((-power) as nat),
                ;
            }
            0
        }
    }
}

/// Where neighbouring numbers are further than one apart, at least 53 bits lie above the
/// spacing.
proof fn spacing_bound(p: nat)
    ensures
        spacing(p) > 0,
        p / spacing(p) < SIGNIFICAND_LIMIT,
        excess(p) > 0 ==> p / spacing(p) >= FRACTION_LIMIT,
    decreases p,
{
    lemma2_to64();
    lemma_pow2_pos(excess(p));
    if p < SIGNIFICAND_LIMIT {
        assert(p / 1 == p);
    } else {
        let half = p / 2;
        spacing_bound(half);
        lemma_pow2_unfold(excess(p));
        assert(spacing(p) == 2 * spacing(half));
        lemma_div_denominator(p as int, 2, spacing(half) as int);
        assert(p / spacing(p) == half / spacing(half));
        if excess(half) == 0 {
            assert(half / 1 == half);
        }
    }
}

/// How far two whole numbers are apart.
pub open spec fn distance(a: nat, b: nat) -> nat {
    if a < b {
        (b - a) as nat
    } else {
        (a - b) as nat
    }
}

/// No binary64 number is nearer to a whole number than the one that it is rounded to.
pub proof fn rounded_is_nearest(p: nat, significand: nat, power: nat)
    requires
        significand < SIGNIFICAND_LIMIT,
    ensures
        distance(rounded(p), p) <= distance(significand * pow2(power), p),
{
    let unit = spacing(p);
    let below = p / unit;
    let rest = p % unit;
    let other = significand * pow2(power);
    spacing_bound(p);
    lemma_fundamental_div_mod(p as int, unit as int);
    assert(p == below * unit + rest && rest < unit) by (nonlinear_arith)
        requires
            p == unit * below + rest,
            rest == p % unit,
            unit > 0,
    ;
    assert((below + 1) * unit == below * unit + unit) by (nonlinear_arith);
    if excess(p) == 0 {
        small_numbers_are_kept(p);
    } else if power >= excess(p) {
        let extra = pow2((power - excess(p)) as nat);
        lemma_pow2_adds(excess(p), (power - excess(p)) as nat);
        let steps = significand * extra;
        assert(other == steps * unit) by (nonlinear_arith)
            requires
                other == significand * (unit * extra),
                steps == significand * extra,
        ;
        if steps <= below {
            assert(steps * unit <= below * unit) by (nonlinear_arith)
                requires
                    steps <= below,
            ;
        } else {
            assert(steps * unit >= (below + 1) * unit) by (nonlinear_arith)
                requires
                    steps >= below + 1,
            ;
        }
    } else {
        let low = pow2(power);
        pow2_grows(power + 1, excess(p));
        lemma_pow2_unfold(power + 1);
        assert(other <= FRACTION_LIMIT * unit) by (nonlinear_arith)
            requires
                other == significand * low,
                significand <= 2 * FRACTION_LIMIT,
                2 * low <= unit,
        ;
        assert(FRACTION_LIMIT * unit <= below * unit) by (nonlinear_arith)
            requires
                below >= FRACTION_LIMIT,
        ;
    }
}

/// What a whole number is rounded to is a binary64 number.
pub proof fn rounded_is_binary64(p: nat)
    ensures
        exists|significand: nat, power: nat|
            significand < SIGNIFICAND_LIMIT && rounded(p) == #[trigger] (significand * pow2(power)),
{
    let unit = spacing(p);
    let below = p / unit;
    spacing_bound(p);
    if rounded(p) == below * unit {
        assert(rounded(p) == below * pow2(excess(p)));
    } else if below + 1 < SIGNIFICAND_LIMIT {
        assert(rounded(p) == (below + 1) * pow2(excess(p)));
    } else {
        lemma_pow2_unfold(excess(p) + 1);
        assert((below + 1) * unit == FRACTION_LIMIT as nat * pow2(excess(p) + 1))
            by (nonlinear_arith)
            requires
                below + 1 == 2 * FRACTION_LIMIT,
                pow2(excess(p) + 1) == 2 * unit,
        ;
    }
}

/// A number that stands for the whole number `n` times a factor gives the exact product, as
/// long as that has at most 53 bits.
pub proof fn whole_numbers_multiply_exactly(x: Binary64, n: nat, factor: nat)
    requires
        x.stands_for(n),
        n * factor < SIGNIFICAND_LIMIT,
    ensures
        x.whole_product(factor) == n * factor,
{
    let product = x.significand() * factor;
    if x.power() >= 0 {
        let scale = pow2(x.power() as nat);
        lemma_pow2_pos(x.power() as nat);
        assert(product * scale == n * factor) by (nonlinear_arith)
            requires
                product == x.significand() * factor,
                x.significand() * scale == n,
        ;
        assert(product <= product * scale) by (nonlinear_arith)
            requires
                scale >= 1,
        ;
        small_numbers_are_kept(product);
    } else {
        let scale = pow2((-x.power()) as nat);
        lemma_pow2_pos((-x.power()) as nat);
        assert(product == (n * factor) * scale) by (nonlinear_arith)
            requires
                product == x.significand() * factor,
                x.significand() == n * scale,
        ;
        rounded_is_nearest(product, n * factor, (-x.power()) as nat);
        lemma_div_multiples_vanish((n * factor) as int, scale as int);
        assert(((n * factor) * scale) as nat / scale == n * factor) by {
            assert((n * factor) * scale == scale * (n * factor)) by (nonlinear_arith);
        }
    }
}

/// A whole number that is a binary64 number, and is written with too large a significand, can
/// be written with half of it.
proof fn large_significands_are_even(p: nat, large: nat, power: nat)
    requires
        large * pow2(power) == rounded(p),
        large >= SIGNIFICAND_LIMIT,
    ensures
        large % 2 == 0,
{
    rounded_is_binary64(p);
    let (small, high) = choose|significand: nat, high: nat|
        significand < SIGNIFICAND_LIMIT && rounded(p) == #[trigger] (significand * pow2(high));
    let unit = pow2(power);
    lemma_pow2_pos(power);
    if high <= power {
        pow2_grows(high, power);
        assert(small * pow2(high) < large * unit) by (nonlinear_arith)
            requires
                small < large,
                0 < pow2(high) <= unit,
        ;
    } else {
        let extra = pow2((high - power) as nat);
        lemma_pow2_adds(power, (high - power) as nat);
        lemma_pow2_unfold((high - power) as nat);
        let half = pow2((high - power - 1) as nat);
        assert(large == small * extra) by (nonlinear_arith)
            requires
                large * unit == small * (unit * extra),
                unit > 0,
        ;
        assert(large == 2 * (small * half)) by (nonlinear_arith)
            requires
                large == small * extra,
                extra == 2 * half,
        ;
    }
}

impl Binary64 {
    /// The binary64 number that a count is converted to.
    pub fn from_count(count: u64) -> (res: Binary64)
        ensures
            res.finite(),
            !res.negative(),
            res.stands_for(rounded(count as nat)),
    {
        let value: u128 = Binary64::round_count(count);
        proof {
            lemma2_to64();
            lemma2_to64_rest();
        }
        if value == 0 {
            assert(0 * pow2(1074) == 0);
            return Binary64 { bits: 0 };
        }
        let mut significand: u128 = value;
        let mut up: u32 = 0;
        while significand >= SIGNIFICAND_LIMIT as u128
            invariant
                0 < value <= 0x1_0000_0000_0000_0000,
                value == rounded(count as nat),
                up <= 12,
                significand * pow2(up as nat) == value,
                significand > 0,
                up == 0 ==> significand == value,
                up > 0 ==> significand >= FRACTION_LIMIT,
            decreases significand,
        {
            proof {
                large_significands_are_even(count as nat, significand as nat, up as nat);
                lemma_pow2_unfold((up + 1) as nat);
                lemma2_to64();
                assert((significand / 2) * pow2((up + 1) as nat) == significand * pow2(up as nat))
                    by (nonlinear_arith)
                    requires
                        pow2((up + 1) as nat) == 2 * pow2(up as nat),
                        significand % 2 == 0,
                ;
                assert(up < 12) by {
                    assert(significand * 4096 > 0x1_0000_0000_0000_0000);
                }
            }
            significand = significand / 2;
            up = up + 1;
        }
        let ghost whole = significand;
        let mut down: u32 = 0;
        while significand < FRACTION_LIMIT as u128
            invariant
                whole > 0,
                whole * pow2(up as nat) == value,
                up <= 12,
                up > 0 ==> whole >= FRACTION_LIMIT,
                up == 0 ==> whole == value,
                down <= 52,
                significand == whole * pow2(down as nat),
                0 < significand < SIGNIFICAND_LIMIT,
                down > 0 ==> whole < FRACTION_LIMIT,
            decreases 52 - down,
        {
            proof {
                lemma_pow2_unfold((down + 1) as nat);
                assert(whole * pow2((down + 1) as nat) == 2 * significand) by (nonlinear_arith)
                    requires
                        pow2((down + 1) as nat) == 2 * pow2(down as nat),
                        significand == whole * pow2(down as nat),
                ;
                lemma2_to64_rest();
                assert(down < 52) by {
                    if down == 52 {
                        assert(significand >= pow2(52)) by (nonlinear_arith)
                            requires
                                significand == whole * pow2(52),
                                whole >= 1,
                        ;
                    }
                }
                if down == 0 {
                    lemma2_to64();
                    assert(significand == whole) by (nonlinear_arith)
                        requires
                            significand == whole * pow2(0),
                            pow2(0) == 1,
                    ;
                }
            }
            significand = significand * 2;
            down = down + 1;
        }
        let field: u64 = 1075 + up as u64 - down as u64;
        let fraction: u64 = significand as u64 - FRACTION_LIMIT;
        let res: Binary64 = Binary64 { bits: field * FRACTION_LIMIT + fraction };
        proof {
            assert(res.exponent_field() == field);
            assert(res.significand() == significand);
            assert(significand == whole || down > 0) by {
                lemma2_to64();
            }
        }
        res
    }
}

/// A number that stands for the whole number `n` is above zero if `n` is, and exceeds the
/// whole numbers below `n` and no others.
pub proof fn whole_numbers_exceed_smaller_ones(x: Binary64, n: nat, other: nat)
    requires
        x.stands_for(n),
    ensures
        x.significand() > 0 <==> n > 0,
        x.magnitude_exceeds(other) <==> n > other,
{
    if x.power() >= 0 {
        let scale = pow2(x.power() as nat);
        lemma_pow2_pos(x.power() as nat);
        assert(x.significand() > 0 <==> x.significand() * scale > 0) by (nonlinear_arith)
            requires
                scale > 0,
        ;
    } else {
        let scale = pow2((-x.power()) as nat);
        lemma_pow2_pos((-x.power()) as nat);
        assert(n > 0 <==> n * scale > 0) by (nonlinear_arith)
            requires
                scale > 0,
        ;
        assert(n * scale > other * scale <==> n > other) by (nonlinear_arith)
            requires
                scale > 0,
        ;
    }
}

/// Rounding keeps the order of whole numbers.
pub proof fn rounding_is_monotone(a: nat, b: nat)
    requires
        a <= b,
    ensures
        rounded(a) <= rounded(b),
{
    rounded_is_binary64(a);
    rounded_is_binary64(b);
    let (low, low_power) = choose|significand: nat, power: nat|
        significand < SIGNIFICAND_LIMIT && rounded(a) == #[trigger] (significand * pow2(power));
    let (high, high_power) = choose|significand: nat, power: nat|
        significand < SIGNIFICAND_LIMIT && rounded(b) == #[trigger] (significand * pow2(power));
    rounded_is_nearest(a, high, high_power);
    rounded_is_nearest(b, low, low_power);
}

proof fn rounding_a_double(p: nat)
    ensures
        rounded(2 * p) == 2 * rounded(p),
{
    if p < SIGNIFICAND_LIMIT {
        lemma2_to64();
        rounded_is_nearest(2 * p, p, 1);
        assert(p * pow2(1) == 2 * p);
        small_numbers_are_kept(p);
    } else {
        let unit = spacing(p);
        assert((2 * p) / 2 == p);
        assert(excess(2 * p) == 1 + excess(p));
        lemma_pow2_unfold(excess(2 * p));
        lemma_pow2_pos(excess(p));
        assert(spacing(2 * p) == 2 * unit);
        lemma_div_denominator((2 * p) as int, 2, unit as int);
        let below = p / unit;
        let rest = p % unit;
        assert((2 * p) / (2 * unit) == below);
        lemma_fundamental_div_mod((2 * p) as int, (2 * unit) as int);
        lemma_fundamental_div_mod(p as int, unit as int);
        let double_rest = (2 * p) % (2 * unit);
        assert(double_rest == 2 * rest) by (nonlinear_arith)
            requires
                2 * p == (2 * unit) * below + double_rest,
                p == unit * below + rest,
        ;
        assert((below + 1) * (2 * unit) == 2 * ((below + 1) * unit)) by (nonlinear_arith);
        assert(below * (2 * unit) == 2 * (below * unit)) by (nonlinear_arith);
    }
}

/// Rounding does not depend on the power of two that a number is scaled by.
pub proof fn rounding_is_scale_free(p: nat, power: nat)
    ensures
        rounded(p * pow2(power)) == rounded(p) * pow2(power),
    decreases power,
{
    if power == 0 {
        lemma2_to64();
        assert(p * 1 == p && rounded(p) * 1 == rounded(p));
    } else {
        let half = pow2((power - 1) as nat);
        lemma_pow2_unfold(power);
        rounding_is_scale_free(p, (power - 1) as nat);
        rounding_a_double(p * half);
        assert(p * pow2(power) == 2 * (p * half)) by (nonlinear_arith)
            requires
                pow2(power) == 2 * half,
        ;
        assert(rounded(p) * pow2(power) == 2 * (rounded(p) * half)) by (nonlinear_arith)
            requires
                pow2(power) == 2 * half,
        ;
    }
}

/// A number that does not exceed the whole number `n` gives no product above that of `n`.
pub proof fn products_stay_below(x: Binary64, n: nat, factor: nat)
    requires
        !x.magnitude_exceeds(n),
    ensures
        x.whole_product(factor) <= rounded(n * factor),
{
    let product = x.significand() * factor;
    let bound = n * factor;
    if x.power() >= 0 {
        let scale = pow2(x.power() as nat);
        assert(product * scale <= bound) by (nonlinear_arith)
            requires
                product == x.significand() * factor,
                x.significand() * scale <= n,
                bound == n * factor,
        ;
        rounding_is_monotone(product * scale, bound);
        rounding_is_scale_free(product, x.power() as nat);
    } else {
        let scale = pow2((-x.power()) as nat);
        lemma_pow2_pos((-x.power()) as nat);
        assert(product <= bound * scale) by (nonlinear_arith)
            requires
                product == x.significand() * factor,
                x.significand() <= n * scale,
                bound == n * factor,
        ;
        rounding_is_monotone(product, bound * scale);
        rounding_is_scale_free(bound, (-x.power()) as nat);
        assert(rounded(product) / scale <= rounded(bound)) by (nonlinear_arith)
            requires
                rounded(product) <= rounded(bound) * scale,
                scale > 0,
        ;
    }
}

impl Binary64 {
    /// The whole number that a count becomes when it is converted to binary64.
    pub fn round_count(count: u64) -> (res: u128)
        ensures
            res == rounded(count as nat),
            res <= 0x1_0000_0000_0000_0000,
    {
        proof {
            two_to_127();
            rounded_is_nearest(count as nat, 1, 64);
        }
        round(count as u128)
    }
}

/// The bits of a number below its sign count the binary64 numbers up to its magnitude: they
/// are the significand, and one more run of significands for each step of the power. The
/// significand is as large as 53 bits allow, except where the power is the least one.
pub proof fn bits_count_numbers(x: Binary64)
    ensures
        x.negative() <==> x.bits >= 0x8000_0000_0000_0000,
        x.bits == (x.power() + 1074) * 0x10_0000_0000_0000 + x.significand() + if x.bits
            >= 0x8000_0000_0000_0000 {
            0x8000_0000_0000_0000int
        } else {
            0
        },
        x.significand() < 0x20_0000_0000_0000,
        x.significand() >= 0x10_0000_0000_0000 || x.power() == -1074,
        -1074 <= x.power() <= 972,
{
    significand_bound(x);
}

/// Numbers are told apart by their bits: those above zero come first, then plus infinity, then
/// what is no number, and then the same once more with the other sign.
pub proof fn kinds_of_numbers(x: Binary64)
    ensures
        x.finite_and_positive() <==> 0 < x.bits < 0x7ff0_0000_0000_0000,
        x.finite() <==> x.bits < 0x7ff0_0000_0000_0000 || 0x8000_0000_0000_0000 <= x.bits
            < 0xfff0_0000_0000_0000,
        x.infinite() <==> x.bits == 0x7ff0_0000_0000_0000 || x.bits == 0xfff0_0000_0000_0000,
        x.nan() <==> 0x7ff0_0000_0000_0000 < x.bits < 0x8000_0000_0000_0000 || x.bits
            > 0xfff0_0000_0000_0000,
        x.at_most_zero() <==> x.bits == 0 || 0x8000_0000_0000_0000 <= x.bits
            <= 0xfff0_0000_0000_0000,
{
}

/// The whole number is a binary64 number.
pub open spec fn representable(n: nat) -> bool {
    exists|significand: nat, power: nat|
        significand < 0x20_0000_0000_0000 && n == #[trigger] (significand * pow2(power))
}

/// `other` is not nearer to `p` than `n` is, and if it is as near, `n` is a multiple of twice
/// the gap between them, and so the even one.
pub open spec fn preferred(n: nat, other: nat, p: nat) -> bool {
    let near = if n < p {
        p - n
    } else {
        n - p
    };
    let far = if other < p {
        p - other
    } else {
        other - p
    };
    let gap = if n < other {
        other - n
    } else {
        n - other
    };
    near < far || n == other || (near == far && n as int % (2 * gap) == 0)
}

/// `n` is what binary64 arithmetic makes of the whole number `p`: the nearest binary64 number,
/// and from halfway the even one.
pub open spec fn nearest_to(n: nat, p: nat) -> bool {
    &&& representable(n)
    &&& forall|significand: nat, power: nat|
        significand < 0x20_0000_0000_0000 ==> preferred(
            n,
            #[trigger] (significand * pow2(power)),
            p,
        )
}

/// Rounding gives the nearest binary64 number, and from halfway the even one.
pub proof fn rounding_prefers_near_and_even(p: nat)
    ensures
        nearest_to(rounded(p), p),
{
    rounded_is_binary64(p);
    assert forall|significand: nat, power: nat| significand < 0x20_0000_0000_0000 implies preferred(
        rounded(p),
        #[trigger] (significand * pow2(power)),
        p,
    ) by {
        rounding_prefers(p, significand, power);
    }
}

proof fn rounding_prefers(p: nat, significand: nat, power: nat)
    requires
        significand < SIGNIFICAND_LIMIT,
    ensures
        preferred(rounded(p), significand * pow2(power), p),
{
    let other = significand * pow2(power);
    let n = rounded(p);
    rounded_is_nearest(p, significand, power);
    if excess(p) == 0 {
        small_numbers_are_kept(p);
    } else if n != other && distance(n, p) == distance(other, p) {
        let unit = spacing(p);
        let below = p / unit;
        let rest = p % unit;
        spacing_bound(p);
        lemma_fundamental_div_mod(p as int, unit as int);
        assert(p == below * unit + rest && rest < unit) by (nonlinear_arith)
            requires
                p == unit * below + rest,
                rest == p % unit,
                unit > 0,
        ;
        assert((below + 1) * unit == below * unit + unit) by (nonlinear_arith);
        none_in_between(p, significand, power);
        assert(2 * rest == unit);
        let gap = unit as int;
        let even: nat = if below % 2 == 0 {
            below
        } else {
            below + 1
        };
        assert(n == even * unit);
        assert(n as int % (2 * gap) == 0) by {
            let half = even as int / 2;
            assert(n == half * (2 * gap)) by (nonlinear_arith)
                requires
                    n == even * gap,
                    even == 2 * half,
            ;
            assert((half * (2 * gap)) % (2 * gap) == 0) by (nonlinear_arith)
                requires
                    gap > 0,
            ;
        }
    }
}

proof fn none_in_between(p: nat, significand: nat, power: nat)
    requires
        significand < SIGNIFICAND_LIMIT,
        excess(p) > 0,
    ensures
        ({
            let other = significand * pow2(power);
            let below = p / spacing(p);
            other <= below * spacing(p) || other >= (below + 1) * spacing(p)
        }),
{
    let unit = spacing(p);
    let below = p / unit;
    let other = significand * pow2(power);
    spacing_bound(p);
    if power >= excess(p) {
        let extra = pow2((power - excess(p)) as nat);
        lemma_pow2_adds(excess(p), (power - excess(p)) as nat);
        let steps = significand * extra;
        assert(other == steps * unit) by (nonlinear_arith)
            requires
                other == significand * (unit * extra),
                steps == significand * extra,
        ;
        if steps <= below {
            assert(steps * unit <= below * unit) by (nonlinear_arith)
                requires
                    steps <= below,
            ;
        } else {
            assert(steps * unit >= (below + 1) * unit) by (nonlinear_arith)
                requires
                    steps >= below + 1,
            ;
        }
    } else {
        let low = pow2(power);
        pow2_grows(power + 1, excess(p));
        lemma_pow2_unfold(power + 1);
        assert(other <= FRACTION_LIMIT * unit) by (nonlinear_arith)
            requires
                other == significand * low,
                significand <= 2 * FRACTION_LIMIT,
                2 * low <= unit,
        ;
        assert(FRACTION_LIMIT * unit <= below * unit) by (nonlinear_arith)
            requires
                below >= FRACTION_LIMIT,
        ;
    }
}

/// `whole` is the whole part of `n` times two to the power of `power`, or the largest 64-bit
/// number where that is larger.
pub open spec fn is_whole_part(whole: nat, n: nat, power: int) -> bool {
    if power >= 0 {
        let value = n * pow2(power as nat);
        whole == if value > 0xffff_ffff_ffff_ffff {
            0xffff_ffff_ffff_ffff
        } else {
            value
        }
    } else {
        let scale = pow2((-power) as nat);
        &&& whole <= 0xffff_ffff_ffff_ffff
        &&& whole * scale <= n
        &&& whole < 0xffff_ffff_ffff_ffff ==> n < (whole + 1) * scale
    }
}

/// A product is the whole part of the exact product, rounded as binary64 arithmetic does.
pub proof fn products_are_rounded_once(x: Binary64, factor: nat)
    ensures
        exists|n: nat| #[trigger]
            nearest_to(n, x.significand() * factor) && is_whole_part(
                x.whole_product(factor),
                n,
                x.power(),
            ),
{
    let product = x.significand() * factor;
    let n = rounded(product);
    rounding_prefers_near_and_even(product);
    if x.power() < 0 {
        let scale = pow2((-x.power()) as nat);
        lemma_pow2_pos((-x.power()) as nat);
        let whole = n / scale;
        let rest = n % scale;
        lemma_fundamental_div_mod(n as int, scale as int);
        assert(whole * scale <= n < (whole + 1) * scale) by (nonlinear_arith)
            requires
                n == scale * whole + rest,
                rest < scale,
        ;
        if whole > u64::MAX {
            assert(u64::MAX as nat * scale <= n) by (nonlinear_arith)
                requires
                    whole * scale <= n,
                    whole > u64::MAX as nat,
            ;
        }
    }
    assert(nearest_to(n, product) && is_whole_part(x.whole_product(factor), n, x.power()));
}

/// A number exceeds a whole number exactly if its magnitude is greater.
pub proof fn magnitudes_are_compared(x: Binary64, n: nat)
    ensures
        x.power() >= 0 ==> (x.magnitude_exceeds(n) <==> x.significand() * pow2(x.power() as nat)
            > n),
        x.power() < 0 ==> (x.magnitude_exceeds(n) <==> x.significand() > n * pow2(
            (-x.power()) as nat,
        )),
        x.power() >= 0 ==> (x.stands_for(n) <==> x.significand() * pow2(x.power() as nat) == n),
        x.power() < 0 ==> (x.stands_for(n) <==> x.significand() == n * pow2((-x.power()) as nat)),
{
}

} // verus!
