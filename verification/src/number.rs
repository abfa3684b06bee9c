//! Double-precision numbers, held by their bits.

use vstd::prelude::*;

verus! {

/// The bit that makes a number negative.
pub const SIGN: u64 = 0x8000_0000_0000_0000;

/// The bits of positive infinity. A larger magnitude is not a number.
pub const INFINITY: u64 = 0x7ff0_0000_0000_0000;

/// The first significand that fills all its bits.
pub const FULL: u64 = 0x10_0000_0000_0000;

/// An IEEE 754 double-precision number.
#[derive(Clone, Copy, Debug)]
pub struct Number {
    pub bits: u64,
}

impl Number {
    /// A number without its sign.
    pub open spec fn magnitude(self) -> int {
        if self.bits < SIGN {
            self.bits as int
        } else {
            self.bits - SIGN
        }
    }

    /// Whether this is one of the patterns that stand for no number.
    pub open spec fn is_nan(self) -> bool {
        self.magnitude() > INFINITY
    }

    /// Where a number stands among the others. Numbers order as their ranks do,
    /// and the two zeros share one.
    pub open spec fn rank(self) -> int {
        if self.bits < SIGN {
            self.magnitude()
        } else {
            -self.magnitude()
        }
    }

    /// Whether this is at least the other number.
    pub open spec fn ge(self, other: Number) -> bool {
        !self.is_nan() && !other.is_nan() && self.rank() >= other.rank()
    }

    /// Whether this is above the other number.
    pub open spec fn gt(self, other: Number) -> bool {
        !self.is_nan() && !other.is_nan() && self.rank() > other.rank()
    }

    /// Whether the two are the same number.
    pub open spec fn equals(self, other: Number) -> bool {
        !self.is_nan() && !other.is_nan() && self.rank() == other.rank()
    }

    fn unsigned(&self) -> (r: u64)
        ensures
            r == self.magnitude(),
    {
        if self.bits < SIGN {
            self.bits
        } else {
            self.bits - SIGN
        }
    }

    fn place(&self) -> (r: i128)
        ensures
            r == self.rank(),
    {
        if self.bits < SIGN {
            self.unsigned() as i128
        } else {
            -(self.unsigned() as i128)
        }
    }

    /// Whether this is at least the other number.
    pub fn at_least(&self, other: &Number) -> (r: bool)
        ensures
            r == self.ge(*other),
    {
        self.unsigned() <= INFINITY && other.unsigned() <= INFINITY && self.place()
            >= other.place()
    }

    /// Whether this is above the other number.
    pub fn above(&self, other: &Number) -> (r: bool)
        ensures
            r == self.gt(*other),
    {
        self.unsigned() <= INFINITY && other.unsigned() <= INFINITY && self.place() > other.place()
    }

    /// Whether the two are the same number.
    pub fn same(&self, other: &Number) -> (r: bool)
        ensures
            r == self.equals(*other),
    {
        self.unsigned() <= INFINITY && other.unsigned() <= INFINITY && self.place()
            == other.place()
    }

    /// The number an integer is. Every integer of less than 54 bits has one.
    pub fn from_integer(n: i64) -> (r: Number)
        requires
            -2 * FULL < n < 2 * FULL,
        ensures
            r == integer(n as int),
    {
        if n == 0 {
            return Number { bits: 0 };
        }
        let size: u64 = if n < 0 {
            (-(n as i128)) as u64
        } else {
            n as u64
        };
        let mut significand: u64 = size;
        let mut exponent: u64 = 1075;
        proof {
            normal_bits_bounded(size as int, 1075);
        }
        while significand < FULL
            invariant
                0 < significand < 2 * FULL,
                exponent <= 1075,
                normal_bits(significand as int, exponent as int) == normal_bits(size as int, 1075),
                normal_bits(size as int, 1075) >= 1023 * FULL,
            decreases 2 * FULL - significand,
        {
            proof {
                normal_bits_below(significand as int, exponent as int);
            }
            significand = significand * 2;
            exponent = exponent - 1;
        }
        let bits: u64 = exponent * FULL + (significand - FULL);
        if n < 0 {
            Number { bits: SIGN + bits }
        } else {
            Number { bits }
        }
    }
}

/// A number doubled a number of times.
spec fn shifted(n: int, times: nat) -> int
    decreases times,
{
    if times == 0 {
        n
    } else {
        2 * shifted(n, (times - 1) as nat)
    }
}

impl PartialEq for Number {
    fn eq(&self, other: &Self) -> (r: bool) {
        self.same(other)
    }
}

impl vstd::std_specs::cmp::PartialEqSpecImpl for Number {
    open spec fn obeys_eq_spec() -> bool {
        true
    }

    open spec fn eq_spec(&self, other: &Self) -> bool {
        self.equals(*other)
    }
}

proof fn shifted_doubles(times: nat)
    ensures
        shifted(1, times + 1) == 2 * shifted(1, times),
        shifted(1, times) > 0,
    decreases times,
{
    if times > 0 {
        shifted_doubles((times - 1) as nat);
    }
}

/// The bits of the positive number `significand * 2^(exponent - 1075)`: the
/// significand is doubled until its leading bit is the one that is not written,
/// and the exponent gives up one each time.
pub open spec fn normal_bits(significand: int, exponent: int) -> int
    decreases 2 * FULL - significand,
{
    if significand <= 0 {
        0
    } else if significand >= FULL {
        exponent * FULL + (significand - FULL)
    } else {
        normal_bits(2 * significand, exponent - 1)
    }
}

/// The number an integer is.
pub open spec fn integer(n: int) -> Number {
    if n == 0 {
        Number { bits: 0 }
    } else if n > 0 {
        Number { bits: normal_bits(n, 1075) as u64 }
    } else {
        Number { bits: (SIGN + normal_bits(-n, 1075)) as u64 }
    }
}

proof fn normal_bits_below(significand: int, exponent: int)
    requires
        0 < significand < 2 * FULL,
    ensures
        normal_bits(significand, exponent) < (exponent + 1) * FULL,
    decreases 2 * FULL - significand,
{
    if significand < FULL {
        normal_bits_below(2 * significand, exponent - 1);
    }
}

proof fn normal_bits_bounded(significand: int, exponent: int)
    requires
        0 < significand < 2 * FULL,
    ensures
        (exponent - 52) * FULL <= normal_bits(significand, exponent) < (exponent + 1) * FULL,
{
    assert(shifted(1, 52) == FULL) by {
        reveal_with_fuel(shifted, 54);
    }
    normal_bits_at_least(significand, exponent, 1, 52);
    normal_bits_below(significand, exponent);
}

proof fn normal_bits_at_least(significand: int, exponent: int, least: int, left: nat)
    requires
        0 < least <= significand < 2 * FULL,
        least * shifted(1, left) == FULL,
    ensures
        normal_bits(significand, exponent) >= (exponent - left) * FULL,
    decreases left,
{
    if significand < FULL {
        if left == 0 {
            assert(least == FULL);
        } else {
            shifted_doubles((left - 1) as nat);
            assert(2 * least * shifted(1, (left - 1) as nat) == least * shifted(1, left))
                by (nonlinear_arith)
                requires
                    shifted(1, left) == 2 * shifted(1, (left - 1) as nat),
            ;
            normal_bits_at_least(2 * significand, exponent - 1, 2 * least, (left - 1) as nat);
        }
    }
}

proof fn normal_bits_keep_order(a: int, b: int, exponent: int)
    requires
        0 < a < b < 2 * FULL,
    ensures
        normal_bits(a, exponent) < normal_bits(b, exponent),
    decreases 2 * FULL - a,
{
    if b < FULL {
        normal_bits_keep_order(2 * a, 2 * b, exponent - 1);
    } else if a < FULL {
        normal_bits_below(2 * a, exponent - 1);
    }
}

/// Numbers order as the integers they stand for, and none of them is missing.
pub proof fn law_integers_keep_their_order(a: int, b: int)
    requires
        -2 * FULL < a < 2 * FULL,
        -2 * FULL < b < 2 * FULL,
    ensures
        integer(a).ge(integer(b)) == (a >= b),
        integer(a).gt(integer(b)) == (a > b),
        integer(a).equals(integer(b)) == (a == b),
{
    let x = if a < 0 { -a } else { a };
    let y = if b < 0 { -b } else { b };
    if x > 0 {
        normal_bits_bounded(x, 1075);
    }
    if y > 0 {
        normal_bits_bounded(y, 1075);
    }
    if 0 < x < y {
        normal_bits_keep_order(x, y, 1075);
    }
    if 0 < y < x {
        normal_bits_keep_order(y, x, 1075);
    }
}

proof fn normal_bits_scaled(significand: int, exponent: int, times: nat)
    requires
        0 < significand,
        times > 0 ==> significand * shifted(1, (times - 1) as nat) < FULL,
    ensures
        normal_bits(significand, exponent) == normal_bits(
            significand * shifted(1, times),
            exponent - times,
        ),
    decreases times,
{
    if times > 0 {
        let less = (times - 1) as nat;
        shifted_doubles(less);
        assert(significand * 1 <= significand * shifted(1, less)) by (nonlinear_arith)
            requires
                0 < significand,
                1 <= shifted(1, less),
        ;
        assert((2 * significand) * shifted(1, less) == significand * shifted(1, times))
            by (nonlinear_arith)
            requires
                shifted(1, times) == 2 * shifted(1, less),
        ;
        if less > 0 {
            shifted_doubles((less - 1) as nat);
            assert((2 * significand) * shifted(1, (less - 1) as nat) == significand * shifted(
                1,
                less,
            )) by (nonlinear_arith)
                requires
                    shifted(1, less) == 2 * shifted(1, (less - 1) as nat),
            ;
        }
        normal_bits_scaled(2 * significand, exponent - 1, less);
    } else {
        assert(significand * shifted(1, 0) == significand) by {
            assert(shifted(1, 0) == 1);
        }
    }
}

/// Two to some power.
pub open spec fn two_to(times: nat) -> int
    decreases times,
{
    if times == 0 {
        1
    } else {
        2 * two_to((times - 1) as nat)
    }
}

proof fn shifted_is_two_to(times: nat)
    ensures
        shifted(1, times) == two_to(times),
    decreases times,
{
    if times > 0 {
        shifted_is_two_to((times - 1) as nat);
    }
}

proof fn two_to_splits(a: nat, b: nat)
    ensures
        two_to(a + b) == two_to(a) * two_to(b),
        two_to(a) > 0,
    decreases a,
{
    if a > 0 {
        two_to_splits((a - 1) as nat, b);
        assert(two_to(a + b) == 2 * two_to((a - 1 + b) as nat));
        assert(2 * (two_to((a - 1) as nat) * two_to(b)) == (2 * two_to((a - 1) as nat)) * two_to(b))
            by (nonlinear_arith);
    } else {
        assert(two_to(0) * two_to(b) == two_to(b));
    }
}

proof fn two_to_is(power: nat)
    requires
        power <= 52,
    ensures
        two_to(power) > 0,
        two_to((52 - power) as nat) > 0,
        two_to(power) * two_to((52 - power) as nat) == FULL,
        two_to(power + 1) == 2 * two_to(power),
{
    assert(two_to(52) == FULL) by {
        reveal_with_fuel(two_to, 54);
    }
    two_to_splits(power, (52 - power) as nat);
    two_to_splits((52 - power) as nat, power);
}

proof fn scaled_is_full(n: int, power: nat) -> (scaled: int)
    requires
        power <= 52,
        two_to(power) <= n < two_to(power + 1),
    ensures
        scaled == n * two_to((52 - power) as nat),
        FULL <= scaled < 2 * FULL,
        0 < n <= scaled,
        power < 52 ==> n * two_to((51 - power) as nat) < FULL,
{
    two_to_is(power);
    let low = two_to(power);
    let up = two_to((52 - power) as nat);
    let scaled = n * up;
    assert(FULL <= scaled < 2 * FULL && 0 < n <= scaled) by (nonlinear_arith)
        requires
            low * up == FULL,
            0 < low <= n < 2 * low,
            0 < up,
            scaled == n * up,
    ;
    if power < 52 {
        let half = two_to((51 - power) as nat);
        assert(2 * (n * half) == scaled) by (nonlinear_arith)
            requires
                up == 2 * half,
                scaled == n * up,
        ;
    }
    scaled
}

/// An integer with `power` bits behind its leading one is held the way a
/// double-precision number is: the exponent is the power with 1023 added, and the
/// bits behind the leading one fill fifty-two from the left. A negative one has the
/// sign bit too.
pub proof fn law_an_integer_is_held_as_it_is(n: int, power: nat)
    requires
        power <= 52,
        two_to(power) <= n < two_to(power + 1),
    ensures
        integer(n).bits == (1023 + power) * 0x10_0000_0000_0000 + (n * two_to((52 - power) as nat)
            - 0x10_0000_0000_0000),
        integer(-n).bits == 0x8000_0000_0000_0000 + integer(n).bits,
        integer(0).bits == 0,
{
    let k = (52 - power) as nat;
    let scaled = scaled_is_full(n, power);
    shifted_is_two_to(k);
    if k > 0 {
        shifted_is_two_to((k - 1) as nat);
    }
    normal_bits_scaled(n, 1075, k);
    assert(normal_bits(scaled, 1075 - k) == (1075 - k) * FULL + (scaled - FULL));
    normal_bits_bounded(n, 1075);
}

/// Numbers without the sign bit order as their bits do, those with it the other
/// way round and below them, the two zeros are one number, and what stands for no
/// number is neither above, below nor the same as anything.
pub proof fn law_numbers_order_as_ieee_says(a: Number, b: Number)
    ensures
        a.bits <= 0x7ff0_0000_0000_0000 && b.bits <= 0x7ff0_0000_0000_0000 ==> {
            &&& a.ge(b) == (a.bits >= b.bits)
            &&& a.gt(b) == (a.bits > b.bits)
            &&& a.equals(b) == (a.bits == b.bits)
        },
        0x8000_0000_0000_0000 <= a.bits <= 0xfff0_0000_0000_0000 && 0x8000_0000_0000_0000 <= b.bits
            <= 0xfff0_0000_0000_0000 ==> {
            &&& a.ge(b) == (a.bits <= b.bits)
            &&& a.gt(b) == (a.bits < b.bits)
            &&& a.equals(b) == (a.bits == b.bits)
        },
        a.bits <= 0x7ff0_0000_0000_0000 && 0x8000_0000_0000_0000 < b.bits <= 0xfff0_0000_0000_0000
            ==> a.gt(b) && a.ge(b) && !b.ge(a) && !b.gt(a) && !a.equals(b),
        a.bits == 0 && b.bits == 0x8000_0000_0000_0000 ==> a.equals(b) && a.ge(b) && b.ge(a)
            && !a.gt(b) && !b.gt(a),
        (0x7ff0_0000_0000_0000 < a.bits < 0x8000_0000_0000_0000 || a.bits > 0xfff0_0000_0000_0000)
            ==> !a.ge(b) && !b.ge(a) && !a.gt(b) && !b.gt(a) && !a.equals(b) && !b.equals(a),
{
}

}
