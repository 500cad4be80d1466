//! IEEE 754 binary64 numbers, held as bit patterns.
//!
//! The beam code only ever compares its real inputs, picks one of them or hands them on, so a bit
//! pattern is all that it needs. What a pattern stands for is [`Double::value`].

use vstd::arithmetic::power2::{lemma_pow2_pos, lemma_pow2_unfold, pow2};
use vstd::prelude::*;

verus! {

/// The weight of the sign in a bit pattern.
pub const SIGN: u64 = 0x8000_0000_0000_0000;

/// The pattern of positive infinity. Larger magnitudes are not numbers.
pub const INFINITE: u64 = 0x7ff0_0000_0000_0000;

/// The number of patterns that share an exponent.
pub const BINADE: u64 = 0x0010_0000_0000_0000;

/// A binary64 number. Two of these are equal when their bits are.
#[derive(Clone, Copy, Debug, PartialEq, Eq, Structural)]
pub struct Double {
    pub bits: u64,
}

/// The pattern of the binary64 number nearest to half of pi: the zenith angle of the horizon, in
/// radians.
pub const FRAC_PI_2: u64 = 0x3ff9_21fb_5444_2d18;

/// What the magnitude `m` (a pattern without its sign) stands for, in units of the smallest
/// positive number. Infinity counts as the next number after the largest finite one.
pub open spec fn magnitude_value(m: nat) -> nat {
    let exponent = m / (BINADE as nat);
    let fraction = m % (BINADE as nat);
    if exponent == 0 {
        fraction
    } else {
        (BINADE as nat + fraction) * pow2((exponent - 1) as nat)
    }
}

impl Double {
    /// The pattern without its sign.
    pub open spec fn magnitude(self) -> nat {
        if self.bits >= SIGN {
            (self.bits - SIGN) as nat
        } else {
            self.bits as nat
        }
    }

    /// Is this not a number?
    pub open spec fn is_nan(self) -> bool {
        self.magnitude() > INFINITE
    }

    /// The number itself, in units of the smallest positive number (a two to the power of minus
    /// 1074). Both zeros are 0.
    pub open spec fn value(self) -> int {
        if self.bits >= SIGN {
            -(magnitude_value(self.magnitude()) as int)
        } else {
            magnitude_value(self.magnitude()) as int
        }
    }

    /// Is this number above `other`? Nothing is above, or below, what is not a number.
    pub open spec fn exceeds(self, other: Double) -> bool {
        !self.is_nan() && !other.is_nan() && self.value() > other.value()
    }

    /// The smaller of two numbers. What is not a number gives way to the other; of two equal
    /// numbers it is the first.
    pub open spec fn smaller(self, other: Double) -> Double {
        if self.is_nan() || self.exceeds(other) {
            other
        } else {
            self
        }
    }

    /// Is the absolute value of this number below `limit`?
    pub open spec fn is_within(self, limit: Double) -> bool {
        !self.is_nan() && !limit.is_nan() && magnitude_value(self.magnitude()) < limit.value()
    }

    /// The pattern without its sign.
    pub fn get_magnitude(self) -> (m: u64)
        ensures
            m == self.magnitude(),
            m < SIGN,
    {
        if self.bits >= SIGN {
            self.bits - SIGN
        } else {
            self.bits
        }
    }

    /// Is this number above `other`?
    pub fn gt(self, other: Double) -> (r: bool)
        ensures
            r == self.exceeds(other),
    {
        let a = self.get_magnitude();
        let b = other.get_magnitude();
        proof {
            lemma_magnitude_order(a as nat, b as nat);
            lemma_magnitude_order(0, a as nat);
            lemma_magnitude_order(0, b as nat);
        }
        if a > INFINITE || b > INFINITE {
            return false;
        }
        if self.bits < SIGN {
            if other.bits < SIGN {
                a > b
            } else {
                a > 0 || b > 0
            }
        } else {
            if other.bits < SIGN {
                false
            } else {
                a < b
            }
        }
    }

    /// The smaller of two numbers.
    pub fn min(self, other: Double) -> (r: Double)
        ensures
            r == self.smaller(other),
    {
        if self.get_magnitude() > INFINITE || self.gt(other) {
            other
        } else {
            self
        }
    }

    /// Is the absolute value of this number below `limit`?
    pub fn within(self, limit: Double) -> (r: bool)
        ensures
            r == self.is_within(limit),
    {
        let unsigned = Double { bits: self.get_magnitude() };
        limit.gt(unsigned)
    }
}

/// A larger magnitude stands for a larger number.
pub proof fn lemma_magnitude_order(a: nat, b: nat)
    ensures
        a < b ==> magnitude_value(a) < magnitude_value(b),
        a > b ==> magnitude_value(a) > magnitude_value(b),
        magnitude_value(0) == 0,
{
    if a < b {
        lemma_magnitude_increases(a, b);
    }
    if a > b {
        lemma_magnitude_increases(b, a);
    }
}

proof fn lemma_magnitude_increases(a: nat, b: nat)
    requires
        a < b,
    ensures
        magnitude_value(a) < magnitude_value(b),
    decreases b,
{
    let c = (b - 1) as nat;
    lemma_magnitude_step(c);
    if a < c {
        lemma_magnitude_increases(a, c);
    }
}

proof fn lemma_magnitude_step(m: nat)
    ensures
        magnitude_value(m) < magnitude_value(m + 1),
{
    let unit = BINADE as nat;
    let e = m / unit;
    let f = m % unit;
    if f + 1 < unit {
        assert((m + 1) / unit == e && (m + 1) % unit == f + 1);
        if e > 0 {
            let p = pow2((e - 1) as nat);
            lemma_pow2_pos((e - 1) as nat);
            assert((unit + f) * p < (unit + (f + 1)) * p) by (nonlinear_arith)
                requires
                    p > 0,
            ;
        }
    } else {
        assert((m + 1) / unit == e + 1 && (m + 1) % unit == 0);
        let q = pow2(e);
        lemma_pow2_pos(e);
        if e > 0 {
            let p = pow2((e - 1) as nat);
            lemma_pow2_unfold(e);
            assert((unit + f) * p < (unit + 0) * q) by (nonlinear_arith)
                requires
                    f < unit,
                    p > 0,
                    q == 2 * p,
                    f + 1 >= unit,
            ;
        } else {
            assert(unit * q >= unit) by (nonlinear_arith)
                requires
                    q >= 1,
            ;
        }
    }
}

/// What patterns stand for: the smallest ones are numbers in units of the smallest positive number,
/// a step of the exponent doubles, and the sign negates. What lies beyond infinity is no number.
pub proof fn law_patterns_stand_for_numbers(d: Double)
    ensures
        d.bits <= 2 * BINADE ==> d.value() == d.bits,
        BINADE <= d.bits && d.bits + BINADE <= INFINITE ==> (Double {
            bits: (d.bits + BINADE) as u64,
        }).value() == 2 * d.value(),
        d.bits >= SIGN ==> d.value() == -(Double { bits: (d.bits - SIGN) as u64 }).value(),
        d.is_nan() <==> INFINITE < d.bits < SIGN || d.bits > SIGN + INFINITE,
{
    if d.bits <= 2 * BINADE {
        lemma_small_patterns(d.bits as nat);
    }
    if BINADE <= d.bits && d.bits + BINADE <= INFINITE {
        lemma_next_binade(d.bits as nat);
    }
}

proof fn lemma_small_patterns(m: nat)
    requires
        m <= 2 * BINADE,
    ensures
        magnitude_value(m) == m,
{
    let unit = BINADE as nat;
    vstd::arithmetic::power2::lemma2_to64();
    let f = m % unit;
    if m == 2 * unit {
        assert(m / unit == 2 && f == 0);
        assert(pow2(1) == 2);
        assert(magnitude_value(m) == (unit + 0) * 2);
    } else if m >= unit {
        assert(m / unit == 1 && f == m - unit);
        assert(pow2(0) == 1);
        assert(magnitude_value(m) == (unit + f) * 1);
        assert((unit + f) * 1 == m);
    } else {
        assert(m / unit == 0 && f == m);
    }
}

proof fn lemma_next_binade(m: nat)
    requires
        BINADE <= m,
    ensures
        magnitude_value(m + BINADE as nat) == 2 * magnitude_value(m),
{
    let unit = BINADE as nat;
    let e = m / unit;
    let f = m % unit;
    assert(e > 0);
    assert((m + unit) / unit == e + 1 && (m + unit) % unit == f);
    lemma_pow2_unfold(e);
    let p = pow2((e - 1) as nat);
    assert(magnitude_value(m + unit) == (unit + f) * pow2(e));
    assert((unit + f) * (2 * p) == 2 * ((unit + f) * p)) by (nonlinear_arith);
}

/// Of two numbers one is above the other or they are equal, and being above carries over. What is
/// not a number is neither above nor below anything.
pub proof fn law_numbers_are_ordered(
    a: Double,
    b: Double,
    c: Double,
    ab: bool,
    ba: bool,
    bc: bool,
    ac: bool,
)
    requires
        call_ensures(Double::gt, (a, b), ab),
        call_ensures(Double::gt, (b, a), ba),
        call_ensures(Double::gt, (b, c), bc),
        call_ensures(Double::gt, (a, c), ac),
    ensures
        !(ab && ba),
        ab && bc ==> ac,
        a.is_nan() || b.is_nan() ==> !ab && !ba,
        !a.is_nan() && !b.is_nan() ==> (ab <==> a.value() > b.value()) && (!ab && !ba <==> a.value()
            == b.value()),
{
}

/// The smaller of two numbers is one of them, and neither is below it. What is not a number gives
/// way.
pub proof fn law_smaller_is_below_neither(a: Double, b: Double, r: Double)
    requires
        call_ensures(Double::min, (a, b), r),
    ensures
        r == a || r == b,
        a.is_nan() ==> r == b,
        b.is_nan() && !a.is_nan() ==> r == a,
        !a.is_nan() && !b.is_nan() ==> r.value() <= a.value() && r.value() <= b.value() && (a.value()
            == b.value() ==> r == a),
{
}

/// A number is within a limit where it lies below the limit and above its negative.
pub proof fn law_within_is_between(d: Double, limit: Double, r: bool, magnitude: u64)
    requires
        call_ensures(Double::within, (d, limit), r),
        call_ensures(Double::get_magnitude, (d,), magnitude),
    ensures
        r <==> !d.is_nan() && !limit.is_nan() && -limit.value() < d.value() < limit.value(),
        magnitude < SIGN,
        magnitude == d.bits || magnitude + SIGN == d.bits,
{
}

} // verus!
