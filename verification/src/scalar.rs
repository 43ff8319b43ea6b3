//! Fixed-point numbers with six decimal places and saturating arithmetic.
//!
//! Every operation is total: a result that does not fit is replaced by the
//! nearest value that does, so no computation built from these can overflow.
use vstd::prelude::*;

verus! {

/// Raw units in one whole unit.
pub const UNIT: i64 = 1_000_000;

/// The representable raw value nearest to `v`.
pub open spec fn saturate(v: int) -> int {
    if v < i64::MIN {
        i64::MIN as int
    } else if v > i64::MAX {
        i64::MAX as int
    } else {
        v
    }
}

/// The quotient of `n` by a positive `d`, rounded toward zero.
pub open spec fn quotient_toward_zero(n: int, d: int) -> int {
    if n >= 0 {
        n / d
    } else {
        -((-n) / d)
    }
}

/// A number held as a count of millionths.
#[derive(Clone, Copy, Debug, PartialEq, Eq, PartialOrd, Ord, Hash, Structural)]
pub struct Scalar {
    pub raw: i64,
}

impl View for Scalar {
    type V = int;

    open spec fn view(&self) -> int {
        self.raw as int
    }
}

/// The 64-bit value nearest to `v`.
fn narrow(v: i128) -> (r: i64)
    ensures
        r as int == saturate(v as int),
{
    if v < i64::MIN as i128 {
        i64::MIN
    } else if v > i64::MAX as i128 {
        i64::MAX
    } else {
        v as i64
    }
}

impl Scalar {
    /// The scalar whose raw value is `saturate(v)`.
    pub open spec fn of(v: int) -> Scalar {
        Scalar { raw: saturate(v) as i64 }
    }

    /// The number of `raw` millionths.
    pub fn from_raw(raw: i64) -> (r: Scalar)
        ensures
            r.raw == raw,
    {
        Scalar { raw }
    }

    /// The whole number `n`.
    pub fn from_int(n: i32) -> (r: Scalar)
        ensures
            r@ == n * UNIT,
    {
        Scalar { raw: n as i64 * UNIT }
    }

    /// The number of `n` thousandths.
    pub fn from_millis(n: i32) -> (r: Scalar)
        ensures
            r@ == n * 1000,
    {
        Scalar { raw: n as i64 * 1000 }
    }

    /// Zero.
    pub fn zero() -> (r: Scalar)
        ensures
            r@ == 0,
    {
        Scalar { raw: 0 }
    }

    /// One.
    pub fn one() -> (r: Scalar)
        ensures
            r@ == UNIT,
    {
        Scalar { raw: UNIT }
    }

    /// The saturated sum.
    pub open spec fn plus(self, rhs: Scalar) -> Scalar {
        Scalar::of(self.raw + rhs.raw)
    }

    /// The saturated difference.
    pub open spec fn minus(self, rhs: Scalar) -> Scalar {
        Scalar::of(self.raw - rhs.raw)
    }

    /// The saturated product, rounded toward zero to a millionth.
    pub open spec fn times(self, rhs: Scalar) -> Scalar {
        Scalar::of(quotient_toward_zero(self.raw * rhs.raw, UNIT as int))
    }

    /// The saturated negation.
    pub open spec fn negated(self) -> Scalar {
        Scalar::of(-self.raw)
    }

    /// The whole number next to this one on the side of zero.
    pub open spec fn whole_part(self) -> int {
        quotient_toward_zero(self.raw as int, UNIT as int)
    }

    /// The nearest whole number; a number halfway between two goes away
    /// from zero.
    pub open spec fn nearest_whole(self) -> int {
        if self.raw >= 0 {
            (self.raw + 500_000) / (UNIT as int)
        } else {
            -((500_000 - self.raw) / (UNIT as int))
        }
    }

    /// The whole part.
    pub fn trunc(self) -> (r: i64)
        ensures
            r == self.whole_part(),
    {
        self.raw / UNIT
    }

    /// The nearest whole number.
    pub fn round(self) -> (r: i64)
        ensures
            r == self.nearest_whole(),
    {
        if self.raw >= 0 {
            ((self.raw as i128 + 500_000) / (UNIT as i128)) as i64
        } else {
            (-((500_000 - self.raw as i128) / (UNIT as i128))) as i64
        }
    }

    /// The saturated magnitude.
    pub open spec fn abs_spec(self) -> Scalar {
        Scalar::of(if self.raw < 0 { -self.raw } else { self.raw as int })
    }

    /// The magnitude; that of the least value saturates.
    pub fn abs(self) -> (r: Scalar)
        ensures
            r == self.abs_spec(),
    {
        if self.raw < 0 {
            Scalar { raw: narrow(-(self.raw as i128)) }
        } else {
            self
        }
    }

    /// The greater of the two.
    pub open spec fn max_spec(self, other: Scalar) -> Scalar {
        if self.raw >= other.raw {
            self
        } else {
            other
        }
    }

    /// The greater of the two.
    pub fn max(self, other: Scalar) -> (r: Scalar)
        ensures
            r == self.max_spec(other),
    {
        if self.raw >= other.raw {
            self
        } else {
            other
        }
    }

    /// The lesser of the two.
    pub open spec fn min_spec(self, other: Scalar) -> Scalar {
        if self.raw <= other.raw {
            self
        } else {
            other
        }
    }

    /// The lesser of the two.
    pub fn min(self, other: Scalar) -> (r: Scalar)
        ensures
            r == self.min_spec(other),
    {
        if self.raw <= other.raw {
            self
        } else {
            other
        }
    }

    /// The sum, saturated.
    pub fn add(self, rhs: Scalar) -> (r: Scalar)
        ensures
            r == self.plus(rhs),
    {
        Scalar { raw: narrow(self.raw as i128 + rhs.raw as i128) }
    }

    /// The difference, saturated.
    pub fn sub(self, rhs: Scalar) -> (r: Scalar)
        ensures
            r == self.minus(rhs),
    {
        Scalar { raw: narrow(self.raw as i128 - rhs.raw as i128) }
    }

    /// The product, rounded toward zero to a millionth and saturated.
    pub fn mul(self, rhs: Scalar) -> (r: Scalar)
        ensures
            r == self.times(rhs),
    {
        proof {
            lemma_product_fits(self.raw as int, rhs.raw as int);
        }
        let product: i128 = self.raw as i128 * rhs.raw as i128;
        Scalar { raw: narrow(product / (UNIT as i128)) }
    }

    /// The negation, saturated: that of the least value is the greatest.
    pub fn neg(self) -> (r: Scalar)
        ensures
            r == self.negated(),
    {
        Scalar { raw: narrow(-(self.raw as i128)) }
    }
}

/// A product that comes to a whole number of millionths, and fits, is
/// exact.
pub proof fn lemma_times_exact(a: Scalar, b: Scalar, raw: int)
    requires
        a.raw * b.raw == raw * UNIT,
        i64::MIN <= raw <= i64::MAX,
    ensures
        a.times(b).raw == raw,
{
    let unit = UNIT as int;
    assert((raw * unit) / unit == raw) by (nonlinear_arith)
        requires
            unit > 0,
    ;
    assert((-(raw * unit)) / unit == -raw) by (nonlinear_arith)
        requires
            unit > 0,
    ;
}

/// The product of two 64-bit values fits in 128 bits.
proof fn lemma_product_fits(a: int, b: int)
    requires
        i64::MIN <= a <= i64::MAX,
        i64::MIN <= b <= i64::MAX,
    ensures
        i128::MIN <= a * b <= i128::MAX,
{
    let m: int = 0x8000_0000_0000_0000;
    assert(-m * m <= a * b <= m * m) by (nonlinear_arith)
        requires
            -m <= a <= m,
            -m <= b <= m,
    ;
    assert(m * m == 0x4000_0000_0000_0000_0000_0000_0000_0000) by (nonlinear_arith)
        requires
            m == 0x8000_0000_0000_0000,
    ;
}

} // verus!
