//! A decimal fixed-point number: exact arithmetic for the trainer.
use vstd::prelude::*;
use crate::scalar::{
    additions_raise, annihilated, in_unit_interval, means_keep_nonneg, no_less,
    one_less_one_is_zero, products_keep_nonneg, shares_in_unit_interval, square, squares_nonneg,
    sums_keep_nonneg, zero, zero_annihilates, zero_is_neutral, zero_sum_is_zero, Scalar,
};

verus! {

/// How many units of [`Fixed::raw`] make one.
pub const SCALE: i64 = 1_000_000;

/// A signed number held as a count of millionths.
///
/// Sums and differences are exact. Products and quotients are rounded toward
/// zero to a whole number of millionths. Whatever falls outside the range of
/// `i64` millionths is replaced by the nearest end of that range. A quotient
/// by zero is zero.
#[derive(Clone, Copy, Debug, PartialEq, Eq)]
pub struct Fixed {
    /// The value in millionths.
    pub raw: i64,
}

/// `x`, or the end of the `i64` range nearest to it.
pub open spec fn saturate(x: int) -> i64 {
    if x > i64::MAX {
        i64::MAX
    } else if x < i64::MIN {
        i64::MIN
    } else {
        x as i64
    }
}

/// The quotient of `a` by `b`, rounded toward zero.
pub open spec fn toward_zero(a: int, b: int) -> int
    recommends
        b != 0,
{
    let size: int = (if a >= 0 { a } else { -a }) / (if b >= 0 { b } else { -b });
    if (a >= 0) == (b >= 0) {
        size
    } else {
        -size
    }
}

/// Brings a wide value back into the range of `i64`.
fn narrow(x: i128) -> (r: i64)
    ensures
        r == saturate(x as int),
{
    if x > i64::MAX as i128 {
        i64::MAX
    } else if x < i64::MIN as i128 {
        i64::MIN
    } else {
        x as i64
    }
}

/// Divides the size of `a` by the size of `b` and puts the sign back.
fn divide(a: i128, b: i128) -> (r: i128)
    requires
        b != 0,
        a > i128::MIN,
        b > i128::MIN,
    ensures
        r == toward_zero(a as int, b as int),
{
    let size_a: i128 = if a >= 0 { a } else { -a };
    let size_b: i128 = if b >= 0 { b } else { -b };
    let size: i128 = size_a / size_b;
    if (a >= 0) == (b >= 0) {
        size
    } else {
        -size
    }
}

impl Scalar for Fixed {
    open spec fn from_count_spec(n: usize) -> Self {
        Fixed { raw: saturate(n as int * SCALE as int) }
    }

    open spec fn plus_spec(self, rhs: Self) -> Self {
        Fixed { raw: saturate(self.raw as int + rhs.raw as int) }
    }

    open spec fn minus_spec(self, rhs: Self) -> Self {
        Fixed { raw: saturate(self.raw as int - rhs.raw as int) }
    }

    open spec fn times_spec(self, rhs: Self) -> Self {
        Fixed { raw: saturate(toward_zero(self.raw as int * rhs.raw as int, SCALE as int)) }
    }

    open spec fn over_spec(self, rhs: Self) -> Self {
        if rhs.raw == 0 {
            Fixed { raw: 0 }
        } else {
            Fixed { raw: saturate(toward_zero(self.raw as int * SCALE as int, rhs.raw as int)) }
        }
    }

    open spec fn nonneg_spec(self) -> bool {
        self.raw >= 0
    }

    fn from_count(n: usize) -> (r: Self) {
        let wide: i128 = (n as i128) * (SCALE as i128);
        Fixed { raw: narrow(wide) }
    }

    fn plus(self, rhs: Self) -> (r: Self) {
        Fixed { raw: narrow(self.raw as i128 + rhs.raw as i128) }
    }

    fn minus(self, rhs: Self) -> (r: Self) {
        Fixed { raw: narrow(self.raw as i128 - rhs.raw as i128) }
    }

    fn times(self, rhs: Self) -> (r: Self) {
        assert(-0x4000_0000_0000_0000_0000_0000_0000_0000 <= self.raw as int * rhs.raw as int
            <= 0x4000_0000_0000_0000_0000_0000_0000_0000) by (nonlinear_arith)
            requires
                -0x8000_0000_0000_0000 <= self.raw as int <= 0x8000_0000_0000_0000,
                -0x8000_0000_0000_0000 <= rhs.raw as int <= 0x8000_0000_0000_0000,
        ;
        let wide: i128 = (self.raw as i128) * (rhs.raw as i128);
        Fixed { raw: narrow(divide(wide, SCALE as i128)) }
    }

    fn over(self, rhs: Self) -> (r: Self) {
        if rhs.raw == 0 {
            Fixed { raw: 0 }
        } else {
            assert(-0x4000_0000_0000_0000_0000_0000_0000_0000 <= self.raw as int * SCALE as int
                <= 0x4000_0000_0000_0000_0000_0000_0000_0000) by (nonlinear_arith)
                requires
                    -0x8000_0000_0000_0000 <= self.raw as int <= 0x8000_0000_0000_0000,
                    SCALE == 1_000_000,
            ;
            let wide: i128 = (self.raw as i128) * (SCALE as i128);
            Fixed { raw: narrow(divide(wide, rhs.raw as i128)) }
        }
    }

    fn is_nonneg(self) -> (r: bool) {
        self.raw >= 0
    }
}

/// Rounding toward zero keeps the side of zero that the quotient lies on, and
/// a quotient of sizes in order is at most one.
proof fn lemma_toward_zero_bounds(a: int, b: int, most: int)
    requires
        b > 0,
    ensures
        a >= 0 ==> 0 <= toward_zero(a, b) <= a,
        a == 0 ==> toward_zero(a, b) == 0,
        0 <= a <= b * most ==> toward_zero(a, b) <= most,
{
    if a >= 0 {
        assert(0 <= a / b <= a) by (nonlinear_arith)
            requires
                a >= 0,
                b > 0,
        ;
    }
    if 0 <= a <= b * most {
        assert(a / b <= most) by (nonlinear_arith)
            requires
                0 <= a <= b * most,
                b > 0,
        ;
    }
}

/// In fixed-point arithmetic a product with zero is zero, adding zero
/// changes nothing, and one less one is zero.
pub proof fn lemma_fixed_zero()
    ensures
        zero_annihilates::<Fixed>(),
        zero_is_neutral::<Fixed>(),
        zero_sum_is_zero::<Fixed>(),
        one_less_one_is_zero::<Fixed>(),
        forall|x: Fixed| annihilated(x),
{
    lemma_toward_zero_bounds(0, SCALE as int, 0);
    assert forall|x: Fixed|
        #![trigger zero::<Fixed>().times_spec(x)]
        #![trigger x.times_spec(zero::<Fixed>())]
        zero::<Fixed>().times_spec(x) == zero::<Fixed>() && x.times_spec(zero::<Fixed>())
            == zero::<Fixed>() by {
        assert(0 * (x.raw as int) == 0);
        assert((x.raw as int) * 0 == 0);
    }
    assert forall|x: Fixed| annihilated(x) by {
        assert(zero::<Fixed>().times_spec(x) == zero::<Fixed>());
    }
}

/// In fixed-point arithmetic squares are at least zero, and so are sums and
/// products of scalars that are, and their quotients by a count of one or
/// more. Adding such a scalar lowers nothing.
pub proof fn lemma_fixed_keeps_nonneg()
    ensures
        squares_nonneg::<Fixed>(),
        sums_keep_nonneg::<Fixed>(),
        products_keep_nonneg::<Fixed>(),
        means_keep_nonneg::<Fixed>(),
        additions_raise::<Fixed>(),
{
    assert forall|a: Fixed, b: Fixed|
        a.nonneg_spec() && b.nonneg_spec() implies #[trigger] a.times_spec(b).raw >= 0 by {
        assert(a.raw as int * b.raw as int >= 0) by (nonlinear_arith)
            requires
                a.raw >= 0,
                b.raw >= 0,
        ;
        lemma_toward_zero_bounds(a.raw as int * b.raw as int, SCALE as int, 0);
    }
    assert forall|x: Fixed, d: Fixed| d.nonneg_spec() implies no_less(
        #[trigger] x.plus_spec(d),
        x,
    ) by {
        assert(x.plus_spec(d).raw >= x.raw);
    }
    assert forall|x: Fixed| (#[trigger] square(x)).nonneg_spec() by {
        assert(x.raw as int * x.raw as int >= 0) by (nonlinear_arith);
        lemma_toward_zero_bounds(x.raw as int * x.raw as int, SCALE as int, 0);
    }
    assert forall|a: Fixed, n: usize| a.nonneg_spec() && n >= 1 implies (#[trigger] a.over_spec(
        Fixed::from_count_spec(n),
    )).nonneg_spec() by {
        let d = Fixed::from_count_spec(n);
        assert(d.raw > 0);
        assert(a.raw as int * SCALE as int >= 0) by (nonlinear_arith)
            requires
                a.raw >= 0,
                SCALE == 1_000_000,
        ;
        lemma_toward_zero_bounds(a.raw as int * SCALE as int, d.raw as int, 0);
    }
}

/// In fixed-point arithmetic the quotient of a count by a count that is no
/// smaller, and not zero, lies between zero and one.
pub proof fn lemma_fixed_shares()
    ensures
        shares_in_unit_interval::<Fixed>(),
{
    assert forall|part: usize, whole: usize| part <= whole && whole >= 1 implies in_unit_interval(
        #[trigger] Fixed::from_count_spec(part).over_spec(Fixed::from_count_spec(whole)),
    ) by {
        let p = Fixed::from_count_spec(part);
        let w = Fixed::from_count_spec(whole);
        assert(0 <= p.raw <= w.raw && w.raw >= SCALE);
        assert(0 <= p.raw as int * SCALE as int <= w.raw as int * SCALE as int)
            by (nonlinear_arith)
            requires
                0 <= p.raw <= w.raw,
                SCALE == 1_000_000,
        ;
        lemma_toward_zero_bounds(p.raw as int * SCALE as int, w.raw as int, SCALE as int);
    }
}

} // verus!
