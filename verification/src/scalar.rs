//! The arithmetic that the trainer computes with.
use vstd::prelude::*;

verus! {

/// A number type with the operations that the trainer needs.
///
/// Each operation is a function of its operands: the `_spec` function beside
/// it names the value it returns. Nothing else is asked of an implementation;
/// the algebraic laws that a particular result depends on are stated where
/// that result is proved.
pub trait Scalar: Copy {
    /// The scalar that stands for the whole number `n`.
    spec fn from_count_spec(n: usize) -> Self;

    /// The sum of `self` and `rhs`.
    spec fn plus_spec(self, rhs: Self) -> Self;

    /// The difference of `self` and `rhs`.
    spec fn minus_spec(self, rhs: Self) -> Self;

    /// The product of `self` and `rhs`.
    spec fn times_spec(self, rhs: Self) -> Self;

    /// The quotient of `self` by `rhs`.
    spec fn over_spec(self, rhs: Self) -> Self;

    /// Whether `self` is at least zero.
    spec fn nonneg_spec(self) -> bool;

    /// Turns the whole number `n` into a scalar.
    fn from_count(n: usize) -> (r: Self)
        ensures
            r == Self::from_count_spec(n),
    ;

    /// Adds `rhs` to `self`.
    fn plus(self, rhs: Self) -> (r: Self)
        ensures
            r == self.plus_spec(rhs),
    ;

    /// Takes `rhs` from `self`.
    fn minus(self, rhs: Self) -> (r: Self)
        ensures
            r == self.minus_spec(rhs),
    ;

    /// Multiplies `self` by `rhs`.
    fn times(self, rhs: Self) -> (r: Self)
        ensures
            r == self.times_spec(rhs),
    ;

    /// Divides `self` by `rhs`.
    fn over(self, rhs: Self) -> (r: Self)
        ensures
            r == self.over_spec(rhs),
    ;

    /// Tells whether `self` is at least zero.
    fn is_nonneg(self) -> (r: bool)
        ensures
            r == self.nonneg_spec(),
    ;
}

/// The scalar zero.
pub open spec fn zero<T: Scalar>() -> T {
    T::from_count_spec(0)
}

/// The scalar one.
pub open spec fn one<T: Scalar>() -> T {
    T::from_count_spec(1)
}

/// The scalar minus one, formed as zero less one.
pub open spec fn neg_one<T: Scalar>() -> T {
    zero::<T>().minus_spec(one::<T>())
}

/// The sign of `x` as a scalar: one where `x` is at least zero, minus one
/// elsewhere.
pub open spec fn threshold<T: Scalar>(x: T) -> T {
    if x.nonneg_spec() {
        one::<T>()
    } else {
        neg_one::<T>()
    }
}

/// `x` times itself.
pub open spec fn square<T: Scalar>(x: T) -> T {
    x.times_spec(x)
}

/// Maps an output to `+1` or `-1` by its sign.
pub fn threshold_of<T: Scalar>(x: T) -> (r: T)
    ensures
        r == threshold(x),
{
    if x.is_nonneg() {
        T::from_count(1)
    } else {
        T::from_count(0).minus(T::from_count(1))
    }
}

/// Zero times `x` is zero.
pub open spec fn annihilated<T: Scalar>(x: T) -> bool {
    zero::<T>().times_spec(x) == zero::<T>()
}

/// Zero plus zero is zero.
pub open spec fn zero_sum_is_zero<T: Scalar>() -> bool {
    zero::<T>().plus_spec(zero::<T>()) == zero::<T>()
}

/// A product with zero on either side is zero.
pub open spec fn zero_annihilates<T: Scalar>() -> bool {
    forall|x: T|
        #![trigger zero::<T>().times_spec(x)]
        #![trigger x.times_spec(zero::<T>())]
        zero::<T>().times_spec(x) == zero::<T>() && x.times_spec(zero::<T>()) == zero::<T>()
}

/// Adding zero changes nothing.
pub open spec fn zero_is_neutral<T: Scalar>() -> bool {
    forall|x: T| #[trigger] x.plus_spec(zero::<T>()) == x
}

/// One less one is zero.
pub open spec fn one_less_one_is_zero<T: Scalar>() -> bool {
    one::<T>().minus_spec(one::<T>()) == zero::<T>()
}

/// Every square is at least zero.
pub open spec fn squares_nonneg<T: Scalar>() -> bool {
    forall|x: T| (#[trigger] square(x)).nonneg_spec()
}

/// Zero is at least zero, and so is the sum of two scalars that are.
pub open spec fn sums_keep_nonneg<T: Scalar>() -> bool {
    &&& zero::<T>().nonneg_spec()
    &&& forall|a: T, b: T|
        a.nonneg_spec() && b.nonneg_spec() ==> (#[trigger] a.plus_spec(b)).nonneg_spec()
}

/// The product of two scalars that are at least zero is at least zero.
pub open spec fn products_keep_nonneg<T: Scalar>() -> bool {
    forall|a: T, b: T|
        a.nonneg_spec() && b.nonneg_spec() ==> (#[trigger] a.times_spec(b)).nonneg_spec()
}

/// A scalar that is at least zero stays so when divided by a count of one
/// or more.
pub open spec fn means_keep_nonneg<T: Scalar>() -> bool {
    forall|a: T, n: usize|
        a.nonneg_spec() && n >= 1 ==> (#[trigger] a.over_spec(
            T::from_count_spec(n),
        )).nonneg_spec()
}

/// Whether `a` is no less than `b`: `a` less `b` is at least zero.
pub open spec fn no_less<T: Scalar>(a: T, b: T) -> bool {
    a.minus_spec(b).nonneg_spec()
}

/// Adding a scalar that is at least zero does not lower a scalar.
pub open spec fn additions_raise<T: Scalar>() -> bool {
    forall|x: T, d: T| d.nonneg_spec() ==> no_less(#[trigger] x.plus_spec(d), x)
}

/// Whether `x` lies between zero and one.
pub open spec fn in_unit_interval<T: Scalar>(x: T) -> bool {
    x.nonneg_spec() && no_less(one::<T>(), x)
}

/// The quotient of a count by a count that is no smaller, and not zero, lies
/// between zero and one.
pub open spec fn shares_in_unit_interval<T: Scalar>() -> bool {
    forall|part: usize, whole: usize|
        part <= whole && whole >= 1 ==> in_unit_interval(
            #[trigger] T::from_count_spec(part).over_spec(T::from_count_spec(whole)),
        )
}

} // verus!
