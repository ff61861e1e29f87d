//! The arithmetic that prices and quantities are computed with.

use vstd::prelude::*;

verus! {

/// A number type for prices and quantities, such as a floating-point number. Nothing is promised of
/// the operations: what is computed with them is stated as the operations that were carried out, on
/// which values and in which order.
pub trait Quantity: Copy {
    /// The number zero.
    fn zero() -> Self;

    /// The number one.
    fn one() -> Self;

    /// The sum of the two.
    fn plus(self, other: Self) -> Self;

    /// The difference of the two.
    fn minus(self, other: Self) -> Self;

    /// The product of the two.
    fn times(self, other: Self) -> Self;

    /// The quotient of the two.
    fn over(self, other: Self) -> Self;

    /// The number with its sign changed.
    fn negated(self) -> Self;

    /// The lesser of the two.
    fn lesser(self, other: Self) -> Self;

    /// Whether the number is less than the other.
    fn less_than(self, other: Self) -> bool;

    /// Whether the number is positive or negative infinity.
    fn is_infinite(self) -> bool;

    /// The nearest integer, away from zero half way between two.
    fn round(self) -> Self;

    /// The greatest integer that is not greater than the number.
    fn floor(self) -> Self;

    /// The number raised to the power of the other.
    fn power(self, other: Self) -> Self;

    /// The natural logarithm.
    fn ln(self) -> Self;
}

/// `r` is a value of `zero`.
pub open spec fn is_zero<N: Quantity>(r: N) -> bool {
    call_ensures(N::zero, (), r)
}

/// `r` is a value of `one`.
pub open spec fn is_one<N: Quantity>(r: N) -> bool {
    call_ensures(N::one, (), r)
}

/// `r` is a value of `a.plus(b)`.
pub open spec fn is_plus<N: Quantity>(a: N, b: N, r: N) -> bool {
    call_ensures(N::plus, (a, b), r)
}

/// `r` is a value of `a.minus(b)`.
pub open spec fn is_minus<N: Quantity>(a: N, b: N, r: N) -> bool {
    call_ensures(N::minus, (a, b), r)
}

/// `r` is a value of `a.times(b)`.
pub open spec fn is_times<N: Quantity>(a: N, b: N, r: N) -> bool {
    call_ensures(N::times, (a, b), r)
}

/// `r` is a value of `a.over(b)`.
pub open spec fn is_over<N: Quantity>(a: N, b: N, r: N) -> bool {
    call_ensures(N::over, (a, b), r)
}

/// `r` is a value of `a.negated()`.
pub open spec fn is_negated<N: Quantity>(a: N, r: N) -> bool {
    call_ensures(N::negated, (a,), r)
}

/// `r` is a value of `a.lesser(b)`.
pub open spec fn is_lesser<N: Quantity>(a: N, b: N, r: N) -> bool {
    call_ensures(N::lesser, (a, b), r)
}

/// `r` is a value of `a.less_than(b)`.
pub open spec fn tells_less_than<N: Quantity>(a: N, b: N, r: bool) -> bool {
    call_ensures(N::less_than, (a, b), r)
}

/// `r` is a value of `a.is_infinite()`.
pub open spec fn tells_infinite<N: Quantity>(a: N, r: bool) -> bool {
    call_ensures(N::is_infinite, (a,), r)
}

/// `r` is a value of `a.round()`.
pub open spec fn is_round<N: Quantity>(a: N, r: N) -> bool {
    call_ensures(N::round, (a,), r)
}

/// `r` is a value of `a.floor()`.
pub open spec fn is_floor<N: Quantity>(a: N, r: N) -> bool {
    call_ensures(N::floor, (a,), r)
}

/// `r` is a value of `a.power(b)`.
pub open spec fn is_power<N: Quantity>(a: N, b: N, r: N) -> bool {
    call_ensures(N::power, (a, b), r)
}

/// `r` is a value of `a.ln()`.
pub open spec fn is_ln<N: Quantity>(a: N, r: N) -> bool {
    call_ensures(N::ln, (a,), r)
}

} // verus!
