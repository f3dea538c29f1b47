//! The real numbers the library computes with.
//!
//! A [`Scalar`] brings its own arithmetic, and the library asks nothing of it. So that the
//! contracts can still say what is computed, each operation has a predicate: `is_sum(a, b, r)`
//! reads "`r` is what `plus` gave for `a` and `b`". A contract then names the operations
//! that lead from the arguments to the result, one by one. For a scalar whose methods state
//! what they return, the predicates unfold to those statements, and the contracts to
//! equations.

use vstd::prelude::*;

verus! {

/// A real number type: the operations that the transform and the reconstruction are made of.
///
/// No method promises anything. What a method may return for given arguments is whatever
/// the implementation returns for them, and the contracts of this crate say how those
/// returns are chained together; they hold for every implementation.
pub trait Scalar: Copy {
    /// The additive identity, 0.
    fn zero() -> Self;

    /// The length of the unit circle, 2π.
    fn two_pi() -> Self;

    /// The number that stands for a position in a sequence.
    fn from_index(index: usize) -> Self;

    /// `self + rhs`.
    fn plus(self, rhs: Self) -> Self;

    /// `self - rhs`.
    fn minus(self, rhs: Self) -> Self;

    /// `self * rhs`.
    fn times(self, rhs: Self) -> Self;

    /// `self / rhs`.
    fn over(self, rhs: Self) -> Self;

    /// `-self`.
    fn negated(self) -> Self;

    /// The cosine of `self`, an angle in radians.
    fn cos(self) -> Self;

    /// The sine of `self`, an angle in radians.
    fn sin(self) -> Self;

    /// The length of the hypotenuse over the legs `self` and `other`.
    fn hypot(self, other: Self) -> Self;

    /// The angle of the point with ordinate `self` and abscissa `other`, in (-π, π].
    fn atan2(self, other: Self) -> Self;
}

/// `r` is a value that `zero` returns.
pub open spec fn is_zero<T: Scalar>(r: T) -> bool {
    call_ensures(T::zero, (), r)
}

/// `r` is a value that `two_pi` returns.
pub open spec fn is_two_pi<T: Scalar>(r: T) -> bool {
    call_ensures(T::two_pi, (), r)
}

/// `r` is a value that `from_index` returns for `index`.
pub open spec fn is_index<T: Scalar>(index: usize, r: T) -> bool {
    call_ensures(T::from_index, (index,), r)
}

/// `r` is a value that `plus` returns for `a` and `b`.
pub open spec fn is_sum<T: Scalar>(a: T, b: T, r: T) -> bool {
    call_ensures(T::plus, (a, b), r)
}

/// `r` is a value that `minus` returns for `a` and `b`.
pub open spec fn is_difference<T: Scalar>(a: T, b: T, r: T) -> bool {
    call_ensures(T::minus, (a, b), r)
}

/// `r` is a value that `times` returns for `a` and `b`.
pub open spec fn is_product<T: Scalar>(a: T, b: T, r: T) -> bool {
    call_ensures(T::times, (a, b), r)
}

/// `r` is a value that `over` returns for `a` and `b`.
pub open spec fn is_quotient<T: Scalar>(a: T, b: T, r: T) -> bool {
    call_ensures(T::over, (a, b), r)
}

/// `r` is a value that `negated` returns for `a`.
pub open spec fn is_negation<T: Scalar>(a: T, r: T) -> bool {
    call_ensures(T::negated, (a,), r)
}

/// `r` is a value that `cos` returns for `a`.
pub open spec fn is_cos<T: Scalar>(a: T, r: T) -> bool {
    call_ensures(T::cos, (a,), r)
}

/// `r` is a value that `sin` returns for `a`.
pub open spec fn is_sin<T: Scalar>(a: T, r: T) -> bool {
    call_ensures(T::sin, (a,), r)
}

/// `r` is a value that `hypot` returns for `a` and `b`.
pub open spec fn is_hypot<T: Scalar>(a: T, b: T, r: T) -> bool {
    call_ensures(T::hypot, (a, b), r)
}

/// `r` is a value that `atan2` returns for `a` and `b`.
pub open spec fn is_atan2<T: Scalar>(a: T, b: T, r: T) -> bool {
    call_ensures(T::atan2, (a, b), r)
}

/// Every operation of `T` is a function of its arguments: equal arguments, equal result.
pub open spec fn is_deterministic<T: Scalar>() -> bool {
    &&& forall|r: T, s: T| #![trigger is_zero(r), is_zero(s)] is_zero(r) && is_zero(s) ==> r == s
    &&& forall|r: T, s: T|
        #![trigger is_two_pi(r), is_two_pi(s)]
        is_two_pi(r) && is_two_pi(s) ==> r == s
    &&& forall|i: usize, r: T, s: T|
        #![trigger is_index(i, r), is_index(i, s)]
        is_index(i, r) && is_index(i, s) ==> r == s
    &&& forall|a: T, b: T, r: T, s: T|
        #![trigger is_sum(a, b, r), is_sum(a, b, s)]
        is_sum(a, b, r) && is_sum(a, b, s) ==> r == s
    &&& forall|a: T, b: T, r: T, s: T|
        #![trigger is_difference(a, b, r), is_difference(a, b, s)]
        is_difference(a, b, r) && is_difference(a, b, s) ==> r == s
    &&& forall|a: T, b: T, r: T, s: T|
        #![trigger is_product(a, b, r), is_product(a, b, s)]
        is_product(a, b, r) && is_product(a, b, s) ==> r == s
    &&& forall|a: T, b: T, r: T, s: T|
        #![trigger is_quotient(a, b, r), is_quotient(a, b, s)]
        is_quotient(a, b, r) && is_quotient(a, b, s) ==> r == s
    &&& forall|a: T, r: T, s: T|
        #![trigger is_negation(a, r), is_negation(a, s)]
        is_negation(a, r) && is_negation(a, s) ==> r == s
    &&& forall|a: T, r: T, s: T|
        #![trigger is_cos(a, r), is_cos(a, s)]
        is_cos(a, r) && is_cos(a, s) ==> r == s
    &&& forall|a: T, r: T, s: T|
        #![trigger is_sin(a, r), is_sin(a, s)]
        is_sin(a, r) && is_sin(a, s) ==> r == s
    &&& forall|a: T, b: T, r: T, s: T|
        #![trigger is_hypot(a, b, r), is_hypot(a, b, s)]
        is_hypot(a, b, r) && is_hypot(a, b, s) ==> r == s
    &&& forall|a: T, b: T, r: T, s: T|
        #![trigger is_atan2(a, b, r), is_atan2(a, b, s)]
        is_atan2(a, b, r) && is_atan2(a, b, s) ==> r == s
}

} // verus!
