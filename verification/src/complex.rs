//! Complex numbers over a [`Scalar`].

use crate::scalar::{
    is_atan2, is_difference, is_hypot, is_product, is_quotient, is_sum, is_zero, Scalar,
};
use vstd::prelude::*;

verus! {

/// A complex number `re + i·im`: a point of the plane, or a coefficient of the transform.
#[derive(Debug)]
pub struct Complex<T> {
    pub re: T,
    pub im: T,
}

impl<T: Copy> Clone for Complex<T> {
    fn clone(&self) -> (r: Self)
        ensures
            r == *self,
    {
        *self
    }
}

impl<T: Copy> Copy for Complex<T> {

}

impl<T: Scalar> Complex<T> {
    /// `r` is 0 + i·0.
    pub open spec fn is_origin(r: Self) -> bool {
        is_zero(r.re) && is_zero(r.im)
    }

    /// `r` is `a + b`, taken part by part.
    pub open spec fn is_sum(a: Self, b: Self, r: Self) -> bool {
        is_sum(a.re, b.re, r.re) && is_sum(a.im, b.im, r.im)
    }

    /// `r` is `a · b`: `(a.re·b.re - a.im·b.im) + i·(a.re·b.im + a.im·b.re)`.
    pub open spec fn is_product(a: Self, b: Self, r: Self) -> bool {
        exists|p: T, q: T, s: T, u: T|
            #![trigger is_product(a.re, b.re, p), is_product(a.im, b.im, q), is_product(a.re, b.im, s), is_product(a.im, b.re, u)]
            {
                &&& is_product(a.re, b.re, p)
                &&& is_product(a.im, b.im, q)
                &&& is_difference(p, q, r.re)
                &&& is_product(a.re, b.im, s)
                &&& is_product(a.im, b.re, u)
                &&& is_sum(s, u, r.im)
            }
    }

    /// `r` is `a · f` for a real `f`, taken part by part.
    pub open spec fn is_scaled(a: Self, f: T, r: Self) -> bool {
        is_product(a.re, f, r.re) && is_product(a.im, f, r.im)
    }

    /// `r` is `a / d` for a real `d`, taken part by part.
    pub open spec fn is_quotient(a: Self, d: T, r: Self) -> bool {
        is_quotient(a.re, d, r.re) && is_quotient(a.im, d, r.im)
    }

    /// `r` is the magnitude `|a|`.
    pub open spec fn is_norm(a: Self, r: T) -> bool {
        is_hypot(a.re, a.im, r)
    }

    /// `r` is the angle of `a`.
    pub open spec fn is_arg(a: Self, r: T) -> bool {
        is_atan2(a.im, a.re, r)
    }

    /// The number with the given parts.
    pub fn new(re: T, im: T) -> (r: Self)
        ensures
            r.re == re,
            r.im == im,
    {
        Complex { re, im }
    }

    /// 0 + i·0.
    pub fn origin() -> (r: Self)
        ensures
            Self::is_origin(r),
    {
        Complex { re: T::zero(), im: T::zero() }
    }

    /// `self + rhs`.
    pub fn plus(self, rhs: Self) -> (r: Self)
        ensures
            Self::is_sum(self, rhs, r),
    {
        Complex { re: self.re.plus(rhs.re), im: self.im.plus(rhs.im) }
    }

    /// `self · rhs`.
    pub fn times(self, rhs: Self) -> (r: Self)
        ensures
            Self::is_product(self, rhs, r),
    {
        let p = self.re.times(rhs.re);
        let q = self.im.times(rhs.im);
        let s = self.re.times(rhs.im);
        let u = self.im.times(rhs.re);
        proof {
            assert(is_product(self.re, rhs.re, p) && is_product(self.im, rhs.im, q));
            assert(is_product(self.re, rhs.im, s) && is_product(self.im, rhs.re, u));
        }
        Complex { re: p.minus(q), im: s.plus(u) }
    }

    /// `self · f` for a real `f`.
    pub fn scaled(self, f: T) -> (r: Self)
        ensures
            Self::is_scaled(self, f, r),
    {
        Complex { re: self.re.times(f), im: self.im.times(f) }
    }

    /// `self / d` for a real `d`.
    pub fn over(self, d: T) -> (r: Self)
        ensures
            Self::is_quotient(self, d, r),
    {
        Complex { re: self.re.over(d), im: self.im.over(d) }
    }

    /// The magnitude `|self|`, the square root of `re² + im²`.
    pub fn norm(self) -> (r: T)
        ensures
            Self::is_norm(self, r),
    {
        self.re.hypot(self.im)
    }

    /// The angle of `self`, in (-π, π].
    pub fn arg(self) -> (r: T)
        ensures
            Self::is_arg(self, r),
    {
        self.im.atan2(self.re)
    }
}

} // verus!
