//! Rotating circles: what the coefficients of a transform turn into, and the chain of points
//! that the circles trace when each is hung on the point before it.

use crate::complex::Complex;
use crate::dft::{dtf, is_stepped_transform};
use crate::scalar::{is_cos, is_index, is_product, is_sin, is_sum, is_two_pi, is_zero, Scalar};
use vstd::prelude::*;

verus! {

/// A circle that turns `frequency` times while the path is traced once.
#[derive(Debug)]
pub struct RotatingCircle<T> {
    /// The radius, the magnitude of the coefficient.
    pub amplitude: T,
    /// The angle at time 0, the angle of the coefficient.
    pub phase: T,
    /// The index of the coefficient.
    pub frequency: usize,
}

impl<T: Copy> Clone for RotatingCircle<T> {
    fn clone(&self) -> (r: Self)
        ensures
            r == *self,
    {
        *self
    }
}

impl<T: Copy> Copy for RotatingCircle<T> {

}

/// `circle` is the circle of the coefficient `c` at index `k`.
pub open spec fn is_circle_of<T: Scalar>(
    k: usize,
    c: Complex<T>,
    circle: RotatingCircle<T>,
) -> bool {
    &&& Complex::is_norm(c, circle.amplitude)
    &&& Complex::is_arg(c, circle.phase)
    &&& circle.frequency == k
}

/// `circles` are the circles of `coeffs`: one for each, in the same order, none left out.
pub open spec fn is_extraction<T: Scalar>(
    coeffs: Seq<Complex<T>>,
    circles: Seq<RotatingCircle<T>>,
) -> bool {
    &&& circles.len() == coeffs.len()
    &&& forall|k: int|
        0 <= k < coeffs.len() ==> is_circle_of(k as usize, coeffs[k], #[trigger] circles[k])
}

/// `angle` is where a circle stands at time `t`: `((frequency · t) · 2π) + phase`.
pub open spec fn is_turn_angle<T: Scalar>(frequency: usize, t: T, phase: T, angle: T) -> bool {
    exists|ff: T, a: T, tp: T, b: T|
        #![trigger is_product(ff, t, a), is_product(a, tp, b)]
        {
            &&& is_index(frequency, ff)
            &&& is_product(ff, t, a)
            &&& is_two_pi(tp)
            &&& is_product(a, tp, b)
            &&& is_sum(b, phase, angle)
        }
}

/// `arm` leads from the centre of `circle` to the point on it at time `t`:
/// `(amplitude · cos(angle), amplitude · sin(angle))`.
pub open spec fn is_arm<T: Scalar>(circle: RotatingCircle<T>, t: T, arm: (T, T)) -> bool {
    exists|angle: T, c: T, s: T|
        #![trigger is_cos(angle, c), is_sin(angle, s)]
        {
            &&& is_turn_angle(circle.frequency, t, circle.phase, angle)
            &&& is_cos(angle, c)
            &&& is_product(circle.amplitude, c, arm.0)
            &&& is_sin(angle, s)
            &&& is_product(circle.amplitude, s, arm.1)
        }
}

/// `to` is `from` moved along the arm of `circle` at time `t`.
pub open spec fn is_link<T: Scalar>(
    circle: RotatingCircle<T>,
    t: T,
    from: (T, T),
    to: (T, T),
) -> bool {
    exists|arm: (T, T)|
        #![trigger is_arm(circle, t, arm)]
        is_arm(circle, t, arm) && is_sum(from.0, arm.0, to.0) && is_sum(from.1, arm.1, to.1)
}

/// `points` is the chain of `circles` at time `t`: the origin, then after each circle the
/// point that its arm leads to from the point before.
pub open spec fn is_chain<T: Scalar>(
    circles: Seq<RotatingCircle<T>>,
    t: T,
    points: Seq<(T, T)>,
) -> bool {
    &&& points.len() == circles.len() + 1
    &&& is_zero(points[0].0)
    &&& is_zero(points[0].1)
    &&& forall|i: int|
        0 <= i < circles.len() ==> is_link(#[trigger] circles[i], t, points[i], points[i + 1])
}

/// The coordinates of `points` in one row: `x` of the first, `y` of the first, `x` of the
/// second, and so on.
pub open spec fn interleaved<T>(points: Seq<(T, T)>) -> Seq<T> {
    Seq::new(
        2 * points.len(),
        |j: int|
            if j % 2 == 0 {
                points[j / 2].0
            } else {
                points[j / 2].1
            },
    )
}

/// The circle of a coefficient: `params.0` is its index, `params.1` its value.
pub fn complex_to_rotating_circle<T: Scalar>(params: (usize, Complex<T>)) -> (circle:
    RotatingCircle<T>)
    ensures
        is_circle_of(params.0, params.1, circle),
{
    RotatingCircle { amplitude: params.1.norm(), phase: params.1.arg(), frequency: params.0 }
}

/// The circles of the coefficients `coeffs`, in the order of their frequencies. Nothing is
/// sorted and nothing is dropped: circle `k` belongs to coefficient `k`.
pub fn extract<T: Scalar>(coeffs: Vec<Complex<T>>) -> (circles: Vec<RotatingCircle<T>>)
    ensures
        is_extraction(coeffs@, circles@),
        circles@.len() == coeffs@.len(),
        forall|k: int| 0 <= k < circles@.len() ==> (#[trigger] circles@[k]).frequency == k,
{
    let mut circles: Vec<RotatingCircle<T>> = Vec::new();
    let len: usize = coeffs.len();
    let mut k: usize = 0;
    while k < len
        invariant
            len == coeffs@.len(),
            k <= len,
            circles@.len() == k,
            forall|j: int|
                0 <= j < k ==> is_circle_of(j as usize, coeffs@[j], #[trigger] circles@[j]),
        decreases len - k,
    {
        let circle = complex_to_rotating_circle((k, coeffs[k]));
        circles.push(circle);
        k = k + 1;
    }
    circles
}

/// The arm of `circle` at time `t`.
pub fn arm<T: Scalar>(circle: RotatingCircle<T>, t: T) -> (r: (T, T))
    ensures
        is_arm(circle, t, r),
{
    let ff = T::from_index(circle.frequency);
    let a = ff.times(t);
    let tp = T::two_pi();
    let b = a.times(tp);
    let phi = b.plus(circle.phase);
    let c = phi.cos();
    let s = phi.sin();
    proof {
        assert(is_product(ff, t, a) && is_product(a, tp, b));
        assert(is_turn_angle(circle.frequency, t, circle.phase, phi));
        assert(is_cos(phi, c) && is_sin(phi, s));
    }
    (circle.amplitude.times(c), circle.amplitude.times(s))
}

/// The chain of `circles` at time `t`: the origin first, then the sum after each circle, in
/// the order of the frequencies. The last point is the point of the path at time `t`.
///
/// `t` is not wrapped: one unit of it is one turn of the circle of frequency 1.
pub fn evaluate<T: Scalar>(circles: &Vec<RotatingCircle<T>>, t: T) -> (points: Vec<(T, T)>)
    ensures
        is_chain(circles@, t, points@),
        points@.len() == circles@.len() + 1,
        is_zero(points@[0].0) && is_zero(points@[0].1),
{
    let mut points: Vec<(T, T)> = Vec::new();
    let mut x = T::zero();
    let mut y = T::zero();
    points.push((x, y));
    let len: usize = circles.len();
    let mut i: usize = 0;
    while i < len
        invariant
            len == circles@.len(),
            i <= len,
            points@.len() == i + 1,
            points@[i as int] == (x, y),
            is_zero(points@[0].0),
            is_zero(points@[0].1),
            forall|j: int|
                0 <= j < i ==> is_link(#[trigger] circles@[j], t, points@[j], points@[j + 1]),
        decreases len - i,
    {
        let d = arm(circles[i], t);
        let ghost before = points@;
        x = x.plus(d.0);
        y = y.plus(d.1);
        points.push((x, y));
        proof {
            assert(is_arm(circles@[i as int], t, d));
            assert(is_link(circles@[i as int], t, before[i as int], points@[i + 1]));
            assert forall|j: int| 0 <= j < i + 1 implies is_link(
                #[trigger] circles@[j],
                t,
                points@[j],
                points@[j + 1],
            ) by {
                if j < i {
                    assert(points@[j] == before[j]);
                    assert(points@[j + 1] == before[j + 1]);
                }
            }
        }
        i = i + 1;
    }
    points
}

/// The coordinates of `points` in one row.
pub fn interleave<T: Copy>(points: &Vec<(T, T)>) -> (flat: Vec<T>)
    ensures
        flat@ == interleaved(points@),
{
    let mut flat: Vec<T> = Vec::new();
    let len: usize = points.len();
    let mut i: usize = 0;
    while i < len
        invariant
            len == points@.len(),
            i <= len,
            flat@.len() == 2 * i,
            forall|j: int| 0 <= j < 2 * i ==> #[trigger] flat@[j] == interleaved(points@)[j],
        decreases len - i,
    {
        let p = points[i];
        flat.push(p.0);
        flat.push(p.1);
        i = i + 1;
    }
    assert(flat@ =~= interleaved(points@));
    flat
}

/// `circles` is what a path with the samples `points` is taken apart into: the circles of
/// the coefficients of its transform.
pub open spec fn is_decomposition<T: Scalar>(
    points: Seq<Complex<T>>,
    circles: Seq<RotatingCircle<T>>,
) -> bool {
    exists|coeffs: Seq<Complex<T>>|
        #![trigger is_extraction(coeffs, circles)]
        is_stepped_transform(points, coeffs) && is_extraction(coeffs, circles)
}

/// `flat` is the chain of `circles` at time `t`, its coordinates in one row.
pub open spec fn is_flat_chain<T: Scalar>(
    circles: Seq<RotatingCircle<T>>,
    t: T,
    flat: Seq<T>,
) -> bool {
    exists|points: Seq<(T, T)>|
        #![trigger is_chain(circles, t, points)]
        is_chain(circles, t, points) && flat == interleaved(points)
}

/// Calls `Vec::into_boxed_slice` of std. Not proved, but claimed of it as documented: the
/// boxed slice holds the items of the vector, in the same order.
#[verifier::external_body]
fn into_boxed<T>(v: Vec<T>) -> (b: Box<[T]>)
    ensures
        b@ == v@,
{
    v.into_boxed_slice()
}

/// The circles of one path, computed once and never changed: circle `k` turns at
/// frequency `k`.
pub struct RotatingCircles<T> {
    circles: Vec<RotatingCircle<T>>,
}

impl<T> View for RotatingCircles<T> {
    type V = Seq<RotatingCircle<T>>;

    closed spec fn view(&self) -> Seq<RotatingCircle<T>> {
        self.circles@
    }
}

impl<T> RotatingCircles<T> {
    #[verifier::type_invariant]
    spec fn in_frequency_order(self) -> bool {
        forall|k: int| 0 <= k < self.circles@.len() ==> (#[trigger] self.circles@[k]).frequency == k
    }
}

impl<T: Scalar> RotatingCircles<T> {
    /// Takes the path with the samples `points` apart: transforms it and keeps the circle
    /// of each coefficient. There is one circle for each sample; no samples, no circles.
    pub fn new(points: Vec<Complex<T>>) -> (r: RotatingCircles<T>)
        ensures
            is_decomposition(points@, r@),
            r@.len() == points@.len(),
    {
        let ghost samples = points@;
        let coeffs = dtf(points);
        let ghost middle = coeffs@;
        let circles = extract(coeffs);
        proof {
            assert(is_extraction(middle, circles@));
        }
        RotatingCircles { circles }
    }

    /// The circles, in the order of their frequencies.
    pub fn circles(&self) -> (r: &Vec<RotatingCircle<T>>)
        ensures
            r@ == self@,
            forall|k: int| 0 <= k < r@.len() ==> (#[trigger] r@[k]).frequency == k,
    {
        proof {
            use_type_invariant(self);
        }
        &self.circles
    }

    /// The chain of the circles at time `t`, as `2 · (N + 1)` coordinates in one row: the
    /// origin, then the point after each circle. The last two are the point of the path.
    pub fn create_points(&self, t: T) -> (flat: Box<[T]>)
        ensures
            is_flat_chain(self@, t, flat@),
            flat@.len() == 2 * (self@.len() + 1),
            is_zero(flat@[0]) && is_zero(flat@[1]),
    {
        let points = evaluate(&self.circles, t);
        let row = interleave(&points);
        proof {
            assert(is_chain(self@, t, points@));
        }
        into_boxed(row)
    }
}

} // verus!
