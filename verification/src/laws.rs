//! What holds of the transform, the circles and the chain, whatever the numbers are.
//!
//! Two things are said here. A path of no samples comes to no circles and is drawn as the
//! origin. And nothing but the numbers decides a result: where every operation of the
//! scalar is a function of its arguments, so are the transform, the circles of a path and
//! the chain at a time, and evaluating twice gives the same points.

use crate::circles::{
    interleaved, is_arm, is_chain, is_circle_of, is_decomposition, is_extraction, is_flat_chain,
    is_link, is_turn_angle, RotatingCircle,
};
use crate::complex::Complex;
use crate::dft::{
    is_bin_step, is_direct_angle, is_direct_angles, is_direct_bin, is_direct_transform, is_mean,
    is_rotation, is_running_sum, is_stepped_angle, is_stepped_angles, is_stepped_bin,
    is_stepped_transform, is_turned_add, is_turned_sum,
};
use crate::scalar::{
    is_atan2, is_cos, is_deterministic, is_difference, is_hypot, is_index, is_negation,
    is_product, is_quotient, is_sin, is_sum, is_two_pi, is_zero, Scalar,
};
use vstd::prelude::*;

verus! {

/// A transform of no samples has no coefficients, by either strategy.
pub proof fn empty_transform_is_empty<T: Scalar>(x: Seq<Complex<T>>, out: Seq<Complex<T>>)
    requires
        x.len() == 0,
        is_stepped_transform(x, out) || is_direct_transform(x, out),
    ensures
        out =~= Seq::empty(),
{
}

/// The chain of no circles is the origin alone, at any time: one point, two coordinates.
pub proof fn empty_chain_is_origin<T: Scalar>(
    circles: Seq<RotatingCircle<T>>,
    t: T,
    points: Seq<(T, T)>,
)
    requires
        circles.len() == 0,
        is_chain(circles, t, points),
    ensures
        points.len() == 1,
        is_zero(points[0].0) && is_zero(points[0].1),
        interleaved(points) =~= seq![points[0].0, points[0].1],
{
}

/// A path of no samples is taken apart into no circles, and drawn as the origin at any
/// time: the row holds the two coordinates of the origin and nothing else.
pub proof fn empty_path_draws_the_origin<T: Scalar>(
    samples: Seq<Complex<T>>,
    circles: Seq<RotatingCircle<T>>,
    t: T,
    flat: Seq<T>,
)
    requires
        samples.len() == 0,
        is_decomposition(samples, circles),
        is_flat_chain(circles, t, flat),
    ensures
        circles.len() == 0,
        flat.len() == 2,
        is_zero(flat[0]) && is_zero(flat[1]),
{
    let coeffs = choose|coeffs: Seq<Complex<T>>|
        #![trigger is_extraction(coeffs, circles)]
        is_stepped_transform(samples, coeffs) && is_extraction(coeffs, circles);
    let points = choose|points: Seq<(T, T)>|
        #![trigger is_chain(circles, t, points)]
        is_chain(circles, t, points) && flat == interleaved(points);
    empty_chain_is_origin(circles, t, points);
}

/// With numbers whose operations are functions of their arguments, two complex numbers
/// have one product.
proof fn product_is_unique<T: Scalar>(
    a: Complex<T>,
    b: Complex<T>,
    first: Complex<T>,
    second: Complex<T>,
)
    requires
        is_deterministic::<T>(),
        Complex::is_product(a, b, first),
        Complex::is_product(a, b, second),
    ensures
        first == second,
{
    let (pa, qa, sa, ua) = choose|p: T, q: T, s: T, u: T|
        #![trigger is_product(a.re, b.re, p), is_product(a.im, b.im, q), is_product(a.re, b.im, s), is_product(a.im, b.re, u)]
        is_product(a.re, b.re, p) && is_product(a.im, b.im, q) && is_difference(p, q, first.re)
            && is_product(a.re, b.im, s) && is_product(a.im, b.re, u) && is_sum(s, u, first.im);
    let (pb, qb, sb, ub) = choose|p: T, q: T, s: T, u: T|
        #![trigger is_product(a.re, b.re, p), is_product(a.im, b.im, q), is_product(a.re, b.im, s), is_product(a.im, b.re, u)]
        is_product(a.re, b.re, p) && is_product(a.im, b.im, q) && is_difference(p, q, second.re)
            && is_product(a.re, b.im, s) && is_product(a.im, b.re, u) && is_sum(s, u, second.im);
    assert(pa == pb && qa == qb && sa == sb && ua == ub);
    assert(first.re == second.re);
    assert(first.im == second.im);
}

/// With such numbers, an angle has one rotation factor.
proof fn rotation_is_unique<T: Scalar>(phi: T, first: Complex<T>, second: Complex<T>)
    requires
        is_deterministic::<T>(),
        is_rotation(phi, first),
        is_rotation(phi, second),
    ensures
        first == second,
{
    let s1 = choose|s: T|
        #![trigger is_sin(phi, s)]
        is_cos(phi, first.re) && is_sin(phi, s) && is_negation(s, first.im);
    let s2 = choose|s: T|
        #![trigger is_sin(phi, s)]
        is_cos(phi, second.re) && is_sin(phi, s) && is_negation(s, second.im);
    assert(s1 == s2);
    assert(first.re == second.re);
    assert(first.im == second.im);
}

/// With such numbers, a total grows by a turned sample in one way.
proof fn turned_add_is_unique<T: Scalar>(
    x: Complex<T>,
    phi: T,
    acc: Complex<T>,
    first: Complex<T>,
    second: Complex<T>,
)
    requires
        is_deterministic::<T>(),
        is_turned_add(x, phi, acc, first),
        is_turned_add(x, phi, acc, second),
    ensures
        first == second,
{
    let (w1, t1) = choose|w: Complex<T>, term: Complex<T>|
        #![trigger Complex::is_product(x, w, term)]
        is_rotation(phi, w) && Complex::is_product(x, w, term) && Complex::is_sum(
            acc,
            term,
            first,
        );
    let (w2, t2) = choose|w: Complex<T>, term: Complex<T>|
        #![trigger Complex::is_product(x, w, term)]
        is_rotation(phi, w) && Complex::is_product(x, w, term) && Complex::is_sum(
            acc,
            term,
            second,
        );
    rotation_is_unique(phi, w1, w2);
    product_is_unique(x, w1, t1, t2);
    assert(first.re == second.re);
    assert(first.im == second.im);
}

/// With such numbers, two runs over the same samples and angles agree on their first
/// `upto + 1` totals.
proof fn running_sums_agree_upto<T: Scalar>(
    x: Seq<Complex<T>>,
    angles: Seq<T>,
    first: Seq<Complex<T>>,
    second: Seq<Complex<T>>,
    upto: int,
)
    requires
        is_deterministic::<T>(),
        is_running_sum(x, angles, first),
        is_running_sum(x, angles, second),
        0 <= upto <= angles.len(),
    ensures
        first[upto] == second[upto],
    decreases upto,
{
    if upto > 0 {
        running_sums_agree_upto(x, angles, first, second, upto - 1);
        let n = upto - 1;
        assert(is_turned_add(x[n], angles[n], first[n], first[n + 1]));
        assert(is_turned_add(x[n], angles[n], second[n], second[n + 1]));
        turned_add_is_unique(x[n], angles[n], first[n], first[n + 1], second[n + 1]);
    } else {
        assert(first[0].re == second[0].re);
        assert(first[0].im == second[0].im);
    }
}

/// With such numbers, samples turned back by given angles have one sum and one mean.
proof fn mean_of_turned_sum_is_unique<T: Scalar>(
    x: Seq<Complex<T>>,
    angles: Seq<T>,
    total1: Complex<T>,
    total2: Complex<T>,
    first: Complex<T>,
    second: Complex<T>,
)
    requires
        is_deterministic::<T>(),
        is_turned_sum(x, angles, total1),
        is_turned_sum(x, angles, total2),
        is_mean(total1, x.len() as usize, first),
        is_mean(total2, x.len() as usize, second),
    ensures
        first == second,
{
    let sums1 = choose|sums: Seq<Complex<T>>|
        #![trigger is_running_sum(x, angles, sums)]
        is_running_sum(x, angles, sums) && sums[x.len() as int] == total1;
    let sums2 = choose|sums: Seq<Complex<T>>|
        #![trigger is_running_sum(x, angles, sums)]
        is_running_sum(x, angles, sums) && sums[x.len() as int] == total2;
    running_sums_agree_upto(x, angles, sums1, sums2, x.len() as int);
    let len = x.len() as usize;
    let lf1 = choose|lf: T|
        #![trigger is_index(len, lf)]
        is_index(len, lf) && Complex::is_quotient(total1, lf, first);
    let lf2 = choose|lf: T|
        #![trigger is_index(len, lf)]
        is_index(len, lf) && Complex::is_quotient(total2, lf, second);
    assert(lf1 == lf2);
    assert(first.re == second.re);
    assert(first.im == second.im);
}

/// With such numbers, a bin has one step.
proof fn bin_step_is_unique<T: Scalar>(k: usize, len: usize, first: T, second: T)
    requires
        is_deterministic::<T>(),
        is_bin_step(k, len, first),
        is_bin_step(k, len, second),
    ensures
        first == second,
{
    let (tp1, kf1, m1, lf1) = choose|tp: T, kf: T, m: T, lf: T|
        #![trigger is_product(tp, kf, m), is_quotient(m, lf, first)]
        is_two_pi(tp) && is_index(k, kf) && is_product(tp, kf, m) && is_index(len, lf)
            && is_quotient(m, lf, first);
    let (tp2, kf2, m2, lf2) = choose|tp: T, kf: T, m: T, lf: T|
        #![trigger is_product(tp, kf, m), is_quotient(m, lf, second)]
        is_two_pi(tp) && is_index(k, kf) && is_product(tp, kf, m) && is_index(len, lf)
            && is_quotient(m, lf, second);
    assert(tp1 == tp2 && kf1 == kf2 && lf1 == lf2);
    assert(m1 == m2);
}

/// With such numbers, a sample of a bin with a given step has one stepped angle.
proof fn stepped_angle_is_unique<T: Scalar>(base: T, n: usize, first: T, second: T)
    requires
        is_deterministic::<T>(),
        is_stepped_angle(base, n, first),
        is_stepped_angle(base, n, second),
    ensures
        first == second,
{
    let nf1 = choose|nf: T| #![trigger is_index(n, nf)] is_index(n, nf) && is_product(base, nf, first);
    let nf2 = choose|nf: T| #![trigger is_index(n, nf)] is_index(n, nf) && is_product(base, nf, second);
    assert(nf1 == nf2);
}

/// With such numbers, a sample of a bin has one direct angle.
proof fn direct_angle_is_unique<T: Scalar>(k: usize, n: usize, len: usize, first: T, second: T)
    requires
        is_deterministic::<T>(),
        is_direct_angle(k, n, len, first),
        is_direct_angle(k, n, len, second),
    ensures
        first == second,
{
    let (tp1, kf1, a1, nf1, b1, lf1) = choose|tp: T, kf: T, a: T, nf: T, b: T, lf: T|
        #![trigger is_product(tp, kf, a), is_product(a, nf, b), is_quotient(b, lf, first)]
        is_two_pi(tp) && is_index(k, kf) && is_product(tp, kf, a) && is_index(n, nf)
            && is_product(a, nf, b) && is_index(len, lf) && is_quotient(b, lf, first);
    let (tp2, kf2, a2, nf2, b2, lf2) = choose|tp: T, kf: T, a: T, nf: T, b: T, lf: T|
        #![trigger is_product(tp, kf, a), is_product(a, nf, b), is_quotient(b, lf, second)]
        is_two_pi(tp) && is_index(k, kf) && is_product(tp, kf, a) && is_index(n, nf)
            && is_product(a, nf, b) && is_index(len, lf) && is_quotient(b, lf, second);
    assert(tp1 == tp2 && kf1 == kf2 && nf1 == nf2 && lf1 == lf2);
    assert(a1 == a2);
    assert(b1 == b2);
}

/// With such numbers, the samples leave one stepped coefficient for each frequency.
pub proof fn stepped_bin_is_unique<T: Scalar>(
    x: Seq<Complex<T>>,
    k: usize,
    first: Complex<T>,
    second: Complex<T>,
)
    requires
        is_deterministic::<T>(),
        is_stepped_bin(x, k, first),
        is_stepped_bin(x, k, second),
    ensures
        first == second,
{
    let len = x.len() as usize;
    let (angles1, total1) = choose|angles: Seq<T>, total: Complex<T>|
        #![trigger is_turned_sum(x, angles, total)]
        is_stepped_angles(k, len, angles) && is_turned_sum(x, angles, total) && is_mean(
            total,
            len,
            first,
        );
    let (angles2, total2) = choose|angles: Seq<T>, total: Complex<T>|
        #![trigger is_turned_sum(x, angles, total)]
        is_stepped_angles(k, len, angles) && is_turned_sum(x, angles, total) && is_mean(
            total,
            len,
            second,
        );
    let base1 = choose|base: T|
        #![trigger is_bin_step(k, len, base)]
        is_bin_step(k, len, base) && forall|n: int|
            0 <= n < angles1.len() ==> is_stepped_angle(base, n as usize, #[trigger] angles1[n]);
    let base2 = choose|base: T|
        #![trigger is_bin_step(k, len, base)]
        is_bin_step(k, len, base) && forall|n: int|
            0 <= n < angles2.len() ==> is_stepped_angle(base, n as usize, #[trigger] angles2[n]);
    bin_step_is_unique(k, len, base1, base2);
    assert forall|n: int| 0 <= n < angles1.len() implies angles1[n] == angles2[n] by {
        stepped_angle_is_unique(base1, n as usize, angles1[n], angles2[n]);
    }
    assert(angles1 =~= angles2);
    mean_of_turned_sum_is_unique(x, angles1, total1, total2, first, second);
}

/// With such numbers, the samples leave one direct coefficient for each frequency.
pub proof fn direct_bin_is_unique<T: Scalar>(
    x: Seq<Complex<T>>,
    k: usize,
    first: Complex<T>,
    second: Complex<T>,
)
    requires
        is_deterministic::<T>(),
        is_direct_bin(x, k, first),
        is_direct_bin(x, k, second),
    ensures
        first == second,
{
    let len = x.len() as usize;
    let (angles1, total1) = choose|angles: Seq<T>, total: Complex<T>|
        #![trigger is_turned_sum(x, angles, total)]
        is_direct_angles(k, len, angles) && is_turned_sum(x, angles, total) && is_mean(
            total,
            len,
            first,
        );
    let (angles2, total2) = choose|angles: Seq<T>, total: Complex<T>|
        #![trigger is_turned_sum(x, angles, total)]
        is_direct_angles(k, len, angles) && is_turned_sum(x, angles, total) && is_mean(
            total,
            len,
            second,
        );
    assert forall|n: int| 0 <= n < angles1.len() implies angles1[n] == angles2[n] by {
        direct_angle_is_unique(k, n as usize, len, angles1[n], angles2[n]);
    }
    assert(angles1 =~= angles2);
    mean_of_turned_sum_is_unique(x, angles1, total1, total2, first, second);
}

/// The transform does not depend on the order in which its coefficients are computed: with
/// numbers whose operations are functions of their arguments, the samples leave one
/// transform by each strategy.
pub proof fn transform_is_unique<T: Scalar>(
    x: Seq<Complex<T>>,
    first: Seq<Complex<T>>,
    second: Seq<Complex<T>>,
)
    requires
        is_deterministic::<T>(),
        (is_stepped_transform(x, first) && is_stepped_transform(x, second)) || (
        is_direct_transform(x, first) && is_direct_transform(x, second)),
    ensures
        first =~= second,
{
    assert forall|k: int| 0 <= k < x.len() implies first[k] == second[k] by {
        if is_stepped_transform(x, first) && is_stepped_transform(x, second) {
            stepped_bin_is_unique(x, k as usize, first[k], second[k]);
        } else {
            direct_bin_is_unique(x, k as usize, first[k], second[k]);
        }
    }
}

/// The two ways to an angle lead to the same number: `((2π·k) / N) · n` is
/// `((2π·k) · n) / N`. This holds of exact numbers; rounding breaks it.
pub open spec fn angles_agree<T: Scalar>() -> bool {
    forall|k: usize, n: usize, len: usize, base: T, phi: T, psi: T|
        #![trigger is_bin_step(k, len, base), is_stepped_angle(base, n, phi), is_direct_angle(k, n, len, psi)]
        is_bin_step(k, len, base) && is_stepped_angle(base, n, phi) && is_direct_angle(
            k,
            n,
            len,
            psi,
        ) ==> phi == psi
}

/// The two strategies differ in nothing but how an angle is rounded: with numbers whose
/// operations are functions of their arguments, and for which both ways to an angle lead to
/// the same number, the sequential and the parallel transform are equal.
pub proof fn strategies_agree<T: Scalar>(
    x: Seq<Complex<T>>,
    sequential: Seq<Complex<T>>,
    parallel: Seq<Complex<T>>,
)
    requires
        is_deterministic::<T>(),
        angles_agree::<T>(),
        is_stepped_transform(x, sequential),
        is_direct_transform(x, parallel),
    ensures
        sequential =~= parallel,
{
    let len = x.len() as usize;
    assert forall|k: int| 0 <= k < x.len() implies sequential[k] == parallel[k] by {
        let kk = k as usize;
        let (angles1, total1) = choose|angles: Seq<T>, total: Complex<T>|
            #![trigger is_turned_sum(x, angles, total)]
            is_stepped_angles(kk, len, angles) && is_turned_sum(x, angles, total) && is_mean(
                total,
                len,
                sequential[k],
            );
        let (angles2, total2) = choose|angles: Seq<T>, total: Complex<T>|
            #![trigger is_turned_sum(x, angles, total)]
            is_direct_angles(kk, len, angles) && is_turned_sum(x, angles, total) && is_mean(
                total,
                len,
                parallel[k],
            );
        let base = choose|base: T|
            #![trigger is_bin_step(kk, len, base)]
            is_bin_step(kk, len, base) && forall|n: int|
                0 <= n < angles1.len() ==> is_stepped_angle(
                    base,
                    n as usize,
                    #[trigger] angles1[n],
                );
        assert forall|n: int| 0 <= n < angles1.len() implies angles1[n] == angles2[n] by {
            assert(is_stepped_angle(base, n as usize, angles1[n]));
            assert(is_direct_angle(kk, n as usize, len, angles2[n]));
        }
        assert(angles1 =~= angles2);
        mean_of_turned_sum_is_unique(x, angles1, total1, total2, sequential[k], parallel[k]);
    }
}

/// With numbers whose operations are functions of their arguments, the coefficients leave
/// one list of circles.
pub proof fn extraction_is_unique<T: Scalar>(
    coeffs: Seq<Complex<T>>,
    first: Seq<RotatingCircle<T>>,
    second: Seq<RotatingCircle<T>>,
)
    requires
        is_deterministic::<T>(),
        is_extraction(coeffs, first),
        is_extraction(coeffs, second),
    ensures
        first =~= second,
{
    assert forall|k: int| 0 <= k < coeffs.len() implies first[k] == second[k] by {
        assert(is_circle_of(k as usize, coeffs[k], first[k]));
        assert(is_circle_of(k as usize, coeffs[k], second[k]));
        assert(is_hypot(coeffs[k].re, coeffs[k].im, first[k].amplitude));
        assert(is_hypot(coeffs[k].re, coeffs[k].im, second[k].amplitude));
        assert(is_atan2(coeffs[k].im, coeffs[k].re, first[k].phase));
        assert(is_atan2(coeffs[k].im, coeffs[k].re, second[k].phase));
    }
}

/// A path is taken apart in one way: with numbers whose operations are functions of their
/// arguments, the samples leave one list of circles.
pub proof fn decomposition_is_unique<T: Scalar>(
    samples: Seq<Complex<T>>,
    first: Seq<RotatingCircle<T>>,
    second: Seq<RotatingCircle<T>>,
)
    requires
        is_deterministic::<T>(),
        is_decomposition(samples, first),
        is_decomposition(samples, second),
    ensures
        first =~= second,
{
    let coeffs1 = choose|coeffs: Seq<Complex<T>>|
        #![trigger is_extraction(coeffs, first)]
        is_stepped_transform(samples, coeffs) && is_extraction(coeffs, first);
    let coeffs2 = choose|coeffs: Seq<Complex<T>>|
        #![trigger is_extraction(coeffs, second)]
        is_stepped_transform(samples, coeffs) && is_extraction(coeffs, second);
    transform_is_unique(samples, coeffs1, coeffs2);
    extraction_is_unique(coeffs1, first, second);
}

/// With numbers whose operations are functions of their arguments, a circle at a time has
/// one angle.
proof fn turn_angle_is_unique<T: Scalar>(frequency: usize, t: T, phase: T, first: T, second: T)
    requires
        is_deterministic::<T>(),
        is_turn_angle(frequency, t, phase, first),
        is_turn_angle(frequency, t, phase, second),
    ensures
        first == second,
{
    let (ff1, a1, tp1, b1) = choose|ff: T, a: T, tp: T, b: T|
        #![trigger is_product(ff, t, a), is_product(a, tp, b)]
        is_index(frequency, ff) && is_product(ff, t, a) && is_two_pi(tp) && is_product(a, tp, b)
            && is_sum(b, phase, first);
    let (ff2, a2, tp2, b2) = choose|ff: T, a: T, tp: T, b: T|
        #![trigger is_product(ff, t, a), is_product(a, tp, b)]
        is_index(frequency, ff) && is_product(ff, t, a) && is_two_pi(tp) && is_product(a, tp, b)
            && is_sum(b, phase, second);
    assert(ff1 == ff2);
    assert(a1 == a2);
    assert(tp1 == tp2);
    assert(b1 == b2);
}

/// With such numbers, a circle at a time has one arm.
proof fn arm_is_unique<T: Scalar>(circle: RotatingCircle<T>, t: T, first: (T, T), second: (T, T))
    requires
        is_deterministic::<T>(),
        is_arm(circle, t, first),
        is_arm(circle, t, second),
    ensures
        first == second,
{
    let (g1, c1, s1) = choose|angle: T, c: T, s: T|
        #![trigger is_cos(angle, c), is_sin(angle, s)]
        is_turn_angle(circle.frequency, t, circle.phase, angle) && is_cos(angle, c) && is_product(
            circle.amplitude,
            c,
            first.0,
        ) && is_sin(angle, s) && is_product(circle.amplitude, s, first.1);
    let (g2, c2, s2) = choose|angle: T, c: T, s: T|
        #![trigger is_cos(angle, c), is_sin(angle, s)]
        is_turn_angle(circle.frequency, t, circle.phase, angle) && is_cos(angle, c) && is_product(
            circle.amplitude,
            c,
            second.0,
        ) && is_sin(angle, s) && is_product(circle.amplitude, s, second.1);
    turn_angle_is_unique(circle.frequency, t, circle.phase, g1, g2);
    assert(c1 == c2);
    assert(s1 == s2);
}

/// With such numbers, the arm of a circle leads from a point to one point.
proof fn link_is_unique<T: Scalar>(
    circle: RotatingCircle<T>,
    t: T,
    from: (T, T),
    first: (T, T),
    second: (T, T),
)
    requires
        is_deterministic::<T>(),
        is_link(circle, t, from, first),
        is_link(circle, t, from, second),
    ensures
        first == second,
{
    let arm1 = choose|arm: (T, T)|
        #![trigger is_arm(circle, t, arm)]
        is_arm(circle, t, arm) && is_sum(from.0, arm.0, first.0) && is_sum(
            from.1,
            arm.1,
            first.1,
        );
    let arm2 = choose|arm: (T, T)|
        #![trigger is_arm(circle, t, arm)]
        is_arm(circle, t, arm) && is_sum(from.0, arm.0, second.0) && is_sum(
            from.1,
            arm.1,
            second.1,
        );
    arm_is_unique(circle, t, arm1, arm2);
}

/// With such numbers, two chains of the same circles at the same time agree on their first
/// `upto + 1` points.
proof fn chains_agree_upto<T: Scalar>(
    circles: Seq<RotatingCircle<T>>,
    t: T,
    first: Seq<(T, T)>,
    second: Seq<(T, T)>,
    upto: int,
)
    requires
        is_deterministic::<T>(),
        is_chain(circles, t, first),
        is_chain(circles, t, second),
        0 <= upto <= circles.len(),
    ensures
        first[upto] == second[upto],
    decreases upto,
{
    if upto > 0 {
        chains_agree_upto(circles, t, first, second, upto - 1);
        let i = upto - 1;
        assert(is_link(circles[i], t, first[i], first[i + 1]));
        assert(is_link(circles[i], t, second[i], second[i + 1]));
        link_is_unique(circles[i], t, first[i], first[i + 1], second[i + 1]);
    }
}

/// Evaluating twice gives the same points: with numbers whose operations are functions of
/// their arguments, the circles and the time leave one chain, coordinate for coordinate.
pub proof fn chain_is_unique<T: Scalar>(
    circles: Seq<RotatingCircle<T>>,
    t: T,
    first: Seq<(T, T)>,
    second: Seq<(T, T)>,
)
    requires
        is_deterministic::<T>(),
        is_chain(circles, t, first),
        is_chain(circles, t, second),
    ensures
        first =~= second,
{
    assert forall|i: int| 0 <= i < first.len() implies first[i] == second[i] by {
        chains_agree_upto(circles, t, first, second, i);
    }
}

/// The same of the coordinates in one row.
pub proof fn flat_chain_is_unique<T: Scalar>(
    circles: Seq<RotatingCircle<T>>,
    t: T,
    first: Seq<T>,
    second: Seq<T>,
)
    requires
        is_deterministic::<T>(),
        is_flat_chain(circles, t, first),
        is_flat_chain(circles, t, second),
    ensures
        first == second,
{
    let p = choose|points: Seq<(T, T)>|
        #![trigger is_chain(circles, t, points)]
        is_chain(circles, t, points) && first == interleaved(points);
    let q = choose|points: Seq<(T, T)>|
        #![trigger is_chain(circles, t, points)]
        is_chain(circles, t, points) && second == interleaved(points);
    chain_is_unique(circles, t, p, q);
}

} // verus!
