use epicycles::circles::{arm, complex_to_rotating_circle, evaluate, extract, interleave};
use epicycles::dft::{direct_bin, mean, rotation, stepped_bin, turned_add};
use epicycles::{dtf, dtf_parallel, Complex, RotatingCircle, RotatingCircles, Scalar};

const TWO_PI: f32 = 2.0 * std::f32::consts::PI;

/// Single-precision numbers as the library's scalar.
#[derive(Clone, Copy, Debug, PartialEq)]
struct Real(f32);

impl Scalar for Real {
    fn zero() -> Self {
        Real(0.0)
    }

    fn two_pi() -> Self {
        Real(TWO_PI)
    }

    fn from_index(index: usize) -> Self {
        Real(index as f32)
    }

    fn plus(self, rhs: Self) -> Self {
        Real(self.0 + rhs.0)
    }

    fn minus(self, rhs: Self) -> Self {
        Real(self.0 - rhs.0)
    }

    fn times(self, rhs: Self) -> Self {
        Real(self.0 * rhs.0)
    }

    fn over(self, rhs: Self) -> Self {
        Real(self.0 / rhs.0)
    }

    fn negated(self) -> Self {
        Real(-self.0)
    }

    fn cos(self) -> Self {
        Real(self.0.cos())
    }

    fn sin(self) -> Self {
        Real(self.0.sin())
    }

    fn hypot(self, other: Self) -> Self {
        Real(self.0.hypot(other.0))
    }

    fn atan2(self, other: Self) -> Self {
        Real(self.0.atan2(other.0))
    }
}

fn c(re: f32, im: f32) -> Complex<Real> {
    Complex::new(Real(re), Real(im))
}

fn close(a: f32, b: f32) -> bool {
    (a - b).abs() <= 1e-4
}

fn unit_square() -> Vec<Complex<Real>> {
    vec![c(0.0, 0.0), c(1.0, 0.0), c(1.0, 1.0), c(0.0, 1.0)]
}

/// A closed path of `n` samples: a trefoil-like curve, sampled at equal steps.
fn get_points_of(n: usize) -> Vec<Complex<Real>> {
    let mut points = Vec::new();
    for i in 0..n {
        let a = TWO_PI * i as f32 / n as f32;
        let r = 1.0 + 0.5 * (3.0 * a).cos();
        points.push(c(r * a.cos() + 0.25, r * a.sin() - 0.75));
    }
    points
}

fn get_points() -> Vec<Complex<Real>> {
    get_points_of(24)
}

fn to_num(points: &[Complex<Real>]) -> Vec<num::complex::Complex<f32>> {
    points.iter().map(|p| num::complex::Complex::new(p.re.0, p.im.0)).collect()
}

/// The transform written with `num`'s complex numbers, the step of each bin computed once.
fn dtf_by_num(x: Vec<num::complex::Complex<f32>>) -> Vec<num::complex::Complex<f32>> {
    let mut xks = Vec::new();
    let big_n = x.len();
    for k in 0..big_n {
        let partial_phi = (TWO_PI * k as f32) / big_n as f32;
        let xk: num::complex::Complex<f32> = x
            .iter()
            .enumerate()
            .map(|(n, x)| {
                let phi = partial_phi * n as f32;
                x * num::complex::Complex::new(phi.cos(), -phi.sin())
            })
            .sum();
        xks.push(xk / big_n as f32);
    }
    xks
}

/// The transform written with `num`'s complex numbers, each angle computed on its own.
fn dtf_direct_by_num(x: Vec<num::complex::Complex<f32>>) -> Vec<num::complex::Complex<f32>> {
    let big_n = x.len();
    (0..big_n)
        .map(|k| {
            let xk: num::complex::Complex<f32> = x
                .iter()
                .enumerate()
                .map(|(n, x)| {
                    let phi = (TWO_PI * k as f32 * n as f32) / big_n as f32;
                    x * num::complex::Complex::new(phi.cos(), -phi.sin())
                })
                .sum();
            xk / big_n as f32
        })
        .collect()
}

fn last_point(flat: &[Real]) -> (f32, f32) {
    (flat[flat.len() - 2].0, flat[flat.len() - 1].0)
}

#[test]
fn test_dtf_parallel() {
    let complex = dtf_parallel(get_points());
    println!("{:?}", complex[0]);
}

#[test]
fn test_dtf() {
    let complex = dtf(get_points());
    println!("{:?}", complex[0]);
}

#[test]
fn complex_new_keeps_parts() {
    let z = c(1.5, -2.5);
    assert_eq!(z.re, Real(1.5));
    assert_eq!(z.im, Real(-2.5));
}

#[test]
fn complex_origin_is_zero() {
    let z = Complex::<Real>::origin();
    assert_eq!((z.re.0, z.im.0), (0.0, 0.0));
}

#[test]
fn complex_plus_adds_parts() {
    let z = c(1.0, 2.0).plus(c(3.0, -4.5));
    assert_eq!((z.re.0, z.im.0), (4.0, -2.5));
}

#[test]
fn complex_times_exact() {
    // (1 + 2i)(3 + 4i) = (3 - 8) + (4 + 6)i
    let z = c(1.0, 2.0).times(c(3.0, 4.0));
    assert_eq!((z.re.0, z.im.0), (-5.0, 10.0));
    // i · i = -1
    let z = c(0.0, 1.0).times(c(0.0, 1.0));
    assert_eq!((z.re.0, z.im.0), (-1.0, 0.0));
}

#[test]
fn complex_scaled_multiplies_parts() {
    let z = c(3.0, -9.0).scaled(Real(0.5));
    assert_eq!((z.re.0, z.im.0), (1.5, -4.5));
}

#[test]
fn complex_over_divides_parts() {
    let z = c(3.0, -9.0).over(Real(4.0));
    assert_eq!((z.re.0, z.im.0), (0.75, -2.25));
}

#[test]
fn complex_norm_exact() {
    assert_eq!(c(3.0, 4.0).norm(), Real(5.0));
    assert_eq!(c(0.0, 0.0).norm(), Real(0.0));
    assert_eq!(c(-6.0, 8.0).norm(), Real(10.0));
}

#[test]
fn complex_arg_exact() {
    assert_eq!(c(1.0, 0.0).arg(), Real(0.0));
    assert_eq!(c(0.0, 1.0).arg(), Real(std::f32::consts::FRAC_PI_2));
    assert_eq!(c(-1.0, 0.0).arg(), Real(std::f32::consts::PI));
    assert_eq!(c(0.0, -1.0).arg(), Real(-std::f32::consts::FRAC_PI_2));
}

#[test]
fn complex_arg_stays_in_half_open_turn() {
    for p in get_points_of(37) {
        let a = p.arg().0;
        assert!(a > -std::f32::consts::PI && a <= std::f32::consts::PI);
    }
}

#[test]
fn complex_agrees_with_num_bit_for_bit() {
    let points = get_points_of(11);
    let nums = to_num(&points);
    for i in 0..points.len() {
        for j in 0..points.len() {
            let (a, b) = (points[i], points[j]);
            let (na, nb) = (nums[i], nums[j]);
            let p = a.times(b);
            let np = na * nb;
            assert_eq!((p.re.0.to_bits(), p.im.0.to_bits()), (np.re.to_bits(), np.im.to_bits()));
            let s = a.plus(b);
            let ns = na + nb;
            assert_eq!((s.re.0.to_bits(), s.im.0.to_bits()), (ns.re.to_bits(), ns.im.to_bits()));
            let q = a.over(b.re);
            let nq = na / nb.re;
            assert_eq!((q.re.0.to_bits(), q.im.0.to_bits()), (nq.re.to_bits(), nq.im.to_bits()));
            let m = a.scaled(b.im);
            let nm = na * nb.im;
            assert_eq!((m.re.0.to_bits(), m.im.0.to_bits()), (nm.re.to_bits(), nm.im.to_bits()));
        }
        assert_eq!(points[i].norm().0.to_bits(), nums[i].norm().to_bits());
        assert_eq!(points[i].arg().0.to_bits(), nums[i].arg().to_bits());
    }
}

#[test]
fn rotation_of_zero_angle_is_one() {
    let w = rotation(Real(0.0));
    assert_eq!(w.re.0, 1.0);
    assert_eq!(w.im.0, 0.0);
    assert!(w.im.0.is_sign_negative());
}

#[test]
fn rotation_is_cos_minus_i_sin() {
    let phi = 0.75_f32;
    let w = rotation(Real(phi));
    assert_eq!(w.re.0, phi.cos());
    assert_eq!(w.im.0, -phi.sin());
}

#[test]
fn turned_add_with_zero_angle_adds_the_sample() {
    let next = turned_add(c(2.0, 3.0), Real(0.0), c(10.0, 20.0));
    assert_eq!((next.re.0, next.im.0), (12.0, 23.0));
}

#[test]
fn turned_add_quarter_turn_back() {
    // 1 turned back by a quarter turn is -i.
    let next = turned_add(c(1.0, 0.0), Real(std::f32::consts::FRAC_PI_2), c(0.0, 0.0));
    assert!(close(next.re.0, 0.0));
    assert!(close(next.im.0, -1.0));
}

#[test]
fn mean_divides_by_the_count() {
    let m = mean(c(6.0, -3.0), 4);
    assert_eq!((m.re.0, m.im.0), (1.5, -0.75));
}

#[test]
fn bins_of_unit_square() {
    let square = unit_square();
    let x0 = stepped_bin(&square, 0);
    assert_eq!((x0.re.0, x0.im.0), (0.5, 0.5));
    let d0 = direct_bin(&square, 0);
    assert_eq!((d0.re.0, d0.im.0), (0.5, 0.5));
    // X[1] = ((0) + (1)(-i) + (1+i)(-1) + (i)(i)) / 4 = (-2 - 2i) / 4
    let x1 = stepped_bin(&square, 1);
    assert!(close(x1.re.0, -0.5) && close(x1.im.0, -0.5));
    let d1 = direct_bin(&square, 1);
    assert!(close(d1.re.0, -0.5) && close(d1.im.0, -0.5));
    // X[2] = (0 - 1 + (1+i) - i) / 4 = 0, X[3] = (0 + i - (1+i) + 1) / 4 = 0
    for k in 2..4 {
        let xk = stepped_bin(&square, k);
        assert!(close(xk.re.0, 0.0) && close(xk.im.0, 0.0));
        let dk = direct_bin(&square, k);
        assert!(close(dk.re.0, 0.0) && close(dk.im.0, 0.0));
    }
}

#[test]
fn dtf_of_constant_path_is_its_mean_term() {
    let out = dtf(vec![c(2.0, -1.0); 8]);
    assert_eq!(out.len(), 8);
    assert!(close(out[0].re.0, 2.0) && close(out[0].im.0, -1.0));
    for k in 1..8 {
        assert!(close(out[k].re.0, 0.0) && close(out[k].im.0, 0.0));
    }
}

#[test]
fn dtf_keeps_length() {
    for n in [0usize, 1, 2, 5, 37] {
        assert_eq!(dtf(get_points_of(n)).len(), n);
        assert_eq!(dtf_parallel(get_points_of(n)).len(), n);
    }
}

#[test]
fn dtf_of_nothing_is_nothing() {
    assert!(dtf(Vec::<Complex<Real>>::new()).is_empty());
    assert!(dtf_parallel(Vec::<Complex<Real>>::new()).is_empty());
}

#[test]
fn dtf_of_one_sample_is_the_sample() {
    let out = dtf(vec![c(3.0, -4.0)]);
    assert_eq!(out.len(), 1);
    assert_eq!((out[0].re.0, out[0].im.0), (3.0, -4.0));
    let out = dtf_parallel(vec![c(3.0, -4.0)]);
    assert_eq!(out.len(), 1);
    assert_eq!((out[0].re.0, out[0].im.0), (3.0, -4.0));
    let circles = extract(out);
    assert_eq!(circles[0].amplitude, Real(5.0));
    assert_eq!(circles[0].phase, Real((-4.0_f32).atan2(3.0)));
    assert_eq!(circles[0].frequency, 0);
}

#[test]
fn sequential_and_parallel_agree() {
    for n in [0usize, 1, 2, 5, 37] {
        let points = get_points_of(n);
        let seq = dtf(points.clone());
        let par = dtf_parallel(points);
        assert_eq!(seq.len(), par.len());
        for k in 0..n {
            assert!(close(seq[k].re.0, par[k].re.0), "n = {}, k = {}", n, k);
            assert!(close(seq[k].im.0, par[k].im.0), "n = {}, k = {}", n, k);
        }
    }
}

#[test]
fn dtf_is_each_stepped_bin_in_order() {
    let points = get_points_of(13);
    let out = dtf(points.clone());
    for k in 0..points.len() {
        let bin = stepped_bin(&points, k);
        assert_eq!(out[k].re.0.to_bits(), bin.re.0.to_bits());
        assert_eq!(out[k].im.0.to_bits(), bin.im.0.to_bits());
    }
}

#[test]
fn dtf_parallel_is_each_direct_bin_in_order() {
    let points = get_points_of(101);
    let out = dtf_parallel(points.clone());
    assert_eq!(out.len(), points.len());
    for k in 0..points.len() {
        let bin = direct_bin(&points, k);
        assert_eq!(out[k].re.0.to_bits(), bin.re.0.to_bits());
        assert_eq!(out[k].im.0.to_bits(), bin.im.0.to_bits());
    }
    // the coefficients are not the samples handed in
    assert!((0..points.len()).any(|k| out[k].re != points[k].re || out[k].im != points[k].im));
}

#[test]
fn dtf_agrees_with_num_bit_for_bit() {
    for n in [1usize, 2, 5, 24, 37] {
        let points = get_points_of(n);
        let want = dtf_by_num(to_num(&points));
        let got = dtf(points);
        assert_eq!(got.len(), want.len());
        for k in 0..n {
            assert_eq!(got[k].re.0.to_bits(), want[k].re.to_bits());
            assert_eq!(got[k].im.0.to_bits(), want[k].im.to_bits());
        }
    }
}

#[test]
fn dtf_parallel_agrees_with_num_bit_for_bit() {
    for n in [1usize, 2, 5, 24, 37] {
        let points = get_points_of(n);
        let want = dtf_direct_by_num(to_num(&points));
        let got = dtf_parallel(points);
        assert_eq!(got.len(), want.len());
        for k in 0..n {
            assert_eq!(got[k].re.0.to_bits(), want[k].re.to_bits());
            assert_eq!(got[k].im.0.to_bits(), want[k].im.to_bits());
        }
    }
}

#[test]
fn circle_of_a_coefficient() {
    let circle = complex_to_rotating_circle((7, c(3.0, 4.0)));
    assert_eq!(circle.amplitude, Real(5.0));
    assert_eq!(circle.phase, Real(4.0_f32.atan2(3.0)));
    assert_eq!(circle.frequency, 7);
}

#[test]
fn extract_keeps_length_and_order() {
    for n in [0usize, 1, 2, 5, 37] {
        let coeffs = dtf(get_points_of(n));
        let circles = extract(coeffs.clone());
        assert_eq!(circles.len(), coeffs.len());
        for k in 0..n {
            assert_eq!(circles[k].frequency, k);
            assert_eq!(circles[k].amplitude, coeffs[k].norm());
            assert_eq!(circles[k].phase, coeffs[k].arg());
            assert!(circles[k].amplitude.0 >= 0.0);
            assert!(circles[k].phase.0 > -std::f32::consts::PI);
            assert!(circles[k].phase.0 <= std::f32::consts::PI);
        }
    }
}

#[test]
fn extract_does_not_sort_by_amplitude() {
    let circles = extract(vec![c(0.1, 0.0), c(5.0, 0.0), c(0.0, 2.0)]);
    let amplitudes: Vec<f32> = circles.iter().map(|circle| circle.amplitude.0).collect();
    assert_eq!(amplitudes, vec![0.1, 5.0, 2.0]);
}

#[test]
fn arm_exact() {
    let still = RotatingCircle { amplitude: Real(2.0), phase: Real(0.0), frequency: 0 };
    let d = arm(still, Real(0.3));
    assert_eq!((d.0 .0, d.1 .0), (2.0, 0.0));
    let turning = RotatingCircle { amplitude: Real(1.5), phase: Real(0.25), frequency: 3 };
    let t = 0.125_f32;
    let phi = 3.0 * t * TWO_PI + 0.25;
    let d = arm(turning, Real(t));
    assert_eq!((d.0 .0, d.1 .0), (1.5 * phi.cos(), 1.5 * phi.sin()));
}

#[test]
fn evaluate_starts_at_origin_and_has_one_point_more() {
    for n in [0usize, 1, 2, 5, 37] {
        let circles = extract(dtf(get_points_of(n)));
        for t in [0.0_f32, 0.25, 0.9, 1.0, 7.5, -2.25] {
            let points = evaluate(&circles, Real(t));
            assert_eq!(points.len(), circles.len() + 1);
            assert_eq!(points[0], (Real(0.0), Real(0.0)));
        }
    }
}

#[test]
fn evaluate_sums_the_arms_in_order() {
    let circles = extract(dtf(get_points_of(9)));
    let t = Real(0.4);
    let points = evaluate(&circles, t);
    for i in 0..circles.len() {
        let d = arm(circles[i], t);
        assert_eq!(points[i + 1].0, points[i].0.plus(d.0));
        assert_eq!(points[i + 1].1, points[i].1.plus(d.1));
    }
}

#[test]
fn evaluate_leaves_the_circles_alone() {
    let circles = extract(dtf(get_points_of(9)));
    let before: Vec<(Real, Real, usize)> =
        circles.iter().map(|k| (k.amplitude, k.phase, k.frequency)).collect();
    for t in [0.0_f32, 0.3, 0.6, 12.0] {
        evaluate(&circles, Real(t));
    }
    let after: Vec<(Real, Real, usize)> =
        circles.iter().map(|k| (k.amplitude, k.phase, k.frequency)).collect();
    assert_eq!(before, after);
}

#[test]
fn evaluate_twice_is_bit_identical() {
    let circles = extract(dtf(get_points_of(37)));
    for t in [0.0_f32, 0.123, 0.5, 3.75] {
        let first = evaluate(&circles, Real(t));
        let second = evaluate(&circles, Real(t));
        assert_eq!(first.len(), second.len());
        for i in 0..first.len() {
            assert_eq!(first[i].0 .0.to_bits(), second[i].0 .0.to_bits());
            assert_eq!(first[i].1 .0.to_bits(), second[i].1 .0.to_bits());
        }
    }
}

#[test]
fn evaluate_is_not_wrapped_but_periodic() {
    let circles = extract(dtf(get_points_of(12)));
    let a = evaluate(&circles, Real(0.25));
    let b = evaluate(&circles, Real(1.25));
    let (pa, pb) = (a[a.len() - 1], b[b.len() - 1]);
    assert!((pa.0 .0 - pb.0 .0).abs() <= 1e-3);
    assert!((pa.1 .0 - pb.1 .0).abs() <= 1e-3);
}

#[test]
fn interleave_lays_points_in_one_row() {
    let flat = interleave(&vec![(1, 2), (3, 4), (5, 6)]);
    assert_eq!(flat, vec![1, 2, 3, 4, 5, 6]);
    assert!(interleave(&Vec::<(u8, u8)>::new()).is_empty());
}

#[test]
fn new_has_one_circle_per_sample() {
    for n in [0usize, 1, 2, 5, 37] {
        let points = get_points_of(n);
        let handle = RotatingCircles::new(points.clone());
        let circles = handle.circles();
        assert_eq!(circles.len(), n);
        let want = extract(dtf(points));
        for k in 0..n {
            assert_eq!(circles[k].frequency, k);
            assert_eq!(circles[k].amplitude, want[k].amplitude);
            assert_eq!(circles[k].phase, want[k].phase);
        }
    }
}

#[test]
fn new_copies_its_samples() {
    let mut points = unit_square();
    let handle = RotatingCircles::new(points.clone());
    let before = handle.create_points(Real(0.25));
    points[1] = c(100.0, 100.0);
    let after = handle.create_points(Real(0.25));
    assert_eq!(before, after);
}

#[test]
fn create_points_is_the_chain_in_one_row() {
    let handle = RotatingCircles::new(get_points_of(10));
    for t in [0.0_f32, 0.35, 2.0] {
        let flat = handle.create_points(Real(t));
        let chain = evaluate(handle.circles(), Real(t));
        assert_eq!(flat.len(), 2 * (10 + 1));
        for i in 0..chain.len() {
            assert_eq!(flat[2 * i], chain[i].0);
            assert_eq!(flat[2 * i + 1], chain[i].1);
        }
        assert_eq!((flat[0], flat[1]), (Real(0.0), Real(0.0)));
    }
}

#[test]
fn create_points_of_no_circles_is_the_origin() {
    let handle = RotatingCircles::new(Vec::<Complex<Real>>::new());
    assert!(handle.circles().is_empty());
    for t in [0.0_f32, 0.5, -3.0, 1e6] {
        let flat = handle.create_points(Real(t));
        assert_eq!(flat.len(), 2);
        assert_eq!((flat[0].0, flat[1].0), (0.0, 0.0));
    }
    let flat = handle.create_points(Real(f32::NAN));
    assert_eq!(flat.len(), 2);
    assert_eq!((flat[0].0, flat[1].0), (0.0, 0.0));
}

#[test]
fn create_points_passes_a_time_that_is_no_number_on() {
    let handle = RotatingCircles::new(unit_square());
    for t in [f32::NAN, f32::INFINITY, f32::NEG_INFINITY] {
        let flat = handle.create_points(Real(t));
        assert_eq!(flat.len(), 10);
        assert_eq!((flat[0].0, flat[1].0), (0.0, 0.0));
        let (x, y) = last_point(&flat);
        assert!(!x.is_finite() && !y.is_finite());
    }
}

#[test]
fn round_trip_reaches_every_sample() {
    for n in [1usize, 2, 5, 24, 37] {
        let points = get_points_of(n);
        let handle = RotatingCircles::new(points.clone());
        for i in 0..n {
            let flat = handle.create_points(Real(i as f32 / n as f32));
            let (x, y) = last_point(&flat);
            assert!(close(x, points[i].re.0), "n = {}, i = {}: {} {}", n, i, x, points[i].re.0);
            assert!(close(y, points[i].im.0), "n = {}, i = {}: {} {}", n, i, y, points[i].im.0);
        }
    }
}

#[test]
fn round_trip_over_the_parallel_transform() {
    let points = get_points_of(24);
    let circles = extract(dtf_parallel(points.clone()));
    for i in 0..points.len() {
        let chain = evaluate(&circles, Real(i as f32 / 24.0));
        let end = chain[chain.len() - 1];
        assert!(close(end.0 .0, points[i].re.0));
        assert!(close(end.1 .0, points[i].im.0));
    }
}

#[test]
fn unit_square_round_trip() {
    let square = unit_square();
    let coeffs = dtf(square.clone());
    let circles = extract(coeffs);
    assert_eq!(circles.len(), 4);
    let times = [0.0_f32, 0.25, 0.5, 0.75];
    for i in 0..4 {
        let chain = evaluate(&circles, Real(times[i]));
        assert_eq!(chain.len(), 5);
        let end = chain[4];
        assert!(close(end.0 .0, square[i].re.0), "t = {}: x = {}", times[i], end.0 .0);
        assert!(close(end.1 .0, square[i].im.0), "t = {}: y = {}", times[i], end.1 .0);
    }
}
