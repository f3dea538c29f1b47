//! The forward discrete Fourier transform, by its definition: every coefficient is the mean
//! of the samples, each turned back by its angle.
//!
//! ```text
//! X[k] = (1/N) · Σ x[n] · (cos φ - i·sin φ),   φ = 2π·k·n / N,   n = 0 .. N-1
//! ```

use crate::complex::Complex;
use crate::scalar::{
    is_cos, is_index, is_negation, is_product, is_quotient, is_sin, is_two_pi, Scalar,
};
use rayon::iter::{IntoParallelIterator, ParallelIterator};
use vstd::prelude::*;

verus! {

/// `base` is the angle between neighbouring samples in bin `k` of `len`: `(2π·k) / len`.
pub open spec fn is_bin_step<T: Scalar>(k: usize, len: usize, base: T) -> bool {
    exists|tp: T, kf: T, m: T, lf: T|
        #![trigger is_product(tp, kf, m), is_quotient(m, lf, base)]
        {
            &&& is_two_pi(tp)
            &&& is_index(k, kf)
            &&& is_product(tp, kf, m)
            &&& is_index(len, lf)
            &&& is_quotient(m, lf, base)
        }
}

/// `phi` is the angle of sample `n` in a bin whose step is `base`: `base · n`.
pub open spec fn is_stepped_angle<T: Scalar>(base: T, n: usize, phi: T) -> bool {
    exists|nf: T| #![trigger is_index(n, nf)] is_index(n, nf) && is_product(base, nf, phi)
}

/// `phi` is the angle of sample `n` in bin `k` of `len`, multiplied out before it is
/// divided: `((2π·k) · n) / len`.
pub open spec fn is_direct_angle<T: Scalar>(k: usize, n: usize, len: usize, phi: T) -> bool {
    exists|tp: T, kf: T, a: T, nf: T, b: T, lf: T|
        #![trigger is_product(tp, kf, a), is_product(a, nf, b), is_quotient(b, lf, phi)]
        {
            &&& is_two_pi(tp)
            &&& is_index(k, kf)
            &&& is_product(tp, kf, a)
            &&& is_index(n, nf)
            &&& is_product(a, nf, b)
            &&& is_index(len, lf)
            &&& is_quotient(b, lf, phi)
        }
}

/// `w` is the rotation factor of the angle `phi`: `cos φ - i·sin φ`.
pub open spec fn is_rotation<T: Scalar>(phi: T, w: Complex<T>) -> bool {
    exists|s: T| #![trigger is_sin(phi, s)] is_cos(phi, w.re) && is_sin(phi, s) && is_negation(s, w.im)
}

/// `next` is `acc` plus the sample `x` turned back by `phi`.
pub open spec fn is_turned_add<T: Scalar>(
    x: Complex<T>,
    phi: T,
    acc: Complex<T>,
    next: Complex<T>,
) -> bool {
    exists|w: Complex<T>, term: Complex<T>|
        #![trigger Complex::is_product(x, w, term)]
        is_rotation(phi, w) && Complex::is_product(x, w, term) && Complex::is_sum(acc, term, next)
}

/// `sums` are the running totals over the first `angles.len()` samples of `x`, from the
/// origin on, sample `n` turned back by `angles[n]`.
pub open spec fn is_running_sum<T: Scalar>(
    x: Seq<Complex<T>>,
    angles: Seq<T>,
    sums: Seq<Complex<T>>,
) -> bool {
    &&& angles.len() <= x.len()
    &&& sums.len() == angles.len() + 1
    &&& Complex::is_origin(sums[0])
    &&& forall|n: int|
        0 <= n < angles.len() ==> is_turned_add(x[n], #[trigger] angles[n], sums[n], sums[n + 1])
}

/// `total` is the sum of all samples of `x`, taken in order from the origin on, sample `n`
/// turned back by `angles[n]`.
pub open spec fn is_turned_sum<T: Scalar>(
    x: Seq<Complex<T>>,
    angles: Seq<T>,
    total: Complex<T>,
) -> bool {
    &&& angles.len() == x.len()
    &&& exists|sums: Seq<Complex<T>>|
        #![trigger is_running_sum(x, angles, sums)]
        is_running_sum(x, angles, sums) && sums[x.len() as int] == total
}

/// `c` is `total` divided by the number of samples.
pub open spec fn is_mean<T: Scalar>(total: Complex<T>, len: usize, c: Complex<T>) -> bool {
    exists|lf: T| #![trigger is_index(len, lf)] is_index(len, lf) && Complex::is_quotient(total, lf, c)
}

/// `angles` are the angles of bin `k` over `len` samples, each a multiple of one step.
pub open spec fn is_stepped_angles<T: Scalar>(k: usize, len: usize, angles: Seq<T>) -> bool {
    exists|base: T|
        #![trigger is_bin_step(k, len, base)]
        is_bin_step(k, len, base) && forall|n: int|
            0 <= n < angles.len() ==> is_stepped_angle(base, n as usize, #[trigger] angles[n])
}

/// `angles` are the angles of bin `k` over `len` samples, each computed on its own.
pub open spec fn is_direct_angles<T: Scalar>(k: usize, len: usize, angles: Seq<T>) -> bool {
    forall|n: int|
        0 <= n < angles.len() ==> is_direct_angle(k, n as usize, len, #[trigger] angles[n])
}

/// `c` is coefficient `k` of `x`, its angles taken as multiples of the bin's step.
pub open spec fn is_stepped_bin<T: Scalar>(x: Seq<Complex<T>>, k: usize, c: Complex<T>) -> bool {
    exists|angles: Seq<T>, total: Complex<T>|
        #![trigger is_turned_sum(x, angles, total)]
        {
            &&& is_stepped_angles(k, x.len() as usize, angles)
            &&& is_turned_sum(x, angles, total)
            &&& is_mean(total, x.len() as usize, c)
        }
}

/// `c` is coefficient `k` of `x`, each of its angles computed on its own.
pub open spec fn is_direct_bin<T: Scalar>(x: Seq<Complex<T>>, k: usize, c: Complex<T>) -> bool {
    exists|angles: Seq<T>, total: Complex<T>|
        #![trigger is_turned_sum(x, angles, total)]
        {
            &&& is_direct_angles(k, x.len() as usize, angles)
            &&& is_turned_sum(x, angles, total)
            &&& is_mean(total, x.len() as usize, c)
        }
}

/// `out` is the transform of `x`, one stepped coefficient per sample, in the order of the
/// frequencies.
pub open spec fn is_stepped_transform<T: Scalar>(
    x: Seq<Complex<T>>,
    out: Seq<Complex<T>>,
) -> bool {
    &&& out.len() == x.len()
    &&& forall|k: int| 0 <= k < x.len() ==> is_stepped_bin(x, k as usize, #[trigger] out[k])
}

/// `out` is the transform of `x`, one direct coefficient per sample, in the order of the
/// frequencies.
pub open spec fn is_direct_transform<T: Scalar>(
    x: Seq<Complex<T>>,
    out: Seq<Complex<T>>,
) -> bool {
    &&& out.len() == x.len()
    &&& forall|k: int| 0 <= k < x.len() ==> is_direct_bin(x, k as usize, #[trigger] out[k])
}

/// The rotation factor of an angle: `cos φ - i·sin φ`.
pub fn rotation<T: Scalar>(phi: T) -> (w: Complex<T>)
    ensures
        is_rotation(phi, w),
{
    let s = phi.sin();
    proof {
        assert(is_sin(phi, s));
    }
    Complex::new(phi.cos(), s.negated())
}

/// Adds to `acc` the sample `x` turned back by the angle `phi`.
pub fn turned_add<T: Scalar>(x: Complex<T>, phi: T, acc: Complex<T>) -> (next: Complex<T>)
    ensures
        is_turned_add(x, phi, acc, next),
{
    let w = rotation(phi);
    let term = x.times(w);
    acc.plus(term)
}

/// Divides a bin's total by the number of samples.
pub fn mean<T: Scalar>(total: Complex<T>, len: usize) -> (c: Complex<T>)
    ensures
        is_mean(total, len, c),
{
    let lf = T::from_index(len);
    proof {
        assert(is_index(len, lf));
    }
    total.over(lf)
}

/// Coefficient `k` of the samples `x`. The angle of sample `n` is `n` times the bin's step
/// `2π·k / N`, which is computed once.
pub fn stepped_bin<T: Scalar>(x: &Vec<Complex<T>>, k: usize) -> (c: Complex<T>)
    ensures
        is_stepped_bin(x@, k, c),
{
    let len: usize = x.len();
    let tp = T::two_pi();
    let kf = T::from_index(k);
    let m = tp.times(kf);
    let lf = T::from_index(len);
    let base = m.over(lf);
    proof {
        assert(is_product(tp, kf, m) && is_quotient(m, lf, base));
    }
    let mut acc = Complex::origin();
    let ghost mut angles: Seq<T> = Seq::empty();
    let ghost mut sums: Seq<Complex<T>> = seq![acc];
    let mut n: usize = 0;
    while n < len
        invariant
            len == x@.len(),
            n <= len,
            angles.len() == n,
            is_bin_step(k, len, base),
            is_running_sum(x@, angles, sums),
            forall|j: int| 0 <= j < n ==> is_stepped_angle(base, j as usize, #[trigger] angles[j]),
            acc == sums[n as int],
        decreases len - n,
    {
        let nf = T::from_index(n);
        let phi = base.times(nf);
        let next = turned_add(x[n], phi, acc);
        proof {
            assert(is_index(n, nf));
            assert(is_stepped_angle(base, n, phi));
            angles = angles.push(phi);
            sums = sums.push(next);
        }
        acc = next;
        n = n + 1;
    }
    proof {
        assert(is_turned_sum(x@, angles, acc));
        assert(is_stepped_angles(k, len, angles));
    }
    mean(acc, len)
}

/// Coefficient `k` of the samples `x`. The angle of sample `n` is computed on its own, as
/// `2π·k·n / N`, so that no bin shares work with another.
pub fn direct_bin<T: Scalar>(x: &Vec<Complex<T>>, k: usize) -> (c: Complex<T>)
    ensures
        is_direct_bin(x@, k, c),
{
    let len: usize = x.len();
    let mut acc = Complex::origin();
    let ghost mut angles: Seq<T> = Seq::empty();
    let ghost mut sums: Seq<Complex<T>> = seq![acc];
    let mut n: usize = 0;
    while n < len
        invariant
            len == x@.len(),
            n <= len,
            angles.len() == n,
            is_running_sum(x@, angles, sums),
            is_direct_angles(k, len, angles),
            acc == sums[n as int],
        decreases len - n,
    {
        let tp = T::two_pi();
        let kf = T::from_index(k);
        let a = tp.times(kf);
        let nf = T::from_index(n);
        let b = a.times(nf);
        let lf = T::from_index(len);
        let phi = b.over(lf);
        let next = turned_add(x[n], phi, acc);
        proof {
            assert(is_product(tp, kf, a) && is_product(a, nf, b) && is_quotient(b, lf, phi));
            assert(is_direct_angle(k, n, len, phi));
            angles = angles.push(phi);
            sums = sums.push(next);
        }
        acc = next;
        n = n + 1;
    }
    proof {
        assert(is_turned_sum(x@, angles, acc));
    }
    mean(acc, len)
}

/// The forward transform of the samples `x`, one coefficient after the other.
///
/// The result has a coefficient for every sample, at the index of its frequency; it is
/// empty for no samples, and nothing is divided then.
pub fn dtf<T: Scalar>(x: Vec<Complex<T>>) -> (xks: Vec<Complex<T>>)
    ensures
        is_stepped_transform(x@, xks@),
{
    let mut xks: Vec<Complex<T>> = Vec::new();
    let big_n: usize = x.len();
    let mut k: usize = 0;
    while k < big_n
        invariant
            big_n == x@.len(),
            k <= big_n,
            xks@.len() == k,
            forall|j: int| 0 <= j < k ==> is_stepped_bin(x@, j as usize, #[trigger] xks@[j]),
        decreases big_n - k,
    {
        let xk = stepped_bin(&x, k);
        xks.push(xk);
        k = k + 1;
    }
    xks
}

/// Calls rayon's `into_par_iter` on the range of the bins, `map` with [`direct_bin`] and
/// `collect` into a `Vec`. Not proved, but claimed of rayon as it documents an indexed
/// parallel iterator: the vector holds one item for each index of the range, at that index,
/// and the item is what the mapped function returned for the index, whichever worker
/// computed it. What [`direct_bin`] returns is its own, proved contract.
#[verifier::external_body]
fn par_direct_bins<T: Scalar + Send + Sync>(x: &Vec<Complex<T>>) -> (xks: Vec<Complex<T>>)
    ensures
        is_direct_transform(x@, xks@),
{
    (0..x.len()).into_par_iter().map(|k: usize| direct_bin(x, k)).collect()
}

/// The forward transform of the samples `x`, the coefficients computed side by side on a
/// pool of workers.
///
/// Every coefficient depends on the samples alone, and lands at the index of its frequency,
/// so the result does not depend on which worker finishes first.
pub fn dtf_parallel<T: Scalar + Send + Sync>(x: Vec<Complex<T>>) -> (xks: Vec<Complex<T>>)
    ensures
        is_direct_transform(x@, xks@),
{
    par_direct_bins(&x)
}

} // verus!
