//! Evaluating a function at the samples of an interval.

use vstd::prelude::*;
use crate::grid::range;
use crate::grid::range_spec;
use crate::grid::DivisionError;
use crate::ratio::Ratio;

verus! {

/// The number of samples taken where the caller has no count of its own.
pub const DEFAULT_SAMPLES: usize = 100;

/// Why a function could not be sampled.
#[derive(Debug, PartialEq, Eq)]
pub enum SampleError<E> {
    /// The interval has no step size.
    Division(DivisionError),
    /// The function failed at a sample; this is its error, unchanged.
    Evaluation(E),
}

/// Whether `f` can return a value at `x`.
pub open spec fn may_succeed<F, E>(f: F, x: Ratio) -> bool where F: Fn(Ratio) -> Result<Ratio, E> {
    exists|y: Ratio| f.ensures((x,), Ok::<Ratio, E>(y))
}

/// Whether `f` can fail with `e` at `xs[i]` after it has returned a value at
/// each of the samples before it.
pub open spec fn fails_first_at<F, E>(f: F, xs: Seq<Ratio>, i: int, e: E) -> bool where
    F: Fn(Ratio) -> Result<Ratio, E>,
 {
    &&& 0 <= i < xs.len()
    &&& f.ensures((xs[i],), Err::<Ratio, E>(e))
    &&& forall|j: int| 0 <= j < i ==> may_succeed(f, #[trigger] xs[j])
}

/// What evaluating `f` at the samples `xs`, in order, may come to: a pair for
/// each sample, or the error of the first failure.
pub open spec fn evaluated<F, E>(
    f: F,
    xs: Seq<Ratio>,
    result: Result<Vec<(Ratio, Ratio)>, SampleError<E>>,
) -> bool where F: Fn(Ratio) -> Result<Ratio, E> {
    match result {
        Ok(points) => {
            &&& points.len() == xs.len()
            &&& forall|i: int|
                0 <= i < xs.len() ==> (#[trigger] points[i]).0 == xs[i] && f.ensures(
                    (xs[i],),
                    Ok::<Ratio, E>(points[i].1),
                )
        },
        Err(SampleError::Evaluation(e)) => exists|i: int| fails_first_at(f, xs, i, e),
        Err(SampleError::Division(_)) => false,
    }
}

/// Evaluates `f` at each sample of the interval `range_x` cut into `n` equal
/// steps, and returns the pairs `(x, f(x))` in the order of the samples.
///
/// The samples are those of [`range`]. The first failure of `f` ends the
/// evaluation: its error is returned and no pair is.
pub fn sample_function<F, E>(f: F, range_x: (Ratio, Ratio), n: usize) -> (result: Result<
    Vec<(Ratio, Ratio)>,
    SampleError<E>,
>) where F: Fn(Ratio) -> Result<Ratio, E>
    requires
        range_spec(range_x.0, range_x.1, n as int) matches Ok(xs) ==> forall|i: int|
            0 <= i < xs.len() ==> f.requires((#[trigger] xs[i],)),
    ensures
        match range_spec(range_x.0, range_x.1, n as int) {
            Err(e) => result == Err::<Vec<(Ratio, Ratio)>, SampleError<E>>(
                SampleError::Division(e),
            ),
            Ok(xs) => evaluated(f, xs, result),
        },
{
    let xs = match range(range_x.0, range_x.1, n) {
        Ok(xs) => xs,
        Err(e) => {
            return Err(SampleError::Division(e));
        },
    };
    assert(range_spec(range_x.0, range_x.1, n as int)->Ok_0 == xs@);
    let mut points: Vec<(Ratio, Ratio)> = Vec::new();
    let mut i: usize = 0;
    while i < n
        invariant
            i <= n,
            xs.len() == n,
            range_spec(range_x.0, range_x.1, n as int) == Ok::<Seq<Ratio>, DivisionError>(xs@),
            points.len() == i,
            forall|j: int| 0 <= j < xs.len() ==> f.requires((#[trigger] xs[j],)),
            forall|j: int|
                0 <= j < i ==> (#[trigger] points[j]).0 == xs[j] && f.ensures(
                    (xs[j],),
                    Ok(points[j].1),
                ),
        decreases n - i,
    {
        let x = xs[i];
        match f(x) {
            Ok(y) => {
                points.push((x, y));
            },
            Err(e) => {
                proof {
                    assert forall|j: int| 0 <= j < i implies may_succeed(f, #[trigger] xs@[j]) by {
                        assert(f.ensures((xs@[j],), Ok(points[j].1)));
                    }
                    assert(fails_first_at(f, xs@, i as int, e));
                }
                let failed = Err(SampleError::Evaluation(e));
                assert(fails_first_at(f, xs@, i as int, failed->Err_0->Evaluation_0));
                return failed;
            },
        }
        i = i + 1;
    }
    Ok(points)
}

} // verus!
