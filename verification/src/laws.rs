//! What holds of every subdivision.

use vstd::prelude::*;
use crate::algebra::lemma_distributes;
use crate::algebra::lemma_regroup_four;
use crate::algebra::lemma_scaled_order;
use crate::algebra::lemma_zero_product;
use crate::grid::common_den;
use crate::grid::grid_fits;
use crate::grid::grid_num;
use crate::grid::grid_point;
use crate::grid::lemma_common_den_positive;
use crate::grid::lemma_grid_num_ends;
use crate::grid::lemma_grid_point_value;
use crate::grid::range_spec;
use crate::grid::sample_value;
use crate::grid::DivisionError;
use crate::ratio::Frac;
use crate::ratio::Ratio;

verus! {

/// What a successful subdivision is made of: defined ends, a positive step
/// count, and samples that are the grid points `1..=n`.
proof fn lemma_unfold(min: Ratio, max: Ratio, n: int, samples: Seq<Ratio>, i: int)
    requires
        range_spec(min, max, n) == Ok::<Seq<Ratio>, DivisionError>(samples),
        0 <= i < n,
    ensures
        min.defined(),
        max.defined(),
        grid_fits(min, max, n),
        0 < min.den * max.den,
        0 < common_den(min, max, n) <= u64::MAX,
        i64::MIN <= grid_num(min, max, n, i + 1) <= i64::MAX,
        samples[i] == grid_point(min, max, n, i + 1),
        samples[i]@.num == grid_num(min, max, n, i + 1),
        samples[i]@.den == common_den(min, max, n),
{
    lemma_common_den_positive(min, max, n);
    assert(i64::MIN <= grid_num(min, max, n, i + 1) <= i64::MAX);
}

/// A subdivision into `n` steps has `n` samples.
pub proof fn law_length(min: Ratio, max: Ratio, n: int, samples: Seq<Ratio>)
    requires
        range_spec(min, max, n) == Ok::<Seq<Ratio>, DivisionError>(samples),
    ensures
        samples.len() == n,
{
}

/// Each sample is a number, and it is the one that the subdivision rule
/// names: the `i`-th sample, counted from zero, lies `i + 1` steps of size
/// `(max - min) / n` above `min`.
pub proof fn law_sample_values(min: Ratio, max: Ratio, n: int, samples: Seq<Ratio>, i: int)
    requires
        range_spec(min, max, n) == Ok::<Seq<Ratio>, DivisionError>(samples),
        0 <= i < n,
    ensures
        samples[i].defined(),
        samples[i]@.same_as(sample_value(min@, max@, n, i + 1)),
{
    lemma_unfold(min, max, n, samples, i);
    lemma_grid_point_value(min, max, n, i + 1);
}

/// The first sample lies one step above the lower end, not on it.
pub proof fn law_first_sample(min: Ratio, max: Ratio, n: int, samples: Seq<Ratio>)
    requires
        range_spec(min, max, n) == Ok::<Seq<Ratio>, DivisionError>(samples),
    ensures
        samples[0]@.same_as(min@.plus(max@.minus(min@).over_int(n))),
{
    law_sample_values(min, max, n, samples, 0);
    let step = max@.minus(min@).over_int(n);
    assert(step.times_int(1) == step) by {
        assert(step.num * 1 == step.num);
    }
}

/// No sample is the lower end, unless the interval has no width: each sample
/// lies on the side of the lower end on which the upper end lies.
pub proof fn law_lower_end_excluded(min: Ratio, max: Ratio, n: int, samples: Seq<Ratio>, i: int)
    requires
        range_spec(min, max, n) == Ok::<Seq<Ratio>, DivisionError>(samples),
        0 <= i < n,
    ensures
        min@.below(max@) ==> min@.below(samples[i]@),
        max@.below(min@) ==> samples[i]@.below(min@),
{
    lemma_unfold(min, max, n, samples, i);
    let a = min.num as int;
    let b = min.den as int;
    let d = max.den as int;
    let width = max.num * min.den - min.num * max.den;
    let steps = (i + 1) * width;
    // Over the denominator `b * common_den` the sample is `steps * b` above the lower end.
    lemma_distributes(b, (a * d) * n, steps);
    lemma_regroup_four(a, b, d, n);
    lemma_scaled_order(0, i + 1, width);
    if 0 < steps {
        lemma_scaled_order(0, steps, b);
    } else if steps < 0 {
        lemma_scaled_order(steps, 0, b);
    }
}

/// The last sample is the upper end itself.
pub proof fn law_last_sample(min: Ratio, max: Ratio, n: int, samples: Seq<Ratio>)
    requires
        range_spec(min, max, n) == Ok::<Seq<Ratio>, DivisionError>(samples),
    ensures
        samples[n - 1]@.same_as(max@),
{
    lemma_unfold(min, max, n, samples, n - 1);
    lemma_grid_num_ends(min, max, n);
    lemma_regroup_four(max.num as int, min.den as int, max.den as int, n);
}

/// The samples run strictly in the direction from the lower end to the upper
/// end: they ascend where `min` is below `max`, descend where `max` is below
/// `min`, and stand still where the two are the same number.
pub proof fn law_strictly_monotonic(
    min: Ratio,
    max: Ratio,
    n: int,
    samples: Seq<Ratio>,
    i: int,
    j: int,
)
    requires
        range_spec(min, max, n) == Ok::<Seq<Ratio>, DivisionError>(samples),
        0 <= i < j < n,
    ensures
        min@.below(max@) ==> samples[i]@.below(samples[j]@),
        max@.below(min@) ==> samples[j]@.below(samples[i]@),
        min@.same_as(max@) ==> samples[i]@.same_as(samples[j]@),
{
    lemma_unfold(min, max, n, samples, i);
    lemma_unfold(min, max, n, samples, j);
    let width = max.num * min.den - min.num * max.den;
    let den = common_den(min, max, n);
    let lower = grid_num(min, max, n, i + 1);
    let upper = grid_num(min, max, n, j + 1);
    lemma_scaled_order(i + 1, j + 1, width);
    if lower < upper {
        lemma_scaled_order(lower, upper, den);
    } else if upper < lower {
        lemma_scaled_order(upper, lower, den);
    }
}

/// Over an interval of no width every sample is the interval's one number.
pub proof fn law_zero_width_constant(min: Ratio, max: Ratio, n: int, samples: Seq<Ratio>, i: int)
    requires
        range_spec(min, max, n) == Ok::<Seq<Ratio>, DivisionError>(samples),
        0 <= i < n,
        min@.same_as(max@),
    ensures
        samples[i]@.same_as(min@),
{
    lemma_unfold(min, max, n, samples, i);
    lemma_zero_product(i + 1, max.num * min.den - min.num * max.den);
    lemma_regroup_four(min.num as int, min.den as int, max.den as int, n);
}

} // verus!
