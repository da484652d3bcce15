//! Cutting an interval into equal steps.

use vstd::prelude::*;
use crate::algebra::lemma_distributes;
use crate::algebra::lemma_factor_within;
use crate::algebra::lemma_positive_product;
use crate::algebra::lemma_product_bounds;
use crate::algebra::lemma_regroup_four;
use crate::algebra::lemma_regroup_three;
use crate::laws::law_first_sample;
use crate::laws::law_last_sample;
use crate::laws::law_lower_end_excluded;
use crate::laws::law_sample_values;
use crate::laws::law_strictly_monotonic;
use crate::laws::law_zero_width_constant;
use crate::ratio::Frac;
use crate::ratio::Ratio;

verus! {

/// Why an interval has no step size.
#[derive(Clone, Copy, Debug, PartialEq, Eq, Structural)]
pub enum DivisionError {
    /// The interval was to be cut into zero steps.
    ZeroCount,
    /// An end of the interval is undefined.
    UndefinedEndpoint,
    /// A sample, written over the denominator that all samples share, does
    /// not fit in a [`Ratio`].
    Unrepresentable,
}

/// The `k`-th sample of the interval from `min` to `max` cut into `n` steps:
/// `k` steps of size `(max - min) / n` above `min`.
pub open spec fn sample_value(min: Frac, max: Frac, n: int, k: int) -> Frac {
    min.plus(max.minus(min).over_int(n).times_int(k))
}

/// The denominator that all samples of one interval share.
pub open spec fn common_den(min: Ratio, max: Ratio, n: int) -> int {
    min.den * max.den * n
}

/// The numerator of the `k`-th sample over [`common_den`].
pub open spec fn grid_num(min: Ratio, max: Ratio, n: int, k: int) -> int {
    min.num * max.den * n + k * (max.num * min.den - min.num * max.den)
}

/// Whether each of the samples `1..=n` fits in a [`Ratio`].
pub open spec fn grid_fits(min: Ratio, max: Ratio, n: int) -> bool {
    &&& common_den(min, max, n) <= u64::MAX
    &&& forall|k: int|
        1 <= k <= n ==> i64::MIN <= #[trigger] grid_num(min, max, n, k) <= i64::MAX
}

/// The `k`-th sample, as it is stored.
pub open spec fn grid_point(min: Ratio, max: Ratio, n: int, k: int) -> Ratio {
    Ratio { num: grid_num(min, max, n, k) as i64, den: common_den(min, max, n) as u64 }
}

/// What [`range`] returns.
pub open spec fn range_spec(min: Ratio, max: Ratio, n: int) -> Result<Seq<Ratio>, DivisionError> {
    if n <= 0 {
        Err(DivisionError::ZeroCount)
    } else if !min.defined() || !max.defined() {
        Err(DivisionError::UndefinedEndpoint)
    } else if !grid_fits(min, max, n) {
        Err(DivisionError::Unrepresentable)
    } else {
        Ok(Seq::new(n as nat, |i: int| grid_point(min, max, n, i + 1)))
    }
}

/// The numerators of the first and of the last sample, in the form in which
/// they are computed.
pub(crate) proof fn lemma_grid_num_ends(min: Ratio, max: Ratio, n: int)
    ensures
        grid_num(min, max, n, 1) == (n - 1) * (min.num * max.den) + max.num * min.den,
        grid_num(min, max, n, n) == n * (max.num * min.den),
{
    let a = min.num * max.den;
    let b = max.num * min.den;
    assert(a * n + 1 * (b - a) == (n - 1) * a + b) by (nonlinear_arith);
    assert(a * n + n * (b - a) == n * b) by (nonlinear_arith);
}

/// From one sample to the next the numerator grows by the interval's width.
proof fn lemma_grid_num_step(min: Ratio, max: Ratio, n: int, k: int)
    ensures
        grid_num(min, max, n, k + 1) == grid_num(min, max, n, k) + (max.num * min.den - min.num
            * max.den),
{
    let d = max.num * min.den - min.num * max.den;
    assert((k + 1) * d == k * d + d) by (nonlinear_arith);
}

/// Every sample's numerator lies between the first one's and the last one's.
proof fn lemma_grid_num_between(min: Ratio, max: Ratio, n: int, k: int)
    requires
        1 <= k <= n,
    ensures
        grid_num(min, max, n, 1) <= grid_num(min, max, n, k) <= grid_num(min, max, n, n)
            || grid_num(min, max, n, n) <= grid_num(min, max, n, k) <= grid_num(min, max, n, 1),
{
    let d = max.num * min.den - min.num * max.den;
    assert((1 * d <= k * d <= n * d) || (n * d <= k * d <= 1 * d)) by (nonlinear_arith)
        requires
            1 <= k <= n,
    ;
}

/// The denominator that the samples share is positive.
pub(crate) proof fn lemma_common_den_positive(min: Ratio, max: Ratio, n: int)
    requires
        min.defined(),
        max.defined(),
        0 < n,
    ensures
        0 < min.den * max.den,
        0 < common_den(min, max, n),
{
    lemma_positive_product(min.den as int, max.den as int);
    lemma_positive_product(min.den * max.den, n);
}

/// A stored sample denotes the number that the subdivision rule gives:
/// `k` steps of size `(max - min) / n` above `min`.
pub(crate) proof fn lemma_grid_point_value(min: Ratio, max: Ratio, n: int, k: int)
    requires
        min.defined(),
        max.defined(),
        0 < n,
        common_den(min, max, n) <= u64::MAX,
        i64::MIN <= grid_num(min, max, n, k) <= i64::MAX,
    ensures
        grid_point(min, max, n, k).defined(),
        sample_value(min@, max@, n, k).defined(),
        grid_point(min, max, n, k)@.same_as(sample_value(min@, max@, n, k)),
{
    let a = min.num as int;
    let b = min.den as int;
    let c = max.num as int;
    let d = max.den as int;
    let width = c * b - a * d;
    let num = grid_num(min, max, n, k);
    let den = common_den(min, max, n);
    let rule = sample_value(min@, max@, n, k);
    lemma_common_den_positive(min, max, n);
    assert(grid_point(min, max, n, k)@ == Frac { num, den });
    assert(num == (a * d) * n + k * width);
    // The rule's fraction is the stored one with `b` more in both parts.
    assert(rule.num == a * ((d * b) * n) + (width * k) * b);
    assert(rule.den == b * ((d * b) * n));
    lemma_regroup_three(d, b, n);
    lemma_regroup_four(a, b, d, n);
    lemma_regroup_three(width, k, b);
    lemma_distributes(b, (a * d) * n, k * width);
    assert(rule.num == b * num);
    assert(rule.den == b * den);
    lemma_positive_product(b, den);
    lemma_regroup_three(num, b, den);
}

/// The denominator that the samples share, or `None` where it does not fit.
fn shared_denominator(min: Ratio, max: Ratio, n: usize) -> (den: Option<u64>)
    requires
        n > 0,
    ensures
        den matches Some(d) ==> d == common_den(min, max, n as int),
        den is None ==> common_den(min, max, n as int) > u64::MAX,
{
    match min.den.checked_mul(max.den) {
        Some(both) => {
            both.checked_mul(n as u64)
        },
        None => {
            assert(min.den * max.den * n >= min.den * max.den) by (nonlinear_arith)
                requires
                    n >= 1,
                    min.den * max.den >= 0,
            ;
            None
        },
    }
}

/// The numerator of the first sample and the distance from one numerator to
/// the next, or `None` where the first or the last numerator does not fit.
fn first_and_step(min: Ratio, max: Ratio, n: usize) -> (found: Option<(i64, i128)>)
    requires
        n > 0,
    ensures
        found matches Some((first, step)) ==> {
            &&& first == grid_num(min, max, n as int, 1)
            &&& i64::MIN <= grid_num(min, max, n as int, n as int) <= i64::MAX
            &&& n >= 2 ==> step == max.num * min.den - min.num * max.den
        },
        found is None ==> !(i64::MIN <= grid_num(min, max, n as int, 1) <= i64::MAX && i64::MIN
            <= grid_num(min, max, n as int, n as int) <= i64::MAX),
{
    proof {
        lemma_product_bounds(min.num as int, max.den as int);
        lemma_product_bounds(max.num as int, min.den as int);
        lemma_grid_num_ends(min, max, n as int);
    }
    let a: i128 = (min.num as i128) * (max.den as i128);
    let b: i128 = (max.num as i128) * (min.den as i128);
    let last: i128 = match b.checked_mul(n as i128) {
        Some(last) => last,
        None => {
            assert((n as int) * (b as int) == (b as int) * (n as int)) by (nonlinear_arith);
            return None;
        },
    };
    assert(last == (n as int) * (b as int)) by (nonlinear_arith)
        requires
            last == (b as int) * (n as int),
    ;
    if last < i64::MIN as i128 || last > i64::MAX as i128 {
        return None;
    }
    proof {
        lemma_factor_within(n as int, b as int, i64::MIN as int, i64::MAX as int);
    }
    let rest: i128 = match a.checked_mul((n - 1) as i128) {
        Some(rest) => rest,
        None => {
            assert((n - 1) * (a as int) == (a as int) * ((n - 1) as int)) by (nonlinear_arith);
            return None;
        },
    };
    assert(rest == (n - 1) * (a as int)) by (nonlinear_arith)
        requires
            rest == (a as int) * ((n - 1) as int),
    ;
    let first: i128 = match rest.checked_add(b) {
        Some(first) => first,
        None => {
            return None;
        },
    };
    if first < i64::MIN as i128 || first > i64::MAX as i128 {
        return None;
    }
    let step: i128 = if n >= 2 {
        proof {
            lemma_factor_within(
                n - 1,
                a as int,
                -0x1_0000_0000_0000_0000,
                0x1_0000_0000_0000_0000,
            );
        }
        b - a
    } else {
        0
    };
    Some((first as i64, step))
}

/// Cuts the interval from `min_val` to `max_val` into `n` equal steps and
/// returns the right edge of each step, in order: the first sample is one
/// step away from `min_val`, the last one is `max_val`. Where `max_val` is
/// below `min_val` the samples descend.
///
/// All samples are written over one denominator, [`common_den`].
pub fn range(min_val: Ratio, max_val: Ratio, n: usize) -> (result: Result<Vec<Ratio>, DivisionError>)
    ensures
        match result {
            Ok(samples) => range_spec(min_val, max_val, n as int) == Ok::<
                Seq<Ratio>,
                DivisionError,
            >(samples@),
            Err(e) => range_spec(min_val, max_val, n as int) == Err::<Seq<Ratio>, DivisionError>(e),
        },
        n == 0 <==> result == Err::<Vec<Ratio>, DivisionError>(DivisionError::ZeroCount),
        result matches Ok(samples) ==> {
            &&& samples.len() == n
            &&& forall|i: int|
                0 <= i < n ==> (#[trigger] samples[i]).defined() && samples[i]@.same_as(
                    sample_value(min_val@, max_val@, n as int, i + 1),
                )
            &&& samples[0]@.same_as(min_val@.plus(max_val@.minus(min_val@).over_int(n as int)))
            &&& samples[n - 1]@.same_as(max_val@)
            &&& forall|i: int|
                0 <= i < n ==> {
                    &&& min_val@.below(max_val@) ==> min_val@.below((#[trigger] samples[i])@)
                    &&& max_val@.below(min_val@) ==> samples[i]@.below(min_val@)
                }
            &&& forall|i: int, j: int|
                0 <= i < j < n ==> {
                    &&& min_val@.below(max_val@) ==> (#[trigger] samples[i])@.below(
                        (#[trigger] samples[j])@,
                    )
                    &&& max_val@.below(min_val@) ==> samples[j]@.below(samples[i]@)
                }
            &&& min_val@.same_as(max_val@) ==> forall|i: int|
                0 <= i < n ==> (#[trigger] samples[i])@.same_as(min_val@)
        },
{
    if n == 0 {
        return Err(DivisionError::ZeroCount);
    }
    if min_val.den == 0 || max_val.den == 0 {
        return Err(DivisionError::UndefinedEndpoint);
    }
    let den: u64 = match shared_denominator(min_val, max_val, n) {
        Some(den) => den,
        None => {
            return Err(DivisionError::Unrepresentable);
        },
    };
    let (first, step_up): (i64, i128) = match first_and_step(min_val, max_val, n) {
        Some(found) => found,
        None => {
            return Err(DivisionError::Unrepresentable);
        },
    };
    assert(grid_fits(min_val, max_val, n as int)) by {
        assert forall|k: int| 1 <= k <= n implies i64::MIN <= #[trigger] grid_num(
            min_val,
            max_val,
            n as int,
            k,
        ) <= i64::MAX by {
            lemma_grid_num_between(min_val, max_val, n as int, k);
        }
    }
    let ghost step: int = max_val.num * min_val.den - min_val.num * max_val.den;
    let mut samples: Vec<Ratio> = Vec::new();
    let mut next: i128 = first as i128;
    let mut i: usize = 0;
    while i < n
        invariant
            0 < n,
            i <= n,
            samples.len() == i,
            grid_fits(min_val, max_val, n as int),
            den == common_den(min_val, max_val, n as int),
            n >= 2 ==> step_up == step,
            step == max_val.num * min_val.den - min_val.num * max_val.den,
            i < n ==> next == grid_num(min_val, max_val, n as int, i + 1),
            forall|j: int|
                0 <= j < i ==> samples[j] == #[trigger] grid_point(min_val, max_val, n as int, j + 1),
        decreases n - i,
    {
        assert(i64::MIN <= grid_num(min_val, max_val, n as int, i + 1) <= i64::MAX);
        samples.push(Ratio { num: next as i64, den });
        i = i + 1;
        if i < n {
            proof {
                lemma_grid_num_step(min_val, max_val, n as int, i as int);
                assert(i64::MIN <= grid_num(min_val, max_val, n as int, i + 1) <= i64::MAX);
            }
            next = next + step_up;
        }
    }
    proof {
        let found = samples@;
        assert(found =~= Seq::new(n as nat, |i: int| grid_point(min_val, max_val, n as int, i + 1)));
        assert(range_spec(min_val, max_val, n as int) == Ok::<Seq<Ratio>, DivisionError>(found));
        assert forall|i: int| 0 <= i < n implies (#[trigger] found[i]).defined()
            && found[i]@.same_as(sample_value(min_val@, max_val@, n as int, i + 1)) by {
            law_sample_values(min_val, max_val, n as int, found, i);
        }
        assert forall|i: int| 0 <= i < n implies {
            &&& min_val@.below(max_val@) ==> min_val@.below((#[trigger] found[i])@)
            &&& max_val@.below(min_val@) ==> found[i]@.below(min_val@)
        } by {
            law_lower_end_excluded(min_val, max_val, n as int, found, i);
        }
        law_first_sample(min_val, max_val, n as int, found);
        law_last_sample(min_val, max_val, n as int, found);
        assert forall|i: int, j: int| 0 <= i < j < n implies {
            &&& min_val@.below(max_val@) ==> (#[trigger] found[i])@.below((#[trigger] found[j])@)
            &&& max_val@.below(min_val@) ==> found[j]@.below(found[i]@)
        } by {
            law_strictly_monotonic(min_val, max_val, n as int, found, i, j);
        }
        if min_val@.same_as(max_val@) {
            assert forall|i: int| 0 <= i < n implies (#[trigger] found[i])@.same_as(min_val@) by {
                law_zero_width_constant(min_val, max_val, n as int, found, i);
            }
        }
    }
    Ok(samples)
}

} // verus!
