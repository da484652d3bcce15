use sampler::grid::range;
use sampler::grid::DivisionError;
use sampler::ratio::Ratio;

fn whole(n: i64) -> Ratio {
    Ratio::new(n, 1)
}

fn as_float(r: &Ratio) -> f64 {
    r.num as f64 / r.den as f64
}

#[test]
fn range_zero_to_ten_in_five_steps() {
    let samples = range(whole(0), whole(10), 5).unwrap();
    assert_eq!(samples.len(), 5);
    let expected = [2, 4, 6, 8, 10];
    for i in 0..5 {
        assert!(samples[i].eqv(&whole(expected[i])));
    }
    assert_eq!(
        samples,
        vec![
            Ratio::new(10, 5),
            Ratio::new(20, 5),
            Ratio::new(30, 5),
            Ratio::new(40, 5),
            Ratio::new(50, 5),
        ]
    );
}

#[test]
fn range_has_as_many_samples_as_steps() {
    for n in 1..50usize {
        let samples = range(Ratio::new(-7, 3), Ratio::new(22, 5), n).unwrap();
        assert_eq!(samples.len(), n);
    }
}

#[test]
fn range_ends_on_max() {
    for n in 1..50usize {
        let max = Ratio::new(22, 5);
        let samples = range(Ratio::new(-7, 3), max, n).unwrap();
        assert!(samples[n - 1].eqv(&max));
    }
}

#[test]
fn range_starts_one_step_above_min() {
    // The step is (7/3 - 1/2) / 4 = 11/24, so the first sample is 23/24.
    let samples = range(Ratio::new(1, 2), Ratio::new(7, 3), 4).unwrap();
    assert_eq!(samples[0], Ratio::new(23, 24));
    assert!(Ratio::new(1, 2).lt(&samples[0]));
    assert_eq!(
        samples,
        vec![
            Ratio::new(23, 24),
            Ratio::new(34, 24),
            Ratio::new(45, 24),
            Ratio::new(56, 24),
        ]
    );
}

#[test]
fn range_shares_one_denominator() {
    let samples = range(Ratio::new(-3, 2), Ratio::new(16, 5), 100).unwrap();
    for s in samples.iter() {
        assert_eq!(s.den, 1000);
    }
    assert_eq!(samples[0].num, -1453);
    assert_eq!(samples[99].num, 3200);
}

#[test]
fn range_ascends_strictly() {
    let samples = range(Ratio::new(-3, 2), Ratio::new(16, 5), 100).unwrap();
    for i in 1..samples.len() {
        assert!(samples[i - 1].lt(&samples[i]));
    }
    assert!(Ratio::new(-3, 2).lt(&samples[0]));
}

#[test]
fn range_descends_when_max_is_below_min() {
    let samples = range(whole(10), whole(0), 5).unwrap();
    let expected = [8, 6, 4, 2, 0];
    for i in 0..5 {
        assert!(samples[i].eqv(&whole(expected[i])));
    }
    for i in 1..samples.len() {
        assert!(samples[i].lt(&samples[i - 1]));
    }
}

#[test]
fn range_leaves_out_min() {
    let up = range(Ratio::new(1, 3), Ratio::new(5, 2), 7).unwrap();
    for s in up.iter() {
        assert!(Ratio::new(1, 3).lt(s));
        assert!(!s.eqv(&Ratio::new(1, 3)));
    }
    let down = range(Ratio::new(5, 2), Ratio::new(1, 3), 7).unwrap();
    for s in down.iter() {
        assert!(s.lt(&Ratio::new(5, 2)));
    }
    assert!(down[6].eqv(&Ratio::new(1, 3)));
}

#[test]
fn range_of_no_width_is_constant() {
    for n in 1..20usize {
        let samples = range(whole(5), whole(5), n).unwrap();
        assert_eq!(samples.len(), n);
        for s in samples.iter() {
            assert!(s.eqv(&whole(5)));
        }
    }
    let samples = range(Ratio::new(10, 2), Ratio::new(15, 3), 3).unwrap();
    for s in samples.iter() {
        assert!(s.eqv(&whole(5)));
    }
}

#[test]
fn range_in_one_step_is_max_alone() {
    let samples = range(Ratio::new(1, 2), Ratio::new(7, 3), 1).unwrap();
    assert_eq!(samples, vec![Ratio::new(14, 6)]);
    assert!(samples[0].eqv(&Ratio::new(7, 3)));
}

#[test]
fn range_with_no_steps_is_a_division_error() {
    assert_eq!(range(whole(0), whole(10), 0), Err(DivisionError::ZeroCount));
    assert_eq!(range(whole(5), whole(5), 0), Err(DivisionError::ZeroCount));
    assert_eq!(range(Ratio::new(1, 0), whole(5), 0), Err(DivisionError::ZeroCount));
}

#[test]
fn range_with_an_undefined_end_is_a_division_error() {
    assert_eq!(
        range(Ratio::new(1, 0), whole(10), 5),
        Err(DivisionError::UndefinedEndpoint)
    );
    assert_eq!(
        range(whole(0), Ratio::new(0, 0), 5),
        Err(DivisionError::UndefinedEndpoint)
    );
}

#[test]
fn range_whose_denominator_does_not_fit_is_a_division_error() {
    let tiny = Ratio::new(1, 1 << 40);
    assert_eq!(range(tiny, tiny, 1), Err(DivisionError::Unrepresentable));
    assert_eq!(
        range(whole(0), Ratio::new(1, u64::MAX), 2),
        Err(DivisionError::Unrepresentable)
    );
    assert_eq!(
        range(whole(0), Ratio::new(1, u64::MAX), 1),
        Ok(vec![Ratio::new(1, u64::MAX)])
    );
}

#[test]
fn range_whose_numerator_does_not_fit_is_a_division_error() {
    assert_eq!(
        range(whole(0), whole(i64::MAX), 2),
        Err(DivisionError::Unrepresentable)
    );
    // The first of three samples is (2 * MIN) / 3, the first of two is MIN / 2.
    assert_eq!(
        range(whole(i64::MIN), whole(0), 3),
        Err(DivisionError::Unrepresentable)
    );
    assert_eq!(
        range(whole(i64::MIN), whole(0), 2),
        Ok(vec![Ratio::new(i64::MIN, 2), Ratio::new(0, 2)])
    );
    assert_eq!(
        range(whole(i64::MIN), whole(i64::MAX), 1),
        Ok(vec![whole(i64::MAX)])
    );
}

#[test]
fn range_needs_only_the_samples_to_fit() {
    // With one step the lower end is no sample, so it may be as large as it likes.
    assert_eq!(
        range(whole(i64::MAX), Ratio::new(1, 3), 1),
        Ok(vec![Ratio::new(1, 3)])
    );
    // With two steps the first sample is (3 * MAX + 1) / 6, which does not fit.
    assert_eq!(
        range(whole(i64::MAX), Ratio::new(1, 3), 2),
        Err(DivisionError::Unrepresentable)
    );
}

#[test]
fn range_at_the_edge_of_what_fits() {
    let half_max = i64::MAX / 2;
    let samples = range(whole(0), whole(half_max), 2).unwrap();
    assert_eq!(samples, vec![Ratio::new(half_max, 2), Ratio::new(2 * half_max, 2)]);
    let samples = range(whole(i64::MIN / 2), whole(0), 2).unwrap();
    assert_eq!(samples, vec![Ratio::new(i64::MIN / 2, 2), Ratio::new(0, 2)]);
}

#[test]
fn range_agrees_with_the_rule_in_floating_point() {
    let n = 100usize;
    let samples = range(Ratio::new(-3, 2), Ratio::new(16, 5), n).unwrap();
    let step = (3.2 - (-1.5)) / n as f64;
    for i in 0..n {
        let expected = (i + 1) as f64 * step + (-1.5);
        assert!((as_float(&samples[i]) - expected).abs() < 1e-12);
    }
}

#[test]
fn range_of_many_steps() {
    let n = 100_000usize;
    let samples = range(whole(0), whole(1), n).unwrap();
    assert_eq!(samples.len(), n);
    assert_eq!(samples[0], Ratio::new(1, 100_000));
    assert_eq!(samples[n - 1], Ratio::new(100_000, 100_000));
    assert_eq!(samples[49_999], Ratio::new(50_000, 100_000));
}
