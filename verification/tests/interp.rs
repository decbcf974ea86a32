use rasterizer::interp::interpolate;
use rasterizer::ratio::Ratio;

fn truncated(values: &[Ratio]) -> Vec<i64> {
    values.iter().map(|r| r.trunc()).collect()
}

#[test]
fn interpolate_single_position_yields_start_value() {
    assert_eq!(interpolate(3, 7, 3, 100), vec![Ratio { num: 7, den: 1 }]);
    assert_eq!(interpolate(-5, -2, -5, 9), vec![Ratio { num: -2, den: 1 }]);
}

#[test]
fn interpolate_reversed_range_is_empty() {
    assert!(interpolate(4, 0, 1, 9).is_empty());
}

#[test]
fn interpolate_has_one_value_per_position() {
    assert_eq!(interpolate(0, 0, 4, 2).len(), 5);
    assert_eq!(interpolate(-7, 5, 3, -5).len(), 11);
    assert_eq!(interpolate(10, 1, 11, 1).len(), 2);
}

#[test]
fn interpolate_exact_values() {
    assert_eq!(
        interpolate(0, 0, 4, 2),
        vec![
            Ratio { num: 0, den: 4 },
            Ratio { num: 2, den: 4 },
            Ratio { num: 4, den: 4 },
            Ratio { num: 6, den: 4 },
            Ratio { num: 8, den: 4 },
        ]
    );
    assert_eq!(
        interpolate(-2, 0, 2, -2),
        vec![
            Ratio { num: 0, den: 4 },
            Ratio { num: -2, den: 4 },
            Ratio { num: -4, den: 4 },
            Ratio { num: -6, den: 4 },
            Ratio { num: -8, den: 4 },
        ]
    );
}

#[test]
fn interpolate_rounds_towards_zero() {
    assert_eq!(truncated(&interpolate(0, 0, 4, 2)), vec![0, 0, 1, 1, 2]);
    assert_eq!(truncated(&interpolate(-2, 0, 2, -2)), vec![0, 0, -1, -1, -2]);
    assert_eq!(
        truncated(&interpolate(-4, -1, 4, 2)),
        vec![-1, 0, 0, 0, 0, 0, 1, 1, 2]
    );
}

#[test]
fn interpolate_starts_at_d0_and_ends_at_d1() {
    let values = interpolate(2, -9, 9, 40);
    let first = values[0];
    let last = values[values.len() - 1];
    assert_eq!(first.num, -9 * first.den);
    assert_eq!(last.num, 40 * last.den);
    assert_eq!(first.trunc(), -9);
    assert_eq!(last.trunc(), 40);
}

#[test]
fn interpolate_is_monotonic() {
    let rising = interpolate(0, -3, 10, 4);
    for pair in rising.windows(2) {
        assert!(!pair[1].less_than(&pair[0]));
    }
    let falling = interpolate(0, 4, 10, -3);
    for pair in falling.windows(2) {
        assert!(!pair[0].less_than(&pair[1]));
    }
    let level = interpolate(0, 6, 10, 6);
    for value in &level {
        assert_eq!(value.trunc(), 6);
    }
}

#[test]
fn interpolate_extreme_endpoints() {
    let values = interpolate(0, i32::MIN, 3, i32::MAX);
    assert_eq!(values.len(), 4);
    assert_eq!(values[0].trunc(), i32::MIN as i64);
    assert_eq!(values[3].trunc(), i32::MAX as i64);
    assert_eq!(values[1].trunc(), -715827883);
    assert_eq!(values[2].trunc(), 715827882);
}

#[test]
fn ratio_compares_exactly() {
    let third = Ratio { num: 1, den: 3 };
    let two_sixths = Ratio { num: 2, den: 6 };
    let half = Ratio { num: 1, den: 2 };
    assert!(!third.less_than(&two_sixths));
    assert!(!two_sixths.less_than(&third));
    assert!(third.less_than(&half));
    assert!(!half.less_than(&third));
    let minus_half = Ratio { num: -1, den: 2 };
    assert!(minus_half.less_than(&third));
    let huge = Ratio { num: i64::MAX, den: 1 };
    let tiny = Ratio { num: i64::MIN, den: 1 };
    assert!(tiny.less_than(&huge));
    assert!(!huge.less_than(&tiny));
}

#[test]
fn ratio_truncates_towards_zero() {
    assert_eq!(Ratio { num: 7, den: 2 }.trunc(), 3);
    assert_eq!(Ratio { num: -7, den: 2 }.trunc(), -3);
    assert_eq!(Ratio { num: -1, den: 2 }.trunc(), 0);
    assert_eq!(Ratio { num: 6, den: 3 }.trunc(), 2);
    assert_eq!(Ratio::from_int(-4), Ratio { num: -4, den: 1 });
}
