use ols_adherence::{critical_value, z_from, DEFAULT_Z_MILLI};

#[test]
fn table_of_common_levels() {
    assert_eq!(z_from(80), Some(1282));
    assert_eq!(z_from(90), Some(1645));
    assert_eq!(z_from(95), Some(1960));
    assert_eq!(z_from(98), Some(2326));
    assert_eq!(z_from(99), Some(2576));
}

#[test]
fn other_levels_have_no_entry() {
    for p in [-1, 0, 1, 50, 79, 81, 85, 94, 96, 97, 100, 9500, i32::MIN, i32::MAX] {
        assert_eq!(z_from(p), None);
    }
}

#[test]
fn unmapped_levels_fall_back_to_the_default() {
    assert_eq!(DEFAULT_Z_MILLI, 1960);
    for p in -200..400 {
        let expected = match p {
            80 => 1282,
            90 => 1645,
            95 => 1960,
            98 => 2326,
            99 => 2576,
            _ => 1960,
        };
        assert_eq!(critical_value(p), expected);
    }
}

#[test]
fn thousandths_give_the_decimal_constants() {
    let as_number = |p: i32| critical_value(p) as f64 / 1000.0;
    assert_eq!(as_number(80), 1.282);
    assert_eq!(as_number(90), 1.645);
    assert_eq!(as_number(95), 1.960);
    assert_eq!(as_number(98), 2.326);
    assert_eq!(as_number(99), 2.576);
    assert_eq!(as_number(42), 1.96);
}

#[test]
fn interval_at_95_percent_has_half_width_of_1960_thousandths() {
    let level = 0.95f64;
    let percent = (level * 100.0).round() as i32;
    let z = critical_value(percent) as f64 / 1000.0;
    let (estimate, se_pred) = (5.02f64, 0.25f64);
    let (lo, hi) = (estimate - z * se_pred, estimate + z * se_pred);
    assert!(lo <= estimate && estimate <= hi);
    assert_eq!(z, 1.960);
    assert_eq!(hi, estimate + 1.960 * se_pred);
    assert_eq!(lo, estimate - 1.960 * se_pred);
}
