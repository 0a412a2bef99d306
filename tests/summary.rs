use boxplot_outliers::{percentile_of_sorted, BoxplotData};

#[test]
fn singleton_summary() {
    let data = BoxplotData::new(&[6]);
    assert_eq!(data.values(), [600, 600, 600, 600, 600]);
    assert!(data.outliers().is_empty());
}

#[test]
fn interpolation_worked_example() {
    let data = BoxplotData::new(&[7, 15, 36, 39, 40, 41]);
    // Q1 = 20.25, median = 37.5, Q3 = 39.75, in hundredths.
    assert_eq!(data.values(), [700, 2025, 3750, 3975, 4100]);
    assert!(data.outliers().is_empty());
}

#[test]
fn outlier_far_value() {
    let data = BoxplotData::new(&[7, 15, 36, 39, 40, 41, 1000]);
    let v = data.values();
    assert_eq!(v[0], 700);
    assert_eq!(v[4], 4100);
    assert_eq!(v, [700, 2550, 3900, 4050, 4100]);
    assert_eq!(data.outliers(), &vec![1000]);
}

#[test]
fn outliers_on_both_sides_in_order() {
    let data = BoxplotData::new(&[50, -900, 10, 11, 12, 13, 14, 15, 900, -800]);
    assert_eq!(data.outliers(), &vec![-900, -800, 50, 900]);
    let v = data.values();
    assert_eq!(v[0], 1000);
    assert_eq!(v[4], 1500);
}

#[test]
fn order_invariance() {
    let a = BoxplotData::new(&[41, 7, 1000, 39, 15, 40, 36]);
    let b = BoxplotData::new(&[7, 15, 36, 39, 40, 41, 1000]);
    let c = BoxplotData::new(&[1000, 41, 40, 39, 36, 15, 7]);
    assert_eq!(a.values(), b.values());
    assert_eq!(a.outliers(), b.outliers());
    assert_eq!(c.values(), b.values());
    assert_eq!(c.outliers(), b.outliers());
}

#[test]
fn summary_is_ordered() {
    let data = BoxplotData::new(&[3, 1, 4, 1, 5, 9, 2, 6, 5, 3, 5]);
    let v = data.values();
    for i in 0..4 {
        assert!(v[i] <= v[i + 1]);
    }
}

#[test]
fn minimum_above_lower_quartile_when_low_value_is_outlier() {
    let data = BoxplotData::new(&[0, 100, 100, 100]);
    let v = data.values();
    assert_eq!(v, [10000, 7500, 10000, 10000, 10000]);
    assert!(v[0] > v[1]);
    assert_eq!(data.outliers(), &vec![0]);
}

#[test]
fn two_values() {
    let data = BoxplotData::new(&[10, 20]);
    assert_eq!(data.values(), [1000, 1250, 1500, 1750, 2000]);
    assert!(data.outliers().is_empty());
}

#[test]
fn extreme_values() {
    let data = BoxplotData::new(&[i64::MIN, i64::MAX]);
    let v = data.values();
    assert_eq!(v[0], 100 * (i64::MIN as i128));
    assert_eq!(v[4], 100 * (i64::MAX as i128));
    assert!(data.outliers().is_empty());
}

#[test]
fn percentile_edges() {
    let s = [7, 15, 36, 39, 40, 41];
    assert_eq!(percentile_of_sorted(&s, 0), 700);
    assert_eq!(percentile_of_sorted(&s, 100), 4100);
    assert_eq!(percentile_of_sorted(&s, 25), 2025);
    assert_eq!(percentile_of_sorted(&s, 50), 3750);
    assert_eq!(percentile_of_sorted(&s, 75), 3975);
    assert_eq!(percentile_of_sorted(&s, 10), 700 + 8 * 50);
    assert_eq!(percentile_of_sorted(&[6], 30), 600);
}
