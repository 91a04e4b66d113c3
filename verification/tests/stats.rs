use repo_info::{bar_length, percentage, u64_to_string};

#[test]
fn decimal_rendering() {
    assert_eq!(u64_to_string(0), "0");
    assert_eq!(u64_to_string(7), "7");
    assert_eq!(u64_to_string(10), "10");
    assert_eq!(u64_to_string(1024), "1024");
    assert_eq!(u64_to_string(u64::MAX), "18446744073709551615");
}

#[test]
fn percentage_two_decimals() {
    assert_eq!(percentage(500, 300), "60.00%");
    assert_eq!(percentage(500, 100), "20.00%");
    assert_eq!(percentage(1, 1), "100.00%");
    assert_eq!(percentage(200, 1), "0.50%");
    assert_eq!(percentage(3, 1), "33.33%");
    assert_eq!(percentage(3, 2), "66.67%");
    assert_eq!(percentage(800, 3), "0.38%");
}

#[test]
fn percentage_zero_total_renders_zero() {
    assert_eq!(percentage(0, 0), "0.00%");
}

#[test]
fn percentages_sum_close_to_100() {
    // Thirds round to 33.33% each: the sum misses 100.00% by no more than
    // 0.01% per entry.
    let parts = [
        percentage(3, 1),
        percentage(3, 1),
        percentage(3, 1),
    ];
    let mut hundredths: i64 = 0;
    for p in parts.iter() {
        let trimmed = p.trim_end_matches('%');
        let (int_part, frac_part) = trimmed.split_once('.').unwrap();
        hundredths += int_part.parse::<i64>().unwrap() * 100 + frac_part.parse::<i64>().unwrap();
    }
    assert!((hundredths - 10000).abs() <= 3);
    assert_eq!(hundredths, 9999);
}

#[test]
fn percentage_monotonic_samples() {
    // Larger count, larger or equal percentage (fixed total).
    assert_eq!(percentage(500, 0), "0.00%");
    assert_eq!(percentage(500, 100), "20.00%");
    assert_eq!(percentage(500, 300), "60.00%");
    assert_eq!(percentage(500, 500), "100.00%");
}

#[test]
fn bar_length_proportional() {
    assert_eq!(bar_length(500, 300, 40), 24);
    assert_eq!(bar_length(500, 100, 40), 8);
}

#[test]
fn bar_length_full_and_empty() {
    assert_eq!(bar_length(500, 500, 40), 40);
    assert_eq!(bar_length(1, 1, 40), 40);
    assert_eq!(bar_length(500, 0, 40), 0);
    assert_eq!(bar_length(0, 0, 40), 0);
}

#[test]
fn bar_length_monotonic_samples() {
    let mut last = 0;
    for count in [0u64, 1, 100, 250, 499, 500] {
        let b = bar_length(500, count, 40);
        assert!(b >= last);
        last = b;
    }
}
