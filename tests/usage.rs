use ndf::display::{bar_text, format_size, percent};
use ndf::usage::{compute_bar, compute_fraction, record_fraction, Bar, Fraction};

fn as_f64(f: Fraction) -> f64 {
    f.num as f64 / f.den as f64
}

#[test]
fn zero_total_gives_zero_fraction() {
    for avail in [0u64, 1, 500, u64::MAX] {
        let f = compute_fraction(0, avail);
        assert_eq!(f.num, 0);
        assert_eq!(as_f64(f), 0.0);
    }
}

#[test]
fn sound_pair_gives_one_minus_ratio() {
    let f = compute_fraction(1000, 250);
    assert_eq!(f, Fraction { num: 750, den: 1000 });
    assert_eq!(as_f64(f), 0.75);
    let full = compute_fraction(4096, 0);
    assert_eq!(as_f64(full), 1.0);
    let empty = compute_fraction(4096, 4096);
    assert_eq!(as_f64(empty), 0.0);
    let big = compute_fraction(u64::MAX, 1);
    assert_eq!(big, Fraction { num: u64::MAX - 1, den: u64::MAX });
}

#[test]
fn excess_available_is_clamped_by_the_computer() {
    let f = compute_fraction(500, 600);
    assert_eq!(f.num, 0);
    assert!(as_f64(f) >= 0.0 && as_f64(f) <= 1.0);
}

#[test]
fn anomalous_pair_takes_the_policy_value() {
    let anomaly = Fraction { num: 1, den: 10 };
    let f = record_fraction(500, 600, anomaly);
    assert_eq!(f, anomaly);
    assert_eq!(as_f64(f), 0.1);
    assert_eq!(record_fraction(1000, 250, anomaly), Fraction { num: 750, den: 1000 });
    assert_eq!(record_fraction(0, 600, anomaly).num, 0);
}

#[test]
fn quarter_free_bar_is_normal_usage() {
    let f = compute_fraction(1000, 250);
    let b = compute_bar(f, 50);
    assert_eq!(b, Bar { filled: 38, remaining: 12 });
    assert!(!b.is_high_usage());
}

#[test]
fn five_percent_free_bar_is_high_usage() {
    let f = compute_fraction(1000, 50);
    assert!((as_f64(f) - 0.95).abs() < 1e-12);
    let b = compute_bar(f, 50);
    assert_eq!(b, Bar { filled: 48, remaining: 2 });
    assert!(b.is_high_usage());
}

#[test]
fn high_usage_threshold_is_a_fifth_of_the_cells() {
    assert!(!compute_bar(Fraction { num: 80, den: 100 }, 50).is_high_usage());
    assert!(compute_bar(Fraction { num: 81, den: 100 }, 50).is_high_usage());
    assert_eq!(compute_bar(Fraction { num: 0, den: 1 }, 50), Bar { filled: 0, remaining: 50 });
    assert_eq!(compute_bar(Fraction { num: 1, den: 1 }, 50), Bar { filled: 50, remaining: 0 });
    assert_eq!(compute_bar(Fraction { num: 1, den: 1000 }, 50), Bar { filled: 1, remaining: 49 });
}

#[test]
fn usage_computation_is_repeatable() {
    let a = compute_fraction(123456789, 9876543);
    let b = compute_fraction(123456789, 9876543);
    assert_eq!(a, b);
    assert_eq!(compute_bar(a, 50), compute_bar(b, 50));
    assert_eq!(bar_text(compute_bar(a, 50)), bar_text(compute_bar(b, 50)));
}

#[test]
fn bar_text_draws_each_cell() {
    let s = bar_text(Bar { filled: 3, remaining: 2 });
    assert_eq!(s, "\u{2593}\u{2593}\u{2593}\u{2591}\u{2591}");
    assert_eq!(bar_text(Bar { filled: 0, remaining: 0 }), "");
}

#[test]
fn percent_rounds_to_nearest() {
    assert_eq!(percent(Fraction { num: 750, den: 1000 }), 75);
    assert_eq!(percent(Fraction { num: 1, den: 3 }), 33);
    assert_eq!(percent(Fraction { num: 2, den: 3 }), 67);
    assert_eq!(percent(Fraction { num: 1, den: 8 }), 12);
    assert_eq!(percent(Fraction { num: 3, den: 8 }), 38);
    assert_eq!(percent(Fraction { num: 1, den: 1 }), 100);
}

#[test]
fn format_size_picks_the_unit() {
    assert_eq!(format_size(0), "0B");
    assert_eq!(format_size(512), "512B");
    assert_eq!(format_size(1023), "1023B");
    assert_eq!(format_size(1024), "1.00K");
    assert_eq!(format_size(1536), "1.50K");
    assert_eq!(format_size(10 * 1024 * 1024 + 512 * 1024), "10.50M");
    assert_eq!(format_size(2 * 1024 * 1024 * 1024), "2.00G");
    assert_eq!(format_size(3 * 1024 * 1024 * 1024 * 1024 / 2), "1.50T");
    assert_eq!(format_size(1024 * 1024 - 1), "1024.00K");
}

#[test]
fn format_size_matches_float_formatting() {
    for size in [1500u64, 123456, 987654321, 5_000_000_000, 7_777_777_777_777] {
        let unit = if size >= 1 << 40 {
            (1u64 << 40, "T")
        } else if size >= 1 << 30 {
            (1 << 30, "G")
        } else if size >= 1 << 20 {
            (1 << 20, "M")
        } else {
            (1 << 10, "K")
        };
        let expected = format!("{:.2}{}", size as f64 / unit.0 as f64, unit.1);
        assert_eq!(format_size(size), expected);
    }
}
