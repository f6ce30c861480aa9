use sendfiles::figures::{percent_text, size_text};

fn size_by_doubles(bytes: u64) -> String {
    if bytes > 1024 * 1024 {
        format!("{:.2} MB", bytes as f64 / (1024.0 * 1024.0))
    } else {
        format!("{:.2} KB", bytes as f64 / 1024.0)
    }
}

fn percent_by_doubles(acknowledged: u64, total: u64) -> String {
    let progress = acknowledged as f64 / total as f64;
    format!("{:.0}%", progress * 100.0)
}

/// A fixed walk through the 64-bit numbers.
fn next(seed: &mut u64) -> u64 {
    *seed ^= *seed << 13;
    *seed ^= *seed >> 7;
    *seed ^= *seed << 17;
    *seed
}

#[test]
fn sizes_have_two_decimals() {
    assert_eq!(size_text(0), "0.00 KB");
    assert_eq!(size_text(1), "0.00 KB");
    assert_eq!(size_text(6), "0.01 KB");
    assert_eq!(size_text(1024), "1.00 KB");
    assert_eq!(size_text(1536), "1.50 KB");
    assert_eq!(size_text(5_242_880), "5.00 MB");
    assert_eq!(size_text(1_610_612_736), "1536.00 MB");
}

#[test]
fn sizes_round_ties_to_even() {
    // 0.125 KB and 0.375 KB lie half-way between two hundredths.
    assert_eq!(size_text(128), "0.12 KB");
    assert_eq!(size_text(384), "0.38 KB");
}

#[test]
fn one_megabyte_is_still_shown_in_kilobytes() {
    assert_eq!(size_text(1_048_576), "1024.00 KB");
    assert_eq!(size_text(1_048_577), "1.00 MB");
}

#[test]
fn largest_sizes_are_rounded_as_doubles() {
    assert_eq!(size_text(u64::MAX), "17592186044416.00 MB");
    assert_eq!(size_text((1 << 53) + 1), size_by_doubles((1 << 53) + 1));
}

#[test]
fn sizes_agree_with_double_arithmetic() {
    for bytes in 0..200_000u64 {
        assert_eq!(size_text(bytes), size_by_doubles(bytes));
    }
    let mut seed = 0x9e37_79b9_7f4a_7c15u64;
    for _ in 0..100_000 {
        let bytes = next(&mut seed) >> (next(&mut seed) % 64);
        assert_eq!(size_text(bytes), size_by_doubles(bytes));
    }
}

#[test]
fn percentages_have_no_decimals() {
    assert_eq!(percent_text(1, 3), "33%");
    assert_eq!(percent_text(2, 3), "67%");
    assert_eq!(percent_text(1, 200), "0%");
    assert_eq!(percent_text(3, 200), "2%");
    // 0.575 times one hundred is a double below 57.5.
    assert_eq!(percent_text(115, 200), "57%");
    assert_eq!(percent_text(5, 2), "250%");
}

#[test]
fn complete_transfer_shows_hundred_percent() {
    assert_eq!(percent_text(1, 1), "100%");
    assert_eq!(percent_text(77, 77), "100%");
    assert_eq!(percent_text(u64::MAX, u64::MAX), "100%");
    assert_eq!(percent_text(u64::MAX - 1, u64::MAX), "100%");
}

#[test]
fn untouched_transfer_shows_zero_percent() {
    assert_eq!(percent_text(0, 1), "0%");
    assert_eq!(percent_text(0, u64::MAX), "0%");
}

#[test]
fn acknowledging_more_than_everything_goes_on_counting() {
    assert_eq!(percent_text(u64::MAX, 1), percent_by_doubles(u64::MAX, 1));
    assert_eq!(percent_text(1 << 63, 3), percent_by_doubles(1 << 63, 3));
}

#[test]
fn percentage_never_goes_back_on_the_way_to_the_end() {
    let total = 12_345u64;
    let mut last = 0u64;
    for acknowledged in 0..=total {
        let text = percent_text(acknowledged, total);
        let shown: u64 = text[..text.len() - 1].parse().unwrap();
        assert!(last <= shown && shown <= 100);
        last = shown;
    }
}

#[test]
fn percentages_agree_with_double_arithmetic() {
    for total in 1..500u64 {
        for acknowledged in 0..=total + 3 {
            assert_eq!(percent_text(acknowledged, total), percent_by_doubles(acknowledged, total));
        }
    }
    let mut seed = 0x2545_f491_4f6c_dd1du64;
    for _ in 0..100_000 {
        let total = (next(&mut seed) >> (next(&mut seed) % 64)).max(1);
        let acknowledged = next(&mut seed) >> (next(&mut seed) % 64);
        assert_eq!(percent_text(acknowledged, total), percent_by_doubles(acknowledged, total));
    }
}
