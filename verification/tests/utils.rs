use elegant_clipboard::utils::format_size;

#[test]
fn zero_bytes() {
    assert_eq!(format_size(0), "0 B");
}

#[test]
fn under_1kb() {
    assert_eq!(format_size(1023), "1023 B");
}

#[test]
fn exactly_1kb() {
    assert_eq!(format_size(1024), "1.0 KB");
}

#[test]
fn megabytes() {
    assert_eq!(format_size(1024 * 1024), "1.0 MB");
}

#[test]
fn fractional_kb() {
    assert_eq!(format_size(1536), "1.5 KB");
}

fn float_formatted(bytes: u64) -> String {
    if bytes < 1024 {
        format!("{bytes} B")
    } else if bytes < 1024 * 1024 {
        format!("{:.1} KB", bytes as f64 / 1024.0)
    } else {
        format!("{:.1} MB", bytes as f64 / (1024.0 * 1024.0))
    }
}

#[test]
fn agrees_with_float_formatting_on_kilobytes() {
    for b in 1000..200_000u64 {
        assert_eq!(format_size(b), float_formatted(b), "bytes = {b}");
    }
}

#[test]
fn agrees_with_float_formatting_on_ties_and_large_counts() {
    // 1.25 KB and 1.75 KB are exact ties
    assert_eq!(format_size(1280), "1.2 KB");
    assert_eq!(format_size(1792), "1.8 KB");
    let samples = [
        1024 * 1024 - 1,
        1024 * 1024 + 52428,
        1024 * 1024 * 5 / 4,
        u64::MAX,
        u64::MAX - 1,
        (1u64 << 53) + 1,
        (1u64 << 53) - 1,
        (1u64 << 60) + 3,
        123_456_789_012_345,
        9_999_999_999_999_999,
    ];
    for b in samples {
        assert_eq!(format_size(b), float_formatted(b), "bytes = {b}");
    }
    let mut b: u64 = 1 << 20;
    while b < u64::MAX / 3 {
        assert_eq!(format_size(b), float_formatted(b), "bytes = {b}");
        assert_eq!(format_size(b + 52429), float_formatted(b + 52429), "bytes = {b}");
        b = b * 3 + 7;
    }
}
