use byte_units::classify::{classify_class, format_size, render_size_class, SizeClass};

#[test]
fn bytes_band_samples() {
    assert_eq!(format_size(0), "0 bytes");
    assert_eq!(format_size(1), "1 bytes");
    assert_eq!(format_size(42), "42 bytes");
    assert_eq!(format_size(100), "100 bytes");
    assert_eq!(format_size(999), "999 bytes");
}

#[test]
fn kilobytes_band_samples() {
    assert_eq!(format_size(1000), "1.00 KB");
    assert_eq!(format_size(1500), "1.50 KB");
    assert_eq!(format_size(2048), "2.05 KB");
    assert_eq!(format_size(123456), "123.46 KB");
}

#[test]
fn rounding_is_half_up_on_exact_division() {
    // 1.005 KB: the half rounds up; 1.004 KB rounds down.
    assert_eq!(format_size(1005), "1.01 KB");
    assert_eq!(format_size(1004), "1.00 KB");
}

#[test]
fn boundaries() {
    assert_eq!(format_size(999), "999 bytes");
    assert_eq!(format_size(1000), "1.00 KB");
    // 999999 / 1000 = 999.999, which rounds to two decimals as 1000.00.
    assert_eq!(format_size(999_999), "1000.00 KB");
    assert_eq!(format_size(1_000_000), "1.00 MB");
    // 999999999 / 1000000 = 999.999999, rounded to two decimals.
    assert_eq!(format_size(999_999_999), "1000.00 MB");
    assert_eq!(format_size(1_000_000_000), "1.00 GB");
}

#[test]
fn gigabytes_band_samples() {
    assert_eq!(format_size(2_500_000_000), "2.50 GB");
    assert_eq!(format_size(u64::MAX), "18446744073.71 GB");
}

#[test]
fn classify_is_pure() {
    let a = format_size(2048);
    let b = format_size(2048);
    assert_eq!(a, b);
    let a = format_size(0);
    let b = format_size(0);
    assert_eq!(a, b);
}

#[test]
fn class_selection() {
    assert_eq!(classify_class(999), SizeClass::Bytes(999));
    assert_eq!(classify_class(1000), SizeClass::Kilobytes(100));
    assert_eq!(classify_class(2048), SizeClass::Kilobytes(205));
    assert_eq!(classify_class(1_000_000), SizeClass::Megabytes(100));
    assert_eq!(classify_class(1_000_000_000), SizeClass::Gigabytes(100));
}

#[test]
fn render_class_directly() {
    assert_eq!(render_size_class(SizeClass::Bytes(7)), "7 bytes");
    assert_eq!(render_size_class(SizeClass::Kilobytes(205)), "2.05 KB");
    assert_eq!(render_size_class(SizeClass::Megabytes(100)), "1.00 MB");
    assert_eq!(render_size_class(SizeClass::Gigabytes(1)), "0.01 GB");
}
