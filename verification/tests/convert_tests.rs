use byte_units::classify::format_size;
use byte_units::convert::{convert, UnitValue};
use byte_units::decimal::{parse_decimal, Decimal};
use byte_units::units::{SizeError, Unit};

#[test]
fn whole_unit_byte_counts() {
    // One whole unit in bytes, checked through the canonical milli-byte view.
    let b = convert(parse_decimal("100").unwrap(), "B").unwrap();
    assert_eq!(b.bytes_milli(), 100_000);
    let b = convert(parse_decimal("1").unwrap(), "KB").unwrap();
    assert_eq!(b.bytes_milli(), 1_000_000);
    let b = convert(parse_decimal("1").unwrap(), "MB").unwrap();
    assert_eq!(b.bytes_milli(), 1_000_000_000);
    let b = convert(parse_decimal("1").unwrap(), "GB").unwrap();
    assert_eq!(b.bytes_milli(), 1_000_000_000_000);
}

#[test]
fn invalid_unit_yields_no_breakdown() {
    let r = convert(parse_decimal("5").unwrap(), "XX");
    assert_eq!(r.unwrap_err(), SizeError::InvalidUnit);
    let r = convert(parse_decimal("5").unwrap(), "kb");
    assert_eq!(r.unwrap_err(), SizeError::InvalidUnit);
    let r = convert(parse_decimal("5").unwrap(), "");
    assert_eq!(r.unwrap_err(), SizeError::InvalidUnit);
}

#[test]
fn ten_megabytes_breakdown() {
    let b = convert(parse_decimal("10").unwrap(), "MB").unwrap();
    assert_eq!(b.bytes_milli(), 10_000_000_000);
    assert_eq!(b.bytes_hundredths(), 1_000_000_000);
    assert_eq!(b.kilobytes_hundredths(), 1_000_000);
    assert_eq!(b.megabytes_hundredths(), 1_000);
    assert_eq!(b.gigabytes_hundredths(), 1);
}

#[test]
fn kilobytes_round_trip() {
    // 2.5 KB is exactly 2500 bytes, and classifying 2500 bytes lands back
    // in the kilobyte band.
    let d = parse_decimal("2.5").unwrap();
    assert_eq!(d.millis, 2500);
    let v = UnitValue { magnitude: d, unit: Unit::Kilobytes };
    let b = v.breakdown();
    assert_eq!(b.bytes_milli(), 2_500_000);
    assert_eq!(format_size(2500), "2.50 KB");
}

#[test]
fn unit_parsing() {
    assert_eq!(Unit::parse("B").unwrap(), Unit::Bytes);
    assert_eq!(Unit::parse("KB").unwrap(), Unit::Kilobytes);
    assert_eq!(Unit::parse("MB").unwrap(), Unit::Megabytes);
    assert_eq!(Unit::parse("GB").unwrap(), Unit::Gigabytes);
    assert_eq!(Unit::parse("TB").unwrap_err(), SizeError::InvalidUnit);
    assert_eq!(Unit::parse("b").unwrap_err(), SizeError::InvalidUnit);
}

#[test]
fn unit_factors() {
    assert_eq!(Unit::Bytes.factor(), 1);
    assert_eq!(Unit::Kilobytes.factor(), 1_000);
    assert_eq!(Unit::Megabytes.factor(), 1_000_000);
    assert_eq!(Unit::Gigabytes.factor(), 1_000_000_000);
}

#[test]
fn decimal_parsing_accepts() {
    assert_eq!(parse_decimal("0").unwrap(), Decimal::from_millis(0));
    assert_eq!(parse_decimal("10").unwrap(), Decimal::from_millis(10_000));
    assert_eq!(parse_decimal("2.5").unwrap(), Decimal::from_millis(2_500));
    assert_eq!(parse_decimal("0.001").unwrap(), Decimal::from_millis(1));
    assert_eq!(parse_decimal("3.14").unwrap(), Decimal::from_millis(3_140));
    assert_eq!(parse_decimal("007").unwrap(), Decimal::from_millis(7_000));
    // The largest representable magnitude, in thousandths.
    assert_eq!(
        parse_decimal("18446744073709551.615").unwrap(),
        Decimal::from_millis(u64::MAX)
    );
}

#[test]
fn decimal_parsing_rejects() {
    assert_eq!(parse_decimal("").unwrap_err(), SizeError::InvalidSizeFormat);
    assert_eq!(parse_decimal(".5").unwrap_err(), SizeError::InvalidSizeFormat);
    assert_eq!(parse_decimal("5.").unwrap_err(), SizeError::InvalidSizeFormat);
    assert_eq!(parse_decimal("1.2345").unwrap_err(), SizeError::InvalidSizeFormat);
    assert_eq!(parse_decimal("1..2").unwrap_err(), SizeError::InvalidSizeFormat);
    assert_eq!(parse_decimal("abc").unwrap_err(), SizeError::InvalidSizeFormat);
    assert_eq!(parse_decimal("-1").unwrap_err(), SizeError::InvalidSizeFormat);
    assert_eq!(parse_decimal("1e3").unwrap_err(), SizeError::InvalidSizeFormat);
    // One thousandth past the largest representable magnitude.
    assert_eq!(
        parse_decimal("18446744073709551.616").unwrap_err(),
        SizeError::InvalidSizeFormat
    );
}
