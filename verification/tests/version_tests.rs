use frs_manager::version::{format_version, parse_version, VersionParseError};

#[test]
fn format_renders_decimal_text() {
    assert_eq!(format_version(5), "5");
    assert_eq!(format_version(0), "0");
    assert_eq!(format_version(42), "42");
    assert_eq!(format_version(1000), "1000");
    assert_eq!(format_version(-7), "-7");
    assert_eq!(format_version(i32::MAX), "2147483647");
    assert_eq!(format_version(i32::MIN), "-2147483648");
}

#[test]
fn parse_reads_decimal_text() {
    assert_eq!(parse_version("5"), Ok(5));
    assert_eq!(parse_version("007"), Ok(7));
    assert_eq!(parse_version("+42"), Ok(42));
    assert_eq!(parse_version("-7"), Ok(-7));
    assert_eq!(parse_version("2147483647"), Ok(i32::MAX));
    assert_eq!(parse_version("-2147483648"), Ok(i32::MIN));
}

#[test]
fn parse_rejects_empty_text() {
    assert_eq!(parse_version(""), Err(VersionParseError::Empty));
}

#[test]
fn parse_rejects_non_digit_text() {
    assert_eq!(parse_version("12a"), Err(VersionParseError::InvalidCharacter));
    assert_eq!(parse_version("+"), Err(VersionParseError::InvalidCharacter));
    assert_eq!(parse_version("-"), Err(VersionParseError::InvalidCharacter));
    assert_eq!(parse_version(" 5"), Err(VersionParseError::InvalidCharacter));
    assert_eq!(parse_version("5 "), Err(VersionParseError::InvalidCharacter));
    assert_eq!(parse_version("1.2"), Err(VersionParseError::InvalidCharacter));
}

#[test]
fn parse_rejects_out_of_range_values() {
    assert_eq!(parse_version("2147483648"), Err(VersionParseError::OutOfRange));
    assert_eq!(parse_version("-2147483649"), Err(VersionParseError::OutOfRange));
    assert_eq!(
        parse_version("99999999999999999999"),
        Err(VersionParseError::OutOfRange)
    );
}

#[test]
fn marker_round_trip_yields_written_version() {
    for v in [0, 1, 5, 6, -1, 123456789, i32::MAX, i32::MIN] {
        let text = format_version(v);
        assert_eq!(parse_version(&text), Ok(v));
    }
}
