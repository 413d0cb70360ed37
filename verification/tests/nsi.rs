use std::str::FromStr;

use enum_snapins::nsi::IndirectString;
use enum_snapins::nsi::ParseError;

#[test]
fn test_deserialize_namestringindirect_with_path() {
    let test_str = r"@C:\Windows\System32\example.dll,-1234";
    let name_string_indirect = IndirectString::from_str(test_str).unwrap();
    let expected = IndirectString {
        dllpath: r"C:\Windows\System32\example.dll".into(),
        strid: 1234,
    };

    assert_eq!(name_string_indirect, expected);
}

#[test]
fn test_deserialize_namestringindirect_without_path() {
    let test_str = r"@example.dll,-1234";
    let name_string_indirect = IndirectString::from_str(test_str).unwrap();
    let expected = IndirectString {
        dllpath: r"example.dll".into(),
        strid: 1234,
    };

    assert_eq!(name_string_indirect, expected);
}

#[test]
fn test_deserialize_namestringindirect_invalid_format() {
    let test_str = r"invalid_format";
    let result = IndirectString::from_str(test_str);

    assert!(result.is_err());
}

#[test]
fn test_deserialize_namestringindirect_missing_strid() {
    let test_str = r"@C:\Windows\System32\example.dll";
    let result = IndirectString::from_str(test_str);

    assert!(result.is_err());
}

#[test]
fn test_deserialize_namestringindirect_non_integer_strid() {
    let test_str = r"@C:\Windows\System32\example.dll,-abc";
    let result = IndirectString::from_str(test_str);

    assert!(result.is_err());
}

#[test]
fn parse_reports_each_error_kind() {
    assert_eq!(
        IndirectString::parse("no-at-sign,-1"),
        Err(ParseError::MalformedReference)
    );
    assert_eq!(
        IndirectString::parse("@onlypath"),
        Err(ParseError::MissingSeparator)
    );
    assert_eq!(
        IndirectString::parse("@path,-abc"),
        Err(ParseError::InvalidIndex)
    );
}

#[test]
fn parse_rejects_empty_text() {
    assert_eq!(IndirectString::parse(""), Err(ParseError::MalformedReference));
}

#[test]
fn parse_strips_any_number_of_index_markers() {
    let one = IndirectString::parse("@lib.dll,-7").unwrap();
    assert_eq!(one.strid, 7);
    let many = IndirectString::parse("@lib.dll,-----7").unwrap();
    assert_eq!(many.strid, 7);
    let none = IndirectString::parse("@lib.dll,7").unwrap();
    assert_eq!(none.strid, 7);
    assert_eq!(one.dllpath, "lib.dll");
    assert_eq!(many.dllpath, "lib.dll");
}

#[test]
fn parse_index_is_magnitude_not_negated() {
    let r = IndirectString::parse("@a.dll,-1234").unwrap();
    assert!(r.strid >= 0);
    assert_eq!(r.strid, 1234);
}

#[test]
fn parse_splits_at_first_separator() {
    // everything after the first `,` belongs to the index, so a second
    // separator makes the index text invalid
    assert_eq!(
        IndirectString::parse("@a,b,-1"),
        Err(ParseError::InvalidIndex)
    );
}

#[test]
fn parse_keeps_path_verbatim() {
    let r = IndirectString::parse("@ spaced path.dll,-1").unwrap();
    assert_eq!(r.dllpath, " spaced path.dll");
}

#[test]
fn parse_index_bounds() {
    let max = IndirectString::parse("@l,-2147483647").unwrap();
    assert_eq!(max.strid, 2147483647);
    assert_eq!(
        IndirectString::parse("@l,-2147483648"),
        Err(ParseError::InvalidIndex)
    );
    assert_eq!(IndirectString::parse("@l,-"), Err(ParseError::InvalidIndex));
    assert_eq!(IndirectString::parse("@l,"), Err(ParseError::InvalidIndex));
    let zeros = IndirectString::parse("@l,-0007").unwrap();
    assert_eq!(zeros.strid, 7);
}
