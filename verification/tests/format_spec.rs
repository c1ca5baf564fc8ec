use voxc::format_spec::{read_count, read_format_spec, read_format_spec_ask, CountRead, FormatSpecAsk, FormatSpecFault, IntegerBase, FORMAT_MAX_COUNT};

fn fault_text(f: &Option<FormatSpecFault>) -> Option<(String, String)> {
    match f {
        None => None,
        Some(FormatSpecFault::WidthTooLarge(s)) => Some(("width".to_string(), s.clone())),
        Some(FormatSpecFault::PrecisionTooLarge(s)) => Some(("precision".to_string(), s.clone())),
        Some(FormatSpecFault::UnknownSpecifier(s)) => Some(("unknown".to_string(), s.clone())),
    }
}

#[test]
fn no_spec_is_plain_decimal() {
    let (spec, fault) = read_format_spec(None);
    assert_eq!(spec.width, None);
    assert_eq!(spec.precision, None);
    assert!(!spec.zero_pad);
    assert_eq!(spec.base, IntegerBase::Decimal);
    assert!(fault.is_none());
}

#[test]
fn width_alone() {
    let (spec, fault) = read_format_spec(Some("8"));
    assert_eq!(spec.width, Some(8));
    assert!(!spec.zero_pad);
    assert_eq!(spec.precision, None);
    assert!(fault.is_none());
}

#[test]
fn zero_padded_width() {
    let (spec, fault) = read_format_spec(Some("08"));
    assert_eq!(spec.width, Some(8));
    assert!(spec.zero_pad);
    assert!(fault.is_none());
}

#[test]
fn bare_zero_is_a_zero_width() {
    let (spec, fault) = read_format_spec(Some("0"));
    assert_eq!(spec.width, Some(0));
    assert!(fault.is_none());
    let (spec, fault) = read_format_spec(Some("000"));
    assert_eq!(spec.width, Some(0));
    assert!(fault.is_none());
}

#[test]
fn precision_alone() {
    let (spec, fault) = read_format_spec(Some(".2"));
    assert_eq!(spec.precision, Some(2));
    assert_eq!(spec.width, None);
    assert!(fault.is_none());
}

#[test]
fn width_then_precision_keeps_both() {
    let (spec, fault) = read_format_spec(Some("8.2"));
    assert_eq!(spec.width, Some(8));
    assert_eq!(spec.precision, Some(2));
    assert!(fault.is_none());
}

#[test]
fn base_letters() {
    assert_eq!(read_format_spec(Some("x")).0.base, IntegerBase::HexLower);
    assert_eq!(read_format_spec(Some("X")).0.base, IntegerBase::HexUpper);
    assert_eq!(read_format_spec(Some("b")).0.base, IntegerBase::Binary);
    assert_eq!(read_format_spec(Some("o")).0.base, IntegerBase::Octal);
    let (spec, fault) = read_format_spec(Some("08x"));
    assert_eq!(spec.width, Some(8));
    assert!(spec.zero_pad);
    assert_eq!(spec.base, IntegerBase::HexLower);
    assert!(fault.is_none());
}

#[test]
fn dot_with_no_count_is_unknown() {
    let (_, fault) = read_format_spec(Some("."));
    assert_eq!(fault_text(&fault), Some(("unknown".to_string(), ".".to_string())));
    let (_, fault) = read_format_spec(Some(".z"));
    assert_eq!(fault_text(&fault), Some(("unknown".to_string(), ".z".to_string())));
}

#[test]
fn stray_suffix_after_width_is_unknown() {
    let (spec, fault) = read_format_spec(Some("8q"));
    assert_eq!(spec.width, Some(8));
    assert_eq!(spec.base, IntegerBase::Decimal);
    assert_eq!(fault_text(&fault), Some(("unknown".to_string(), "8q".to_string())));
    let (_, fault) = read_format_spec(Some("8."));
    assert_eq!(fault_text(&fault), Some(("unknown".to_string(), "8.".to_string())));
    let (_, fault) = read_format_spec(Some("q"));
    assert_eq!(fault_text(&fault), Some(("unknown".to_string(), "q".to_string())));
}

#[test]
fn too_large_width_saturates_and_is_reported() {
    let (spec, fault) = read_format_spec(Some("99999999999999999999"));
    assert_eq!(spec.width, Some(FORMAT_MAX_COUNT));
    assert_eq!(fault_text(&fault), Some(("width".to_string(), "99999999999999999999".to_string())));
}

#[test]
fn too_large_precision_saturates_and_is_reported() {
    let (spec, fault) = read_format_spec(Some(".99999999999999999999"));
    assert_eq!(spec.precision, Some(FORMAT_MAX_COUNT));
    assert_eq!(fault_text(&fault), Some(("precision".to_string(), "99999999999999999999".to_string())));
    let (spec, fault) = read_format_spec(Some("8.99999999999999999999"));
    assert_eq!(spec.width, Some(8));
    assert_eq!(spec.precision, Some(FORMAT_MAX_COUNT));
    assert_eq!(fault_text(&fault), Some(("precision".to_string(), "99999999999999999999".to_string())));
}

#[test]
fn largest_count_is_read_exactly() {
    let (spec, fault) = read_format_spec(Some("9223372036854775807"));
    assert_eq!(spec.width, Some(i64::MAX));
    assert!(fault.is_none());
    let (_, fault) = read_format_spec(Some("9223372036854775808"));
    assert_eq!(fault_text(&fault), Some(("width".to_string(), "9223372036854775808".to_string())));
}

#[test]
fn counts_read() {
    assert_eq!(read_count(""), CountRead::Absent);
    assert_eq!(read_count("12a"), CountRead::Absent);
    assert_eq!(read_count("042"), CountRead::Count(42));
    assert_eq!(read_count("99999999999999999999"), CountRead::TooLarge);
}

#[test]
fn what_a_spec_asks() {
    assert!(matches!(read_format_spec_ask(None), FormatSpecAsk::AnyType));
    assert!(matches!(read_format_spec_ask(Some("8")), FormatSpecAsk::AnyType));
    assert!(matches!(read_format_spec_ask(Some(".3")), FormatSpecAsk::DecimalPlaces(3)));
    assert!(matches!(read_format_spec_ask(Some("x")), FormatSpecAsk::Base("hexadecimal")));
    assert!(matches!(read_format_spec_ask(Some("X")), FormatSpecAsk::Base("hexadecimal")));
    assert!(matches!(read_format_spec_ask(Some("b")), FormatSpecAsk::Base("binary")));
    assert!(matches!(read_format_spec_ask(Some("o")), FormatSpecAsk::Base("octal")));
}
