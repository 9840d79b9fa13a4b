use ash_voxels::text::{decimal_string, parse_u64, str_eq};

#[test]
fn parse_u64_matches_std() {
    for case in [
        "", "+", "-", "0", "00", "+0", "-0", "12", "+12", "1 2", " 1", "1a", "٣",
        "18446744073709551615", "18446744073709551616", "99999999999999999999",
        "000000000000000000000000001",
    ] {
        assert_eq!(parse_u64(case), case.parse::<u64>().ok(), "case {case:?}");
    }
}

#[test]
fn decimal_string_matches_display() {
    for n in [0usize, 7, 10, 99, 100, 12345, usize::MAX] {
        assert_eq!(decimal_string(n), n.to_string());
    }
}

#[test]
fn str_eq_compares_characters() {
    assert!(str_eq("dlss", "dlss"));
    assert!(!str_eq("dlss", "dlaa"));
    assert!(!str_eq("dls", "dlss"));
    assert!(str_eq("", ""));
}

#[test]
fn decimal_text_parses_back() {
    for n in [0u64, 9, 10, 4_294_967_296, u64::MAX] {
        assert_eq!(parse_u64(&decimal_string(n as usize)), Some(n));
    }
}
