use fluxion_daemon::text::{
    chars_of, decimal_string, is_whitespace_char, parse_u32, parse_u64, push_decimal,
    push_joined, push_signed_decimal, split_whitespace,
};

#[test]
fn decimal_of_small_and_large_numbers() {
    assert_eq!(decimal_string(0), "0");
    assert_eq!(decimal_string(7), "7");
    assert_eq!(decimal_string(10), "10");
    assert_eq!(decimal_string(1000), "1000");
    assert_eq!(decimal_string(u64::MAX), "18446744073709551615");
}

#[test]
fn decimal_matches_std_formatting() {
    let mut n: u64 = 1;
    for _ in 0..200 {
        assert_eq!(decimal_string(n), n.to_string());
        n = n.wrapping_mul(6364136223846793005).wrapping_add(1442695040888963407);
    }
}

#[test]
fn signed_decimal_writes_minus_sign() {
    let mut s = String::from("code ");
    push_signed_decimal(&mut s, -1);
    assert_eq!(s, "code -1");
    let mut s = String::new();
    push_signed_decimal(&mut s, i32::MIN as i64);
    assert_eq!(s, "-2147483648");
    let mut s = String::new();
    push_signed_decimal(&mut s, 42);
    assert_eq!(s, "42");
    let mut s = String::from("x");
    push_decimal(&mut s, 305);
    assert_eq!(s, "x305");
}

#[test]
fn parse_agrees_with_std() {
    let samples = [
        "", "+", "-", "0", "00", "+7", "-7", "-0", "12", " 12", "12 ", "1_000", "abc", "1a",
        "4294967295", "4294967296", "18446744073709551615", "18446744073709551616",
        "99999999999999999999999", "+0000000000000000000001", "٣", "1.5",
    ];
    for s in samples.iter() {
        assert_eq!(parse_u64(s), s.parse::<u64>().ok(), "u64 {:?}", s);
        assert_eq!(parse_u32(s), s.parse::<u32>().ok(), "u32 {:?}", s);
    }
}

#[test]
fn parse_reads_values() {
    assert_eq!(parse_u64("2000"), Some(2000));
    assert_eq!(parse_u32("10"), Some(10));
    assert_eq!(parse_u32("4294967296"), None);
    assert_eq!(parse_u64("x"), None);
}

#[test]
fn whitespace_predicate_agrees_with_std_on_every_char() {
    for u in 0u32..=0x10FFFF {
        if let Some(c) = char::from_u32(u) {
            assert_eq!(is_whitespace_char(c), c.is_whitespace(), "U+{:04X}", u);
        }
    }
}

#[test]
fn split_agrees_with_std() {
    let samples = [
        "", " ", "main.ts", "app.js --port 3000", "  a  b\tc\n", "x\u{3000}y\u{85}z", "é ü",
        "\u{a0}lead", "trail\u{2029}",
    ];
    for s in samples.iter() {
        let expected: Vec<String> = s.split_whitespace().map(|w| w.to_string()).collect();
        assert_eq!(split_whitespace(s), expected, "{:?}", s);
    }
}

#[test]
fn join_inserts_separator_between_parts() {
    let mut s = String::from("tsx ");
    push_joined(&mut s, &vec!["main.ts".to_string(), "--watch".to_string()], " ");
    assert_eq!(s, "tsx main.ts --watch");
    let mut s = String::from("node ");
    push_joined(&mut s, &vec![], " ");
    assert_eq!(s, "node ");
}

#[test]
fn chars_are_listed_in_order() {
    assert_eq!(chars_of("aé😀"), vec!['a', 'é', '😀']);
}

#[test]
fn signed_decimal_of_the_smallest_i64() {
    let mut s = String::new();
    push_signed_decimal(&mut s, i64::MIN);
    assert_eq!(s, i64::MIN.to_string());
}
