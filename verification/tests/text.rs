use food::text::{chars_of, decimal_text, read_i64, read_i64_in, read_u16};

#[test]
fn decimal_text_writes_numbers_as_display_does() {
    for n in [0i64, 1, 9, 10, 11, 99, 100, 101, 404, 500, 3001, 1234567890, -1, -9, -10, -505, i64::MAX, i64::MIN, i64::MIN + 1] {
        assert_eq!(decimal_text(n), n.to_string());
    }
    assert_eq!(decimal_text(i64::MIN), "-9223372036854775808");
    assert_eq!(decimal_text(0), "0");
}

#[test]
fn read_i64_reads_as_parse_does() {
    for text in [
        "0", "1", "-1", "+1", "007", "-0", "+0", "9223372036854775807", "-9223372036854775808",
        "9223372036854775808", "-9223372036854775809", "99999999999999999999999", "", "-", "+",
        "--1", "+-1", "1-", " 1", "1 ", "1.0", "0x10", "١٢", "12a", "a12",
    ] {
        assert_eq!(read_i64(text), text.parse::<i64>().ok(), "{:?}", text);
    }
    assert_eq!(read_i64("42"), Some(42));
    assert_eq!(read_i64("-42"), Some(-42));
    assert_eq!(read_i64("-9223372036854775808"), Some(i64::MIN));
    assert_eq!(read_i64("9223372036854775808"), None);
}

#[test]
fn read_u16_reads_as_parse_does() {
    for text in ["0", "80", "+80", "-0", "-1", "65535", "65536", "065535", "", "+", "3001", "30 01", "99999999999999999999"] {
        assert_eq!(read_u16(text), text.parse::<u16>().ok(), "{:?}", text);
    }
    assert_eq!(read_u16("3001"), Some(3001));
    assert_eq!(read_u16("65536"), None);
}

#[test]
fn read_i64_in_reads_the_front_of_the_characters() {
    let chars: Vec<char> = "12-ab".chars().collect();
    assert_eq!(read_i64_in(&chars, 2), Some(12));
    assert_eq!(read_i64_in(&chars, 1), Some(1));
    assert_eq!(read_i64_in(&chars, 0), None);
    assert_eq!(read_i64_in(&chars, 3), None);
}

#[test]
fn chars_of_gives_the_characters() {
    assert_eq!(chars_of("aé-水"), vec!['a', 'é', '-', '水']);
    assert!(chars_of("").is_empty());
}

#[test]
fn written_numbers_read_back() {
    for n in [0i64, 5, 10, 12345, i64::MAX, -1, -77, i64::MIN] {
        assert_eq!(read_i64(&decimal_text(n)), Some(n));
    }
}
