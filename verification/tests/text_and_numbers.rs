use omnisync::clock::{nanos_of, seconds_of, unix_nanos, unix_now};
use omnisync::number::{read_i64, read_u64, write_decimal, write_hex, write_signed};
use omnisync::text::{contains, remove, replace, same_text, strip_prefix, trim, word_two};

const TEXTS: [&str; 14] = [
    "", " ", "a", " a ", "\t a\u{a0}b \n", "x[AD]y", "aaa", "ababab", "\u{3000}\u{2003}z\u{85}",
    "GET /path HTTP/1.1\r\n", "one", "  one   two three", "\u{1F600} \u{1F601}", "a\u{200b} b",
];

#[test]
fn trimming_and_words_agree_with_std() {
    for s in TEXTS {
        assert_eq!(trim(s), s.trim(), "{:?}", s);
        assert_eq!(word_two(s).as_deref(), s.split_whitespace().nth(1), "{:?}", s);
    }
    for c in (0..0x11_0000u32).filter_map(char::from_u32) {
        let s = format!("{}x{}", c, c);
        assert_eq!(trim(&s).as_str(), s.trim(), "{:?}", c);
    }
}

#[test]
fn searching_and_cutting_agree_with_std() {
    let patterns = ["", "a", "aa", "ab", "[AD]", " ", "x["];
    for s in TEXTS {
        for p in patterns {
            assert_eq!(contains(s, p), s.contains(p), "{:?} {:?}", s, p);
            assert_eq!(strip_prefix(s, p).as_deref(), s.strip_prefix(p), "{:?} {:?}", s, p);
            assert_eq!(remove(s, p), s.replace(p, ""), "{:?} {:?}", s, p);
            assert_eq!(same_text(s, p), s == p);
        }
        assert_eq!(replace(s, 'a', '_'), s.replace('a', "_"));
    }
}

#[test]
fn decimal_notation_agrees_with_std() {
    for n in [0u128, 7, 10, 99, 100, 65535, u64::MAX as u128, u128::MAX] {
        assert_eq!(write_decimal(n), n.to_string());
    }
    for n in [0i64, -1, 1, i64::MIN, i64::MAX, -100] {
        assert_eq!(write_signed(n), n.to_string());
        assert_eq!(read_i64(&n.to_string()), Some(n));
    }
    for n in [0u64, 1, 10, u64::MAX] {
        assert_eq!(read_u64(&n.to_string()), Some(n));
    }
}

#[test]
fn reading_numbers_agrees_with_std() {
    let rows = [
        "", "+", "-", "+5", "-5", "--5", "+-5", "007", " 7", "7 ", "18446744073709551615",
        "18446744073709551616", "99999999999999999999", "9223372036854775807",
        "9223372036854775808", "-9223372036854775808", "-9223372036854775809", "1a", "\u{0661}",
        "-0", "+0", "0x10", "1_000",
    ];
    for r in rows {
        assert_eq!(read_u64(r), r.parse::<u64>().ok(), "{:?}", r);
        assert_eq!(read_i64(r), r.parse::<i64>().ok(), "{:?}", r);
    }
}

#[test]
fn hexadecimal_notation_agrees_with_std() {
    let bytes: Vec<u8> = (0..=255).collect();
    let expected: String = bytes.iter().map(|b| format!("{:02x}", b)).collect();
    assert_eq!(write_hex(&bytes), expected);
    assert_eq!(write_hex(&Vec::new()), "");
}

#[test]
fn clock_readings_in_seconds_and_nanoseconds() {
    assert_eq!(seconds_of(Some(1_999_999_999)), 1);
    assert_eq!(seconds_of(None), 0);
    assert_eq!(nanos_of(Some(1_999_999_999)), 1_999_999_999);
    assert_eq!(nanos_of(None), 0);
    // Two readings of one clock, a moment apart.
    let seconds = unix_now();
    let later = unix_nanos() / 1_000_000_000;
    assert!(later >= seconds as u128 && later - seconds as u128 <= 20);
}
