use noetive::semantik::clock::{epoch_nanos, unix_now};
use noetive::semantik::headers::{get_text, read_value};
use noetive::semantik::httpdate::{httpdate_parse, imf_to_unix};
use noetive::semantik::Duration;
use noetive::text::{len_in_bytes, parse_i64, text_eq, trim, white_space};
use reqwest::header::{HeaderMap, HeaderValue};
use std::time::{SystemTime, UNIX_EPOCH};

#[test]
fn white_space_is_what_char_says() {
    for u in 0..=0x10ffffu32 {
        if let Some(c) = char::from_u32(u) {
            assert_eq!(white_space(c), c.is_whitespace(), "{u:#x}");
        }
    }
}

#[test]
fn trimming_is_what_str_says() {
    for s in ["", " ", "a", " a ", "\u{3000}a b\u{a0}\n", "\t\t", "é "] {
        assert_eq!(trim(s), s.trim());
    }
}

#[test]
fn integers_are_read_as_str_reads_them() {
    for s in [
        "",
        "-",
        "+",
        "0",
        "-0",
        "+12",
        "00012",
        "9223372036854775807",
        "9223372036854775808",
        "-9223372036854775808",
        "-9223372036854775809",
        "18446744073709551617",
        "1 ",
        " 1",
        "1a",
        "--1",
        "٣",
    ] {
        assert_eq!(parse_i64(s), s.parse::<i64>().ok(), "{s}");
    }
}

#[test]
fn texts_compare_by_their_characters() {
    assert!(text_eq("", ""));
    assert!(text_eq("né", "né"));
    assert!(!text_eq("ne", "né"));
    assert!(!text_eq("n", "né"));
    assert_eq!(len_in_bytes("né"), 3);
}

#[test]
fn dates_are_read_exactly() {
    assert_eq!(
        httpdate_parse("Sun, 06 Nov 1994 08:49:37 GMT"),
        Some(784_111_777)
    );
    assert_eq!(httpdate_parse("Thu, 01 Jan 1970 00:00:00 GMT"), Some(0));
    assert_eq!(
        httpdate_parse("Tue, 29 Feb 2000 23:59:59 GMT"),
        Some(951_868_799)
    );
    for bad in [
        "",
        "Sunday, 06-Nov-94 08:49:37 GMT",
        "Sun Nov  6 08:49:37 1994",
        "Sun, 06 Nov 1994 08:49:37 UTC",
        "Sun, 06 Nov 1994 08:49:37 GMT ",
        "Sun, 6 Nov 1994 08:49:37 GMT",
        "Sun, 06 Foo 1994 08:49:37 GMT",
        "Sun, 06 Nov 1994 24:49:37 GMT",
        "Sun, 06 Nov 1994 08:60:37 GMT",
        "Sun, 00 Nov 1994 08:49:37 GMT",
        "Sun, 06 Nov 1969 08:49:37 GMT",
    ] {
        assert_eq!(httpdate_parse(bad), None, "{bad}");
    }
}

#[test]
fn calendar_dates_count_seconds_from_the_epoch() {
    assert_eq!(imf_to_unix(1970, 1, 1, 0, 0, 0), Some(0));
    assert_eq!(imf_to_unix(1970, 1, 2, 0, 0, 1), Some(86_401));
    assert_eq!(imf_to_unix(2024, 3, 1, 0, 0, 0), Some(1_709_251_200));
    assert_eq!(imf_to_unix(2100, 3, 1, 0, 0, 0), Some(4_107_542_400));
    assert_eq!(imf_to_unix(1969, 12, 31, 23, 59, 59), None);
    assert_eq!(imf_to_unix(2000, 13, 1, 0, 0, 0), None);
    assert_eq!(imf_to_unix(2000, 0, 1, 0, 0, 0), None);
    assert_eq!(imf_to_unix(2000, 1, 32, 0, 0, 0), None);
}

#[test]
fn header_values_read_as_text() {
    assert_eq!(read_value(b"a b\t~"), Some("a b\t~".to_string()));
    assert_eq!(read_value(b""), Some(String::new()));
    assert_eq!(read_value(b"\x7f"), None);
    assert_eq!(read_value(b"\xc3\xa9"), None);
    let mut h = HeaderMap::new();
    h.insert("x-a", HeaderValue::from_static("v"));
    assert_eq!(get_text(&h, "X-A"), Some("v".to_string()));
    assert_eq!(get_text(&h, "x-b"), None);
    assert_eq!(get_text(&h, "not a name"), None);
}

#[test]
fn durations_keep_seconds_and_nanoseconds() {
    let d = Duration::from_millis(2_250);
    assert_eq!((d.as_secs(), d.subsec_nanos()), (2, 250_000_000));
    assert_eq!(d, Duration::new(2, 250_000_000));
    assert!(Duration::from_secs(2).at_most(&d));
    assert!(!d.at_most(&Duration::from_secs(2)));
    assert!(d.at_most(&d));
    assert_eq!(d.shorter(Duration::from_secs(1)), Duration::from_secs(1));
    assert_eq!(d.shorter(Duration::from_secs(3)), d);
}

#[test]
fn the_clock_counts_from_the_epoch() {
    let clock = || SystemTime::now().duration_since(UNIX_EPOCH).unwrap().as_nanos() as i128;
    let before = clock();
    let now = unix_now();
    let after = clock();
    assert!(before <= now && now <= after);
    assert_eq!(epoch_nanos(Ok((1, 5))), 1_000_000_005);
    assert_eq!(epoch_nanos(Err((1, 5))), -1_000_000_005);
}
