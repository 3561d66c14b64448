use rsdlp::double::round_down;
use rsdlp::double::round_up;
use rsdlp::json::parse_json;
use rsdlp::json::Json;
use rsdlp::numeral::decimal_text;
use rsdlp::numeral::hexadecimal_text;
use rsdlp::numeral::parse_i32;
use rsdlp::numeral::parse_u64;
use rsdlp::numeral::signed_decimal_text;
use rsdlp::text::char_is_space;
use rsdlp::text::ends_with;
use rsdlp::text::is_blank;
use rsdlp::text::same_text;
use rsdlp::text::split;
use rsdlp::text::starts_with;
use rsdlp::text::strip_prefix;
use rsdlp::text::trim;
use rsdlp::text::words;

#[test]
fn white_space_is_that_of_the_language() {
    for n in 0..=0x10ffffu32 {
        if let Some(c) = char::from_u32(n) {
            assert_eq!(char_is_space(c), c.is_whitespace(), "{n:x}");
        }
    }
}

#[test]
fn texts_behave_like_those_of_the_language() {
    let samples =
        ["", " ", "a", " a ", "\u{3000}a b\tc\u{2003}", "ä\u{85}", "http://x", "a;b", ";", "x; y;"];
    for s in samples {
        assert_eq!(trim(s), s.trim());
        assert_eq!(is_blank(s), s.trim().is_empty());
        assert_eq!(words(s), s.split_whitespace().collect::<Vec<_>>());
        assert_eq!(split(s, ';'), s.split(';').collect::<Vec<_>>());
        for p in samples {
            assert_eq!(starts_with(s, p), s.starts_with(p));
            assert_eq!(ends_with(s, p), s.ends_with(p));
            assert_eq!(strip_prefix(s, p), s.strip_prefix(p));
            assert_eq!(same_text(s, p), s == p);
        }
    }
}

#[test]
fn numerals_are_read_like_those_of_the_language() {
    let samples = [
        "", "+", "-", "0", "-0", "+0", "007", "12a", " 1", "1 ", "+-1", "18446744073709551615",
        "18446744073709551616", "99999999999999999999999", "2147483647", "2147483648",
        "-2147483648", "-2147483649", "+2147483647", "-1", "１", "0x10",
    ];
    for s in samples {
        assert_eq!(parse_u64(s), s.parse::<u64>().ok(), "{s}");
        assert_eq!(parse_i32(s), s.parse::<i32>().ok(), "{s}");
    }
}

#[test]
fn numerals_are_written_and_read_back() {
    for n in [0u64, 9, 10, 99, 100, 255, 256, 65535, 1 << 32, u64::MAX] {
        assert_eq!(decimal_text(n), n.to_string());
        assert_eq!(hexadecimal_text(n), format!("{n:x}"));
        assert_eq!(parse_u64(&decimal_text(n)), Some(n));
    }
    for n in [0i32, 1, -1, 10, -10, i32::MAX, i32::MIN] {
        assert_eq!(signed_decimal_text(n), n.to_string());
        assert_eq!(parse_i32(&signed_decimal_text(n)), Some(n));
    }
}

#[test]
fn numbers_are_rounded_like_those_of_the_language() {
    let samples = [
        0.0, -0.0, 0.1, 0.5, 0.999999, 1.0, 1.0000001, 68.646, 128.0, 319.9, -0.5, -3.7, 1e-300,
        5e-324, 4503599627370495.5, 4503599627370496.5, 9007199254740993.0, 1.8446744073709552e19,
        1.8446744073709550e19, 1e19, 1e30, f64::MAX, f64::MIN_POSITIVE, f64::INFINITY,
        f64::NEG_INFINITY, f64::NAN,
    ];
    for x in samples {
        assert_eq!(round_up(x.to_bits()), x.ceil() as u64, "{x}");
        assert_eq!(round_down(x.to_bits()), x as u64, "{x}");
    }
}

#[test]
fn documents_are_read() {
    let text = r#"{"n": null, "b": true, "u": 18446744073709551615, "i": -3, "d": 2.5,
                   "s": "ä\n", "l": [1, [2]], "o": {"x": "y"}, "u": 7}"#;
    let json = parse_json(text.as_bytes()).expect("a document");
    assert!(matches!(json.get("n"), Some(Json::Null)));
    assert!(matches!(json.get("b"), Some(Json::Bool(true))));
    assert_eq!(json.unsigned_of("u"), Some(7));
    assert_eq!(json.signed_of("i"), Some(-3));
    assert_eq!(json.unsigned_of("i"), None);
    assert_eq!(json.double_of("i"), Some((-3.0f64).to_bits()));
    assert_eq!(json.double_of("d"), Some(2.5f64.to_bits()));
    assert_eq!(json.signed_of("d"), None);
    assert_eq!(json.text_of("s").map(String::as_str), Some("ä\n"));
    assert_eq!(json.list_of("l").map(Vec::len), Some(2));
    assert_eq!(json.get("o").and_then(|o| o.text_of("x")).map(String::as_str), Some("y"));
    assert!(json.get("missing").is_none());
    assert!(json.list_of("o").is_none());
    assert!(json.text_of("i").is_none());
}

#[test]
fn numbers_at_the_limits() {
    let json = parse_json(b"{\"a\": 18446744073709551615, \"b\": 9223372036854775808, \"c\": 1e3}")
        .expect("a document");
    assert_eq!(json.unsigned_of("a"), Some(u64::MAX));
    assert_eq!(json.signed_of("a"), None);
    assert_eq!(json.signed_of("b"), None);
    assert_eq!(json.unsigned_of("c"), None);
    assert_eq!(json.double_of("c"), Some(1000.0f64.to_bits()));
}

#[test]
fn what_is_no_document() {
    for bytes in [&b""[..], b"{", b"{} {}", b"nul", b"\xff", b"{\"a\": 1e999}"] {
        assert!(parse_json(bytes).is_none());
    }
}
