use bybit_stream::text::{decimal_text, parse_i128, parse_i64, starts_with, str_eq, str_lt, IntErrorKind};

fn std_kind(s: &str) -> Option<IntErrorKind> {
    match s.parse::<i64>() {
        Ok(_) => None,
        Err(e) => Some(match e.kind() {
            std::num::IntErrorKind::Empty => IntErrorKind::Empty,
            std::num::IntErrorKind::InvalidDigit => IntErrorKind::InvalidDigit,
            std::num::IntErrorKind::PosOverflow => IntErrorKind::PosOverflow,
            std::num::IntErrorKind::NegOverflow => IntErrorKind::NegOverflow,
            _ => panic!("unexpected kind"),
        }),
    }
}

#[test]
fn parse_i64_matches_std() {
    let cases = [
        "0", "123", "-45", "+7", "", "-", "+", "12a", " 1", "1 ", "9223372036854775807",
        "9223372036854775808", "-9223372036854775808", "-9223372036854775809",
        "99999999999999999999x", "00012", "-0", "1_000", "١",
    ];
    for s in cases.iter() {
        let ours = parse_i64(s);
        match s.parse::<i64>() {
            Ok(v) => assert_eq!(ours, Ok(v), "text {:?}", s),
            Err(_) => assert_eq!(ours.err(), std_kind(s), "text {:?}", s),
        }
    }
}

#[test]
fn parse_i64_values() {
    assert_eq!(parse_i64("123"), Ok(123));
    assert_eq!(parse_i64("-45"), Ok(-45));
    assert_eq!(parse_i64(""), Err(IntErrorKind::Empty));
    assert_eq!(parse_i64("-"), Err(IntErrorKind::InvalidDigit));
    assert_eq!(parse_i64("9223372036854775808"), Err(IntErrorKind::PosOverflow));
    assert_eq!(parse_i64("-9223372036854775809"), Err(IntErrorKind::NegOverflow));
}

#[test]
fn parse_i128_values() {
    assert_eq!(parse_i128("1700000000000"), Ok(1_700_000_000_000));
    assert_eq!(parse_i128("170141183460469231731687303715884105727"), Ok(i128::MAX));
    assert_eq!(parse_i128("-170141183460469231731687303715884105728"), Ok(i128::MIN));
    assert_eq!(parse_i128("170141183460469231731687303715884105728"), Err(IntErrorKind::PosOverflow));
    assert_eq!(parse_i128("1.5"), Err(IntErrorKind::InvalidDigit));
}

#[test]
fn decimal_text_matches_format() {
    for n in [0u128, 7, 10, 99, 100, 1234567890, 1_700_000_010_000, u64::MAX as u128, u128::MAX] {
        assert_eq!(decimal_text(n), format!("{}", n));
    }
}

#[test]
fn decimal_text_reads_back() {
    for n in [0u128, 5, 42, 1_700_000_010_000, i64::MAX as u128] {
        assert_eq!(parse_i64(&decimal_text(n)), Ok(n as i64));
    }
}

#[test]
fn equality_and_prefix() {
    assert!(str_eq("pong", "pong"));
    assert!(!str_eq("pong", "ping"));
    assert!(!str_eq("pon", "pong"));
    assert!(str_eq("", ""));
    assert!(starts_with("publicTrade.BTCUSDT", "publicTrade"));
    assert!(starts_with("tickers", "tickers"));
    assert!(!starts_with("ticker", "tickers"));
    assert!(starts_with("anything", ""));
}

#[test]
fn lexicographic_order_matches_str() {
    let words = ["", "a", "b", "ab", "99", "101", "100.5", "PlusTick", "MinusTick", "ZeroPlusTick", "é", "z"];
    for a in words.iter() {
        for b in words.iter() {
            assert_eq!(str_lt(a, b), a < b, "{:?} < {:?}", a, b);
        }
    }
}
