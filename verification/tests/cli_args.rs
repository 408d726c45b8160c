use mpvcast::cli::{execute, parse_duration, Args};
use std::num::IntErrorKind;
use std::time::Duration;

#[test]
fn durations_in_whole_seconds() {
    assert_eq!(parse_duration("5"), Ok(Duration::from_secs(5)));
    assert_eq!(parse_duration("+5"), Ok(Duration::from_secs(5)));
    assert_eq!(parse_duration("0"), Ok(Duration::ZERO));
    assert_eq!(parse_duration("007"), Ok(Duration::from_secs(7)));
    assert_eq!(parse_duration("18446744073709551615"), Ok(Duration::from_secs(u64::MAX)));
}

#[test]
fn durations_that_do_not_parse() {
    assert!(parse_duration("").is_err());
    assert!(parse_duration("+").is_err());
    assert!(parse_duration("-1").is_err());
    assert!(parse_duration("1.5").is_err());
    assert!(parse_duration("abc").is_err());
    assert!(parse_duration(" 5").is_err());
    assert!(parse_duration("18446744073709551616").is_err());
}

#[test]
fn settings_default_volume_and_start() {
    let s = execute(Args { source: "a.mkv".to_string(), volume: None, at: None });
    assert_eq!(s.source, "a.mkv");
    assert_eq!(s.volume, 80);
    assert_eq!(s.at, Duration::ZERO);
}

#[test]
fn settings_take_what_was_given() {
    let s = execute(Args {
        source: "http://x/y".to_string(),
        volume: Some(35),
        at: Some(Duration::from_secs(61)),
    });
    assert_eq!(s.source, "http://x/y");
    assert_eq!(s.volume, 35);
    assert_eq!(s.at, Duration::from_secs(61));
}

#[test]
fn durations_have_no_fraction_and_read_back() {
    for n in [0u64, 1, 59, 3600, u64::MAX] {
        let d = parse_duration(&n.to_string()).expect("digits parse");
        assert_eq!(d, Duration::from_secs(n));
        assert_eq!(d.subsec_nanos(), 0);
        assert_eq!(parse_duration(&d.as_secs().to_string()), Ok(d));
    }
}

#[test]
fn duration_errors_are_those_of_u64_parsing() {
    for s in ["", "+", "-1", "x9", "18446744073709551616"] {
        let e = parse_duration(s).unwrap_err();
        assert_eq!(e, s.parse::<u64>().unwrap_err());
    }
    assert_eq!(parse_duration("").unwrap_err().kind(), &IntErrorKind::Empty);
    assert_eq!(parse_duration("4s").unwrap_err().kind(), &IntErrorKind::InvalidDigit);
    assert_eq!(parse_duration("99999999999999999999").unwrap_err().kind(), &IntErrorKind::PosOverflow);
}

#[test]
fn decimal_text_reads_back() {
    for n in [0u64, 7, 10, 99, 100, 123456789, u64::MAX - 1, u64::MAX] {
        assert_eq!(parse_duration(&n.to_string()), Ok(Duration::from_secs(n)));
    }
}
