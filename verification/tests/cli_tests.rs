use chrono::Duration;
use eventflow::cli::{
    duration_to_seconds, parse_date, parse_duration, parse_duration_checked, timestamp_before,
    timestamp_from_date, timestamp_from_duration_ago, timestamp_from_duration_ago_checked, Cli, CliError, FetchMode,
};
use eventflow::calendar::DateErrorKind;

fn cli() -> Cli {
    Cli {
        show_state: false,
        stream: false,
        fetch_gaps: false,
        fetch_back: None,
        fetch_from: None,
        fetch_continuous: false,
        step: None,
        limit: 500,
        wait: None,
    }
}

#[test]
fn test_parse_duration() {
    assert_eq!(parse_duration("5min").unwrap().num_seconds(), Duration::minutes(5).num_seconds());
    assert_eq!(parse_duration("2h").unwrap().num_seconds(), Duration::hours(2).num_seconds());
    assert_eq!(parse_duration("3d").unwrap().num_seconds(), Duration::days(3).num_seconds());
    assert_eq!(parse_duration("1w").unwrap().num_seconds(), Duration::weeks(1).num_seconds());
    assert_eq!(parse_duration("6m").unwrap().num_seconds(), Duration::days(6 * 30).num_seconds());
    assert_eq!(parse_duration("1y").unwrap().num_seconds(), Duration::days(365).num_seconds());
}

#[test]
fn test_parse_date() {
    let dt = parse_date("2024-10-01").unwrap();
    assert_eq!(dt.year(), 2024);
    assert_eq!(dt.month(), 10);
    assert_eq!(dt.day(), 1);
}

#[test]
fn parse_duration_units_and_text() {
    assert_eq!(parse_duration("  10Seconds ").unwrap().num_seconds(), 10);
    assert_eq!(parse_duration("+3Hrs").unwrap().num_seconds(), 3 * 3600);
    assert_eq!(parse_duration("-2min").unwrap().num_seconds(), -120);
    assert_eq!(parse_duration("1mo").unwrap().num_seconds(), 30 * 86400);
    assert_eq!(parse_duration("2wk").unwrap().num_seconds(), 2 * 604800);
}

#[test]
fn parse_duration_errors() {
    match parse_duration("123") {
        Err(CliError::InvalidDurationFormat(t)) => assert_eq!(t, "123"),
        other => panic!("unexpected {:?}", other),
    }
    match parse_duration("x5min") {
        Err(CliError::InvalidDurationNumber(t)) => assert_eq!(t, ""),
        other => panic!("unexpected {:?}", other),
    }
    match parse_duration("5 min") {
        Err(CliError::InvalidDurationNumber(t)) => assert_eq!(t, "5 "),
        other => panic!("unexpected {:?}", other),
    }
    match parse_duration("5fortnights") {
        Err(CliError::UnknownTimeUnit(t)) => assert_eq!(t, "fortnights"),
        other => panic!("unexpected {:?}", other),
    }
    assert_eq!(
        parse_duration("5fortnights").unwrap_err().message(),
        "Unknown time unit: fortnights"
    );
    assert_eq!(parse_duration("123").unwrap_err().message(), "Invalid duration format: 123");
}

#[test]
fn parse_duration_checked_bounds() {
    assert!(parse_duration_checked("9223372036854775s").is_some());
    assert!(parse_duration_checked("9223372036854776s").is_none());
    assert!(parse_duration_checked("99999999999999y").is_none());
    assert!(parse_duration_checked("99999999999999999999y").unwrap().is_err());
    assert_eq!(
        chrono::Duration::try_seconds(9223372036854775).map(|d| d.num_seconds()),
        Some(parse_duration("9223372036854775s").unwrap().num_seconds())
    );
    assert!(chrono::Duration::try_seconds(9223372036854776).is_none());
}

#[test]
fn parse_date_errors_and_timestamp() {
    let chrono_msg = "2024-13-01".parse::<chrono::NaiveDate>().unwrap_err().to_string();
    match parse_date("2024-13-01") {
        Err(CliError::InvalidDate(e)) => {
            assert_eq!(e.kind, DateErrorKind::OutOfRange);
            assert_eq!(e.text, chrono_msg);
            assert_eq!(e.text, "input is out of range");
        }
        other => panic!("unexpected {:?}", other),
    }
    match parse_date("2024-10") {
        Err(CliError::InvalidDate(e)) => {
            assert_eq!(e.kind, DateErrorKind::TooShort);
            assert_eq!(e.text, "premature end of input");
        }
        other => panic!("unexpected {:?}", other),
    }
    assert_eq!(
        parse_date("2024-13-01").unwrap_err().message(),
        format!("Invalid date format (expected yyyy-mm-dd): {}", chrono_msg)
    );
    assert_eq!(parse_date("2024-10-01").unwrap().timestamp(), 1727740800);
    assert_eq!(timestamp_from_date("1970-01-01").unwrap(), 0);
    assert_eq!(timestamp_from_date("2000-03-01").unwrap(), 951868800);
}

#[test]
fn duration_seconds_and_before() {
    let d = parse_duration("-5s").unwrap();
    assert_eq!(duration_to_seconds(&d), 0);
    let d = parse_duration("1h").unwrap();
    assert_eq!(duration_to_seconds(&d), 3600);
    assert_eq!(timestamp_before(10000, &d), 6400);
    assert_eq!(timestamp_before(100, &d), 0);
}

#[test]
fn duration_ago_reads_the_clock() {
    let before = nostr::Timestamp::now().as_secs();
    let t = timestamp_from_duration_ago("1h").unwrap();
    let after = nostr::Timestamp::now().as_secs();
    assert!(before - 3600 <= t && t <= after - 3600);
    match timestamp_from_duration_ago_checked(" 2MIN ") {
        Some(Ok(t)) => assert!(t <= nostr::Timestamp::now().as_secs() - 120),
        other => panic!("unexpected {:?}", other),
    }
    assert!(matches!(timestamp_from_duration_ago_checked("5"), Some(Err(CliError::InvalidDurationFormat(_)))));
    assert!(timestamp_from_duration_ago_checked("9223372036854776s").is_none());
}

#[test]
fn validate_rules() {
    let mut c = cli();
    assert!(matches!(c.validate(), Err(CliError::NoMode)));
    assert_eq!(
        c.validate().unwrap_err().message(),
        "Must specify at least one option: --show-state, --stream, or a fetch option"
    );
    c.stream = true;
    assert!(c.validate().is_ok());
    c.fetch_gaps = true;
    c.fetch_continuous = true;
    assert!(matches!(c.validate(), Err(CliError::ExclusiveFetchModes)));
    c.fetch_continuous = false;
    c.step = Some("1h".to_string());
    assert!(matches!(c.validate(), Err(CliError::StepWithoutFetch)));
    c.fetch_gaps = false;
    c.fetch_back = Some("1d".to_string());
    assert!(c.validate().is_ok());
}

#[test]
fn fetch_mode_and_wait() {
    let mut c = cli();
    assert!(matches!(c.get_fetch_mode(), FetchMode::NoFetch));
    c.fetch_from = Some("2024-01-01".to_string());
    match c.get_fetch_mode() {
        FetchMode::From(d) => assert_eq!(d, "2024-01-01"),
        other => panic!("unexpected {:?}", other),
    }
    c.fetch_back = Some("2h".to_string());
    assert!(matches!(c.get_fetch_mode(), FetchMode::Back(_)));
    c.fetch_gaps = true;
    assert!(matches!(c.get_fetch_mode(), FetchMode::Gaps));
    assert_eq!(c.get_wait_seconds(), 0);
    c.wait = Some("1min".to_string());
    assert_eq!(c.get_wait_seconds(), 60);
    c.wait = Some("soon".to_string());
    assert_eq!(c.get_wait_seconds(), 0);
    c.wait = Some("-3s".to_string());
    assert_eq!(c.get_wait_seconds(), 0);
    c.wait = Some("999999999999999y".to_string());
    assert_eq!(c.wait_seconds_checked(), None);
    c.wait = Some("5s".to_string());
    assert_eq!(c.wait_seconds_checked(), Some(5));
    assert!(c.has_stream() == false);
    c.step = Some("6h".to_string());
    assert_eq!(c.get_step(), Some("6h".to_string()));
}
