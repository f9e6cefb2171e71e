use toki_note::dates::{Date, date_to_days, days_to_date, offset_date};
use toki_note::errors::TimeError;
use toki_note::events::{TargetSelector, parse_selector};
use toki_note::instant::Instant;
use toki_note::relative::{
    parse_date, parse_english_relative, parse_japanese_relative, parse_relative_day_with_base,
    parse_symbol_relative,
};
use toki_note::rfc3339::rfc3339_utc_string;
use toki_note::timing::{
    EventTiming, TimingArgs, day_range_with_base, parse_all_day_range, parse_explicit_instant,
    parse_time_of_day, parse_timed_range, parse_utc,
};

fn d(y: i64, m: u8, day: u8) -> Date {
    Date { year: y, month: m, day }
}

fn args(
    start: Option<&str>,
    date: Option<&str>,
    time: Option<&str>,
    end: Option<&str>,
    duration: Option<&str>,
) -> TimingArgs {
    TimingArgs {
        start: start.map(str::to_owned),
        date: date.map(str::to_owned),
        time: time.map(str::to_owned),
        end: end.map(str::to_owned),
        duration: duration.map(str::to_owned),
        default_date: d(2025, 5, 1),
        existing_start: None,
        existing_end: None,
    }
}

#[test]
fn relative_keywords_support_multiple_languages() {
    let base = d(2025, 5, 1);
    assert_eq!(
        parse_relative_day_with_base("tomorrow", base),
        Some(d(2025, 5, 2))
    );
    assert_eq!(parse_relative_day_with_base("+2d", base), Some(d(2025, 5, 3)));
    assert_eq!(
        parse_relative_day_with_base("2日後", base),
        Some(d(2025, 5, 3))
    );
}

#[test]
fn relative_grammars_cover_all_forms() {
    let base = d(2025, 5, 10);
    assert_eq!(parse_relative_day_with_base("today", base), Some(base));
    assert_eq!(parse_relative_day_with_base("  TOMORROW  ", base), Some(d(2025, 5, 11)));
    assert_eq!(parse_relative_day_with_base("yesterday", base), Some(d(2025, 5, 9)));
    assert_eq!(parse_relative_day_with_base("今日", base), Some(base));
    assert_eq!(parse_relative_day_with_base("明日", base), Some(d(2025, 5, 11)));
    assert_eq!(parse_relative_day_with_base("昨日", base), Some(d(2025, 5, 9)));
    assert_eq!(parse_relative_day_with_base("in 3 days", base), Some(d(2025, 5, 13)));
    assert_eq!(parse_relative_day_with_base("in 1 day", base), Some(d(2025, 5, 11)));
    assert_eq!(parse_relative_day_with_base("-2d", base), Some(d(2025, 5, 8)));
    assert_eq!(parse_relative_day_with_base("+10", base), Some(d(2025, 5, 20)));
    assert_eq!(parse_relative_day_with_base("3日前", base), Some(d(2025, 5, 7)));
    assert_eq!(parse_relative_day_with_base("nonsense", base), None);
    assert_eq!(parse_relative_day_with_base("", base), None);
}

#[test]
fn relative_matchers_report_signed_offsets() {
    assert_eq!(parse_english_relative("in 5 days"), Some(5));
    assert_eq!(parse_english_relative("tomorrow"), None);
    assert_eq!(parse_symbol_relative("+7d"), Some(7));
    assert_eq!(parse_symbol_relative("-4"), Some(-4));
    assert_eq!(parse_symbol_relative("7d"), None);
    assert_eq!(parse_japanese_relative("5日後"), Some(5));
    assert_eq!(parse_japanese_relative("5日前"), Some(-5));
    assert_eq!(parse_japanese_relative("5日"), None);
}

#[test]
fn relative_overflow_saturates_to_an_error() {
    let base = d(2025, 5, 1);
    assert_eq!(parse_relative_day_with_base("+9999999d", base), None);
    let err = parse_date("+9999999d", base).unwrap_err();
    assert_eq!(
        err.message(),
        "expected YYYY-MM-DD date (or relative token), got '+9999999d'"
    );
}

#[test]
fn strict_dates_win_over_relative_tokens() {
    let base = d(2025, 5, 1);
    assert_eq!(parse_date("2025-12-01", base).unwrap(), d(2025, 12, 1));
    assert_eq!(parse_date("2024-02-29", base).unwrap(), d(2024, 2, 29));
    let err = parse_date("2025-02-29", base).unwrap_err();
    assert_eq!(
        err.message(),
        "expected YYYY-MM-DD date (or relative token), got '2025-02-29'"
    );
    assert!(parse_date("2025-13-01", base).is_err());
}

#[test]
fn day_arithmetic_round_trips() {
    let day = date_to_days(&d(2025, 5, 1));
    assert_eq!(days_to_date(day), d(2025, 5, 1));
    assert_eq!(days_to_date(0), d(0, 1, 1));
    assert_eq!(offset_date(&d(2024, 2, 28), 1), Some(d(2024, 2, 29)));
    assert_eq!(offset_date(&d(2025, 2, 28), 1), Some(d(2025, 3, 1)));
    assert_eq!(offset_date(&d(9999, 12, 31), 1), None);
    assert_eq!(offset_date(&d(0, 1, 1), -1), None);
}

#[test]
fn time_of_day_accepts_both_clock_formats() {
    let t = parse_time_of_day("09:00").unwrap();
    assert_eq!((t.hour, t.minute, t.second), (9, 0, 0));
    let t = parse_time_of_day("23:59:58").unwrap();
    assert_eq!((t.hour, t.minute, t.second), (23, 59, 58));
    let err = parse_time_of_day("9:00").unwrap_err();
    assert_eq!(err.message(), "expected HH:MM or HH:MM:SS time-of-day, got '9:00'");
    assert!(parse_time_of_day("24:00").is_err());
    assert!(parse_time_of_day("12:60").is_err());
}

#[test]
fn rfc3339_parsing_normalizes_offsets_to_utc() {
    let a = parse_explicit_instant("2024-06-01T09:00:00+09:00").unwrap();
    let b = parse_explicit_instant("2024-06-01T00:00:00Z").unwrap();
    assert_eq!(a, b);
    assert_eq!(rfc3339_utc_string(&a), "2024-06-01T00:00:00+00:00");
    let c = parse_explicit_instant("2024-06-01T00:00:00.500-01:30").unwrap();
    assert_eq!(rfc3339_utc_string(&c), "2024-06-01T01:30:00+00:00");
    let err = parse_explicit_instant("junk").unwrap_err();
    assert_eq!(err.message(), "expected RFC3339 timestamp, got 'junk'");
    assert!(parse_explicit_instant("2024-06-01 09:00:00").is_err());
    let stored = parse_utc("2025-01-01T00:00:00+00:00").unwrap();
    assert_eq!(rfc3339_utc_string(&stored), "2025-01-01T00:00:00+00:00");
    let err = parse_utc("nope").unwrap_err();
    assert_eq!(err.message(), "invalid timestamp 'nope'");
}

#[test]
fn timed_range_uses_explicit_end_duration_or_default() {
    let t = parse_timed_range(
        &args(Some("2025-12-01T09:00:00+00:00"), None, None, Some("2025-12-01T10:30:00+00:00"), None),
        1800,
    )
    .unwrap();
    assert_eq!(t.ends_at.secs - t.starts_at.secs, 5400);

    let t = parse_timed_range(
        &args(Some("2025-12-01T09:00:00+00:00"), None, None, None, Some("30m")),
        1800,
    )
    .unwrap();
    assert_eq!(rfc3339_utc_string(&t.starts_at), "2025-12-01T09:00:00+00:00");
    assert_eq!(rfc3339_utc_string(&t.ends_at), "2025-12-01T09:30:00+00:00");

    let t = parse_timed_range(
        &args(Some("2025-12-01T09:00:00+00:00"), None, None, None, Some("1h30m")),
        1800,
    )
    .unwrap();
    assert_eq!(t.ends_at.secs - t.starts_at.secs, 5400);

    let t = parse_timed_range(&args(Some("2025-12-01T09:00:00+00:00"), None, None, None, None), 1800)
        .unwrap();
    assert_eq!(rfc3339_utc_string(&t.ends_at), "2025-12-01T09:30:00+00:00");
}

#[test]
fn component_starts_stay_within_a_day_of_their_civil_value() {
    // the zone's offset can shift the instant, but never by a day or more
    let epoch = date_to_days(&d(1970, 1, 1));
    let civ = (date_to_days(&d(2025, 12, 1)) - epoch) * 86400 + 9 * 3600;
    let t = parse_timed_range(
        &args(None, Some("2025-12-01"), Some("09:00"), None, Some("30m")),
        1800,
    )
    .unwrap();
    assert!(civ - 86400 < t.starts_at.secs && t.starts_at.secs < civ + 86400);
    assert_eq!(t.ends_at.secs - t.starts_at.secs, 1800);

    let start_mid = (date_to_days(&d(2025, 6, 1)) - epoch) * 86400;
    let end_mid = (date_to_days(&d(2025, 6, 4)) - epoch) * 86400;
    let t = parse_all_day_range(&args(Some("2025-06-01"), None, None, Some("2025-06-03"), None), 86400)
        .unwrap();
    assert!(start_mid - 86400 < t.starts_at.secs && t.starts_at.secs < start_mid + 86400);
    assert!(end_mid - 86400 < t.ends_at.secs && t.ends_at.secs < end_mid + 86400);
}

#[test]
fn timed_range_rejects_bad_input() {
    let err = parse_timed_range(&args(None, None, None, None, None), 1800).unwrap_err();
    assert_eq!(
        err.message(),
        "provide --start or --date/--time to define a start instant"
    );

    let err = parse_timed_range(
        &args(Some("2025-12-01T10:00:00+00:00"), None, None, Some("2025-12-01T09:00:00+00:00"), None),
        1800,
    )
    .unwrap_err();
    assert_eq!(err.message(), "--end must be later than --start");

    let err = parse_timed_range(
        &args(Some("2025-12-01T09:00:00+00:00"), None, None, None, Some("soon")),
        1800,
    )
    .unwrap_err();
    assert_eq!(err.message(), "failed to parse duration 'soon'");

    let err = parse_timed_range(
        &args(Some("9999-12-31T23:00:00+00:00"), None, None, None, Some("2h")),
        1800,
    )
    .unwrap_err();
    assert_eq!(err.message(), "duration pushes end time out of range");

    let err = parse_timed_range(
        &args(Some("9999-12-31T23:59:00+00:00"), None, None, None, None),
        1800,
    )
    .unwrap_err();
    assert_eq!(err.message(), "default duration pushes end time out of range");
}

#[test]
fn all_day_range_stores_exclusive_end_midnights() {
    // boundaries are local midnights; the exclusive end lies one day past
    // the inclusive end date, three days after the start here
    let t = parse_all_day_range(&args(Some("2025-06-01"), None, None, Some("2025-06-03"), None), 86400)
        .unwrap();
    let span = t.ends_at.secs - t.starts_at.secs;
    assert!(span >= 3 * 86400 - 7200 && span <= 3 * 86400 + 7200);

    let t = parse_all_day_range(&args(None, Some("2025-06-01"), None, None, None), 86400).unwrap();
    assert_eq!(t.ends_at.secs - t.starts_at.secs, 86400);

    let err =
        parse_all_day_range(&args(None, None, None, None, None), 86400).unwrap_err();
    assert_eq!(err.message(), "provide --start (date) or --date for all-day events");

    let err = parse_all_day_range(
        &args(Some("2025-06-05"), None, None, Some("2025-06-01"), None),
        86400,
    )
    .unwrap_err();
    assert_eq!(err.message(), "--end must be later than --start");

    let err = parse_all_day_range(
        &args(Some("9999-12-30"), None, None, Some("9999-12-31"), None),
        86400,
    )
    .unwrap_err();
    assert_eq!(err.message(), "date overflow");
}

#[test]
fn day_range_brackets_one_day() {
    let (lo, hi) = day_range_with_base("2025-05-01", d(2025, 1, 1)).unwrap();
    assert_eq!(lo, "2025-05-01T00:00:00+00:00");
    assert_eq!(hi, "2025-05-02T00:00:00+00:00");
    let (lo, hi) = day_range_with_base("tomorrow", d(2025, 4, 30)).unwrap();
    assert_eq!(lo, "2025-05-01T00:00:00+00:00");
    assert_eq!(hi, "2025-05-02T00:00:00+00:00");
    assert!(day_range_with_base("garbage", d(2025, 1, 1)).is_err());
}

#[test]
fn timings_always_end_after_they_start() {
    let cases: Vec<Option<EventTiming>> = vec![
        parse_timed_range(
            &args(Some("2025-12-01T09:00:00+00:00"), None, None, None, Some("1m")),
            1800,
        )
        .ok(),
        parse_all_day_range(&args(Some("2025-06-01"), None, None, None, None), 86400).ok(),
        parse_all_day_range(&args(Some("2025-06-01"), None, None, Some("2025-06-01"), None), 86400)
            .ok(),
    ];
    for t in cases.into_iter().flatten() {
        assert!(t.ends_at.secs > t.starts_at.secs);
    }
}

#[test]
fn instants_survive_the_stored_form() {
    for s in [
        "0000-01-01T00:00:00+00:00",
        "1969-12-31T23:59:59+00:00",
        "1970-01-01T00:00:00+00:00",
        "2038-01-19T03:14:08+00:00",
        "9999-12-31T23:59:59+00:00",
    ] {
        let t: Instant = parse_utc(s).unwrap();
        assert_eq!(rfc3339_utc_string(&t), s);
    }
    assert!(parse_utc("0000-01-01T00:00:00+00:30").is_err());
    assert!(parse_utc("9999-12-31T23:59:59-00:30").is_err());
}

#[test]
fn selector_errors_name_the_missing_flags() {
    let err: TimeError = parse_selector(None, None).unwrap_err();
    assert_eq!(err.message(), "Provide either --id or --title");
    assert!(matches!(parse_selector(Some(3), None).unwrap(), TargetSelector::ById(3)));
    assert!(matches!(
        parse_selector(None, Some("T")).unwrap(),
        TargetSelector::ByTitle(t) if t == "T"
    ));
    assert!(matches!(
        parse_selector(Some(3), Some("T")).unwrap(),
        TargetSelector::Both(3, t) if t == "T"
    ));
    assert_eq!(
        TimeError::NotFoundById { id: 7 }.message(),
        "No event found with id 7"
    );
    assert_eq!(
        TimeError::NotFoundById { id: 120 }.message(),
        "No event found with id 120"
    );
}
