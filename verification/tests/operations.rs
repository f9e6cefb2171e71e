use toki_note::config::{
    Config, DatabaseSection, DatabaseSource, IcalSection, ImportSection, RssSection,
};
use toki_note::events::{
    AddCommand, MoveCommand, NewEvent, StoredEvent, build_new_event, normalize_tags,
    pick_single_match, plan_move,
};
use toki_note::dates::Date;
use toki_note::ics::{IcsProperty, convert_ics_event, parse_datetime_value, unescape_ics_text};
use toki_note::render::{DisplayZone, format_event_timing, parse_timezone};
use toki_note::rfc3339::rfc3339_utc_string;
use toki_note::timing::parse_utc;
use toki_note::zones::{LocalResolve, classify_local_resolution};

fn today() -> Date {
    Date { year: 2025, month: 5, day: 1 }
}

fn add_cmd() -> AddCommand {
    AddCommand {
        title: "T".to_owned(),
        start: None,
        end: None,
        note: None,
        tags: Vec::new(),
        all_day: false,
        duration: None,
        date: None,
        time: None,
    }
}

fn stored(starts: &str, ends: &str, all_day: bool) -> StoredEvent {
    StoredEvent {
        id: 1,
        title: "T".to_owned(),
        starts_at: starts.to_owned(),
        ends_at: ends.to_owned(),
        note: String::new(),
        all_day,
        uid: None,
        tags: Vec::new(),
    }
}

#[test]
fn add_with_explicit_instants_stores_canonical_timestamps() {
    let mut cmd = add_cmd();
    cmd.start = Some("2025-12-01T09:00:00+00:00".to_owned());
    cmd.duration = Some("30m".to_owned());
    let ev: NewEvent = build_new_event(cmd, today()).unwrap();
    assert_eq!(ev.starts_at, "2025-12-01T09:00:00+00:00");
    assert_eq!(ev.ends_at, "2025-12-01T09:30:00+00:00");
    assert!(!ev.all_day);
    assert_eq!(ev.title, "T");
}

#[test]
fn add_all_day_range_keeps_user_end_inclusive() {
    let mut cmd = add_cmd();
    cmd.all_day = true;
    cmd.start = Some("2025-06-01".to_owned());
    cmd.end = Some("2025-06-03".to_owned());
    let ev = build_new_event(cmd, today()).unwrap();
    assert!(ev.all_day);
    // boundaries are local midnights in canonical UTC form; re-rendering in
    // the same zone recovers the entered dates, the end inclusive again
    let start = parse_utc(&ev.starts_at).unwrap();
    let end = parse_utc(&ev.ends_at).unwrap();
    let span = end.secs - start.secs;
    assert!(span >= 3 * 86400 - 7200 && span <= 3 * 86400 + 7200);

    let row = stored(&ev.starts_at, &ev.ends_at, true);
    let line = format_event_timing(&row, &DisplayZone::Local).unwrap();
    assert_eq!(line, "2025-06-01 -> 2025-06-03 (all-day, local)");
}

#[test]
fn duration_and_all_day_always_conflict() {
    let mut cmd = add_cmd();
    cmd.all_day = true;
    cmd.duration = Some("30m".to_owned());
    cmd.start = Some("2025-06-01".to_owned());
    let err = build_new_event(cmd, today()).unwrap_err();
    assert_eq!(err.message(), "--duration cannot be used with --all-day");

    let mut cmd = add_cmd();
    cmd.all_day = true;
    cmd.duration = Some("2h".to_owned());
    cmd.end = Some("2025-06-03".to_owned());
    cmd.note = Some("n".to_owned());
    let err = build_new_event(cmd, today()).unwrap_err();
    assert_eq!(err.message(), "--duration cannot be used with --all-day");
}

#[test]
fn moving_only_the_start_preserves_the_span() {
    let event = stored("2025-12-04T08:00:00+00:00", "2025-12-04T10:00:00+00:00", false);
    let cmd = MoveCommand {
        id: Some(1),
        title: None,
        start: Some("2025-12-05T14:45:00+00:00".to_owned()),
        date: None,
        time: None,
        end: None,
        duration: None,
    };
    let t = plan_move(&cmd, &event).unwrap();
    assert_eq!(rfc3339_utc_string(&t.starts_at), "2025-12-05T14:45:00+00:00");
    assert_eq!(t.ends_at.secs - t.starts_at.secs, 7200);
    assert_eq!(rfc3339_utc_string(&t.ends_at), "2025-12-05T16:45:00+00:00");
}

#[test]
fn moving_an_all_day_event_with_a_duration_is_refused() {
    let event = stored("2025-06-01T00:00:00+00:00", "2025-06-04T00:00:00+00:00", true);
    let cmd = MoveCommand {
        id: Some(1),
        title: None,
        start: Some("2025-07-01".to_owned()),
        date: None,
        time: None,
        end: None,
        duration: Some("2h".to_owned()),
    };
    let err = plan_move(&cmd, &event).unwrap_err();
    assert_eq!(err.message(), "--duration cannot be used with --all-day");
}

#[test]
fn moving_without_any_field_is_refused() {
    let event = stored("2025-12-04T08:00:00+00:00", "2025-12-04T10:00:00+00:00", false);
    let cmd = MoveCommand {
        id: Some(1),
        title: None,
        start: None,
        date: None,
        time: None,
        end: None,
        duration: None,
    };
    let err = plan_move(&cmd, &event).unwrap_err();
    assert_eq!(
        err.message(),
        "provide --start/--date/--time/--end/--duration to adjust an event"
    );
}

#[test]
fn title_lookup_must_match_exactly_one() {
    let err = pick_single_match(Vec::new(), "Gone").unwrap_err();
    assert_eq!(err.message(), "No events found titled 'Gone'");
    let two = vec![
        stored("2025-01-01T09:00:00+00:00", "2025-01-01T10:00:00+00:00", false),
        stored("2025-01-02T09:00:00+00:00", "2025-01-02T10:00:00+00:00", false),
    ];
    let err = pick_single_match(two, "Dup").unwrap_err();
    assert_eq!(
        err.message(),
        "Multiple events titled 'Dup'. Use --id to specify which one to move."
    );
    let one = vec![stored("2025-01-01T09:00:00+00:00", "2025-01-01T10:00:00+00:00", false)];
    assert_eq!(pick_single_match(one, "T").unwrap().id, 1);
}

#[test]
fn round_trip_renders_the_original_civil_time() {
    let row = stored("2025-12-05T14:45:00+00:00", "2025-12-05T15:45:00+00:00", false);
    let zone = parse_timezone(Some("UTC")).unwrap();
    let line = format_event_timing(&row, &zone).unwrap();
    assert_eq!(line, "2025-12-05 14:45 UTC -> 2025-12-05 15:45 UTC (UTC)");
}

#[test]
fn named_zones_shift_the_displayed_clock() {
    let row = stored("2025-01-15T12:00:00+00:00", "2025-01-15T13:00:00+00:00", false);
    let zone = parse_timezone(Some("Europe/Paris")).unwrap();
    let line = format_event_timing(&row, &zone).unwrap();
    assert_eq!(line, "2025-01-15 13:00 CET -> 2025-01-15 14:00 CET (Europe/Paris)");
}

#[test]
fn unknown_zones_fail_naming_the_literal() {
    let err = parse_timezone(Some("Nope/Zone")).unwrap_err();
    assert_eq!(err.message(), "unknown timezone 'Nope/Zone'");
    assert!(matches!(parse_timezone(None).unwrap(), DisplayZone::Local));
}

#[test]
fn rendering_rejects_corrupt_stored_timestamps() {
    let row = stored("garbage", "2025-01-15T13:00:00+00:00", false);
    let zone = parse_timezone(Some("UTC")).unwrap();
    let err = format_event_timing(&row, &zone).unwrap_err();
    assert_eq!(err.message(), "invalid timestamp 'garbage'");
}

#[test]
fn dst_outcomes_carry_the_literal_and_candidates() {
    let err = classify_local_resolution(LocalResolve::Gap, "02:30").unwrap_err();
    assert_eq!(
        err.message(),
        "time '02:30' does not exist in the current timezone (DST transition)"
    );
    let err = classify_local_resolution(LocalResolve::Ambiguous(3600, 7200), "01:30").unwrap_err();
    assert_eq!(
        err.message(),
        "time '01:30' is ambiguous (1970-01-01T01:00:00+00:00 or 1970-01-01T02:00:00+00:00) due to DST"
    );
    let ok = classify_local_resolution(LocalResolve::Single(3600), "01:00").unwrap();
    assert_eq!(ok.secs, 3600);
}

#[test]
fn zone_gaps_and_overlaps_fail_during_import() {
    let err = parse_datetime_value("20250309T023000", Some("America/New_York")).unwrap_err();
    assert_eq!(
        err.message(),
        "ambiguous local time for 20250309T023000 in America/New_York"
    );
    let err = parse_datetime_value("20251102T013000", Some("America/New_York")).unwrap_err();
    assert_eq!(
        err.message(),
        "ambiguous local time for 20251102T013000 in America/New_York"
    );
    let t = parse_datetime_value("20250115T070000", Some("America/New_York")).unwrap();
    assert_eq!(rfc3339_utc_string(&t), "2025-01-15T12:00:00+00:00");
    let err = parse_datetime_value("20250115T070000", Some("Mars/Olympus")).unwrap_err();
    assert_eq!(err.message(), "unknown timezone 'Mars/Olympus'");
}

#[test]
fn import_datetime_marker_rules() {
    let t = parse_datetime_value("20250101T090000Z", None).unwrap();
    assert_eq!(rfc3339_utc_string(&t), "2025-01-01T09:00:00+00:00");
    let t = parse_datetime_value("20250101T090000", None).unwrap();
    assert_eq!(rfc3339_utc_string(&t), "2025-01-01T09:00:00+00:00");
    let err = parse_datetime_value("2025-01-01", None).unwrap_err();
    assert_eq!(err.message(), "invalid datetime '2025-01-01'");
}

fn prop(name: &str, value: &str) -> IcsProperty {
    IcsProperty {
        name: name.to_owned(),
        value: Some(value.to_owned()),
        params: Vec::new(),
    }
}

#[test]
fn ics_events_become_canonical_rows() {
    let props = vec![
        prop("DTSTART", "20250101T090000Z"),
        prop("SUMMARY", "Meeting"),
        prop("CATEGORIES", "a, b,,c "),
        prop("UID", "abc-123"),
    ];
    let ev = convert_ics_event(&props).unwrap().unwrap();
    assert_eq!(ev.starts_at, "2025-01-01T09:00:00+00:00");
    assert_eq!(ev.ends_at, "2025-01-01T10:00:00+00:00");
    assert!(!ev.all_day);
    assert_eq!(ev.title, "Meeting");
    assert_eq!(ev.tags, vec!["a", "b", "c"]);
    assert_eq!(ev.uid.as_deref(), Some("abc-123"));
}

#[test]
fn ics_all_day_events_use_date_boundaries() {
    let props = vec![prop("DTSTART", "20250601"), prop("DTEND", "20250603")];
    let ev = convert_ics_event(&props).unwrap().unwrap();
    assert!(ev.all_day);
    assert_eq!(ev.starts_at, "2025-06-01T00:00:00+00:00");
    assert_eq!(ev.ends_at, "2025-06-03T00:00:00+00:00");
    assert_eq!(ev.title, "Imported event");

    let props = vec![prop("DTSTART", "20250601")];
    let ev = convert_ics_event(&props).unwrap().unwrap();
    assert_eq!(ev.ends_at, "2025-06-02T00:00:00+00:00");

    let props = vec![prop("SUMMARY", "No start")];
    assert!(convert_ics_event(&props).unwrap().is_none());

    let props = vec![prop("DTSTART", "junk")];
    let err = convert_ics_event(&props).unwrap_err();
    assert_eq!(err.message(), "invalid datetime 'junk'");
}

#[test]
fn ics_value_date_marker_wins_over_length() {
    let start = IcsProperty {
        name: "DTSTART".to_owned(),
        value: Some("20250601T090000".to_owned()),
        params: vec![("VALUE".to_owned(), vec!["DATE".to_owned()])],
    };
    let err = convert_ics_event(&vec![start]).unwrap_err();
    assert_eq!(err.message(), "invalid date '20250601T090000'");
}

#[test]
fn ics_text_unescapes_the_reserved_characters() {
    assert_eq!(unescape_ics_text("a\\nb"), "a\nb");
    assert_eq!(unescape_ics_text("a\\Nb"), "a\nb");
    assert_eq!(unescape_ics_text("x\\,y"), "x,y");
    assert_eq!(unescape_ics_text("p\\;q"), "p;q");
    assert_eq!(unescape_ics_text("one\\\\two"), "one\\two");
    assert_eq!(unescape_ics_text("plain"), "plain");
}

#[test]
fn tags_are_folded_and_deduplicated() {
    let tags = vec!["Work".to_owned(), "work".to_owned(), "Home".to_owned()];
    let out = normalize_tags(&tags);
    assert_eq!(out, vec!["work", "home"]);
    let out = normalize_tags(&Vec::new());
    assert!(out.is_empty());
}

#[test]
fn config_paths_prefer_sections_over_legacy_keys() {
    let cfg = Config {
        database: Some(DatabaseSource::Path("/tmp/custom.db".to_owned())),
        rss: RssSection { output: Some("/tmp/rss.xml".to_owned()) },
        ical: IcalSection { output: None },
        import: ImportSection { source: None },
        rss_output: Some("/tmp/legacy.xml".to_owned()),
        ical_output: Some("/tmp/legacy.ics".to_owned()),
        import_source: Some("/tmp/import.ics".to_owned()),
    };
    assert_eq!(cfg.database_path().as_deref(), Some("/tmp/custom.db"));
    assert_eq!(cfg.rss_output_path().as_deref(), Some("/tmp/rss.xml"));
    assert_eq!(cfg.ical_output_path().as_deref(), Some("/tmp/legacy.ics"));
    assert_eq!(cfg.import_source_path().as_deref(), Some("/tmp/import.ics"));

    let cfg = Config {
        database: Some(DatabaseSource::Section(DatabaseSection {
            path: Some("/tmp/from-section.db".to_owned()),
        })),
        rss: RssSection { output: None },
        ical: IcalSection { output: None },
        import: ImportSection { source: None },
        rss_output: None,
        ical_output: None,
        import_source: None,
    };
    assert_eq!(cfg.database_path().as_deref(), Some("/tmp/from-section.db"));
    assert_eq!(cfg.rss_output_path(), None);
}

#[test]
fn stored_timing_is_reparsed_exactly() {
    let t = parse_utc("2025-05-01T09:00:00+00:00").unwrap();
    assert_eq!(rfc3339_utc_string(&t), "2025-05-01T09:00:00+00:00");
}
