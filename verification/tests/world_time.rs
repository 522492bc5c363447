use calendar::text::trimmed;
use calendar::world_time::lowered_texts_match;
use calendar::domain::WorldClockConfig;
use calendar::world_time::{
    build_snapshot, format_offset, list_cities, make_snapshot, offset_minutes_from, search_cities,
    snapshot, snapshots, snapshots_at, to_12h, CalendarDate, ClockReading, CITY_COUNT,
    EARLIEST_SECONDS, LATEST_SECONDS,
};

fn labels(v: &[calendar::domain::City]) -> Vec<String> {
    v.iter().map(|c| c.label.clone()).collect()
}

#[test]
fn lists_all_cities_in_order() {
    let cities = list_cities();
    assert_eq!(cities.len(), CITY_COUNT);
    assert_eq!(cities.len(), 52);
    assert_eq!(cities[0].label, "北京");
    assert_eq!(cities[0].timezone, "Asia/Shanghai");
    assert_eq!(cities[0].country.as_deref(), Some("中国"));
    assert_eq!(cities[51].label, "斐济");
    assert_eq!(cities[51].timezone, "Pacific/Fiji");
    assert_eq!(cities[27].label, "伦敦");
}

#[test]
fn empty_or_blank_query_lists_everything() {
    assert_eq!(search_cities("").len(), 52);
    assert_eq!(search_cities("   ").len(), 52);
}

#[test]
fn search_ignores_case_and_surrounding_space() {
    assert_eq!(labels(&search_cities("  TOKYO ")), vec!["东京"]);
    assert_eq!(labels(&search_cities("asia/kolkata")), vec!["加尔各答", "新德里", "孟买"]);
    assert_eq!(labels(&search_cities("Europe/Berlin")), vec!["柏林", "法兰克福"]);
}

#[test]
fn search_matches_label_zone_and_country() {
    assert_eq!(labels(&search_cities("中国")), vec!["北京", "上海", "香港", "台北"]);
    assert_eq!(labels(&search_cities("香港")), vec!["香港"]);
    assert_eq!(search_cities("america").len(), 13);
    assert_eq!(search_cities("an").len(), 13);
    assert!(search_cities("zzz").is_empty());
}

#[test]
fn twelve_hour_forms() {
    assert_eq!(to_12h(0), ("AM", 12));
    assert_eq!(to_12h(1), ("AM", 1));
    assert_eq!(to_12h(11), ("AM", 11));
    assert_eq!(to_12h(12), ("PM", 12));
    assert_eq!(to_12h(13), ("PM", 1));
    assert_eq!(to_12h(23), ("PM", 11));
}

#[test]
fn twelve_hour_round_trip_for_every_hour() {
    for hour in 0..24u32 {
        let (period, h) = to_12h(hour);
        assert!((1..=12).contains(&h));
        let back = h % 12 + if period == "PM" { 12 } else { 0 };
        assert_eq!(back, hour);
    }
}

#[test]
fn offsets_are_read_from_percent_z_text() {
    assert_eq!(offset_minutes_from("+0800"), 480);
    assert_eq!(offset_minutes_from("-0330"), -210);
    assert_eq!(offset_minutes_from("+0545"), 345);
    assert_eq!(offset_minutes_from("+0000"), 0);
    assert_eq!(offset_minutes_from("+08"), 0);
    assert_eq!(offset_minutes_from(""), 0);
    assert_eq!(offset_minutes_from("x0a30"), 30);
    assert_eq!(offset_minutes_from("-1200extra"), -720);
}

#[test]
fn offset_text_round_trip() {
    for m in [-5999i32, -720, -210, -1, 0, 1, 59, 60, 345, 480, 5999] {
        let a = m.abs();
        let text = format!("{}{:02}{:02}", if m < 0 { '-' } else { '+' }, a / 60, a % 60);
        assert_eq!(offset_minutes_from(&text), m);
    }
}

#[test]
fn offset_labels() {
    assert_eq!(format_offset(480), "UTC+8");
    assert_eq!(format_offset(330), "UTC+5:30");
    assert_eq!(format_offset(-210), "UTC-3:30");
    assert_eq!(format_offset(0), "UTC+0");
    assert_eq!(format_offset(65), "UTC+1:5");
    assert_eq!(format_offset(-5), "UTC-0:5");
    assert_eq!(format_offset(-720), "UTC-12");
}

fn reading(hour: u32, minute: u32, offset: &str) -> ClockReading {
    ClockReading { year: 2024, month: 3, day: 5, hour, minute, weekday: 2, offset: offset.to_string(), instant: 0 }
}

#[test]
fn snapshot_of_a_reading() {
    let today = CalendarDate { year: 2024, month: 3, day: 5 };
    let s = make_snapshot("北京", "Asia/Shanghai", &reading(0, 7, "+0800"), Some(today));
    assert_eq!(s.label, "北京");
    assert_eq!(s.timezone, "Asia/Shanghai");
    assert_eq!(s.time_24, "00:07");
    assert_eq!(s.time_12, "12:07 AM");
    assert_eq!(s.date, "2024-03-05");
    assert_eq!(s.weekday, "星期二");
    assert_eq!(s.offset_label, "UTC+8");
    assert_eq!(s.offset_minutes, 480);
    assert!(s.is_today);

    let s = make_snapshot("x", "y", &reading(15, 45, "-0930"), Some(CalendarDate { year: 2024, month: 3, day: 6 }));
    assert_eq!(s.time_24, "15:45");
    assert_eq!(s.time_12, "03:45 PM");
    assert_eq!(s.offset_label, "UTC-9:30");
    assert_eq!(s.offset_minutes, -570);
    assert!(!s.is_today);

    let s = make_snapshot("x", "y", &reading(12, 0, "+0000"), None);
    assert_eq!(s.time_12, "12:00 PM");
    assert!(s.is_today);
}

#[test]
fn snapshot_years_are_printed_in_full() {
    let mut r = reading(1, 2, "+0100");
    r.year = -44;
    let s = make_snapshot("x", "y", &r, None);
    assert_eq!(s.date, "-44-03-05");
    r.year = 12345;
    assert_eq!(make_snapshot("x", "y", &r, None).date, "12345-03-05");
}

#[test]
fn snapshot_in_a_named_zone_at_the_epoch() {
    let s = build_snapshot("东京", "Asia/Tokyo", 0, None).expect("known zone");
    assert_eq!(s.time_24, "09:00");
    assert_eq!(s.time_12, "09:00 AM");
    assert_eq!(s.date, "1970-01-01");
    assert_eq!(s.weekday, "星期四");
    assert_eq!(s.offset_label, "UTC+9");
    assert_eq!(s.offset_minutes, 540);

    let s = build_snapshot("加尔各答", "Asia/Kolkata", 0, Some(CalendarDate { year: 1970, month: 1, day: 1 }))
        .expect("known zone");
    assert_eq!(s.time_24, "05:30");
    assert_eq!(s.offset_label, "UTC+5:30");
    assert_eq!(s.offset_minutes, 330);
    assert!(s.is_today);

    let s = build_snapshot("纽约", "America/New_York", 0, Some(CalendarDate { year: 1970, month: 1, day: 1 }))
        .expect("known zone");
    assert_eq!(s.date, "1969-12-31");
    assert_eq!(s.time_24, "19:00");
    assert_eq!(s.time_12, "07:00 PM");
    assert_eq!(s.weekday, "星期三");
    assert_eq!(s.offset_label, "UTC-5");
    assert!(!s.is_today);
}

#[test]
fn unknown_zone_gives_no_snapshot() {
    assert!(build_snapshot("火星", "Mars/Olympus", 0, None).is_none());
    assert!(build_snapshot("x", "asia/tokyo", 0, None).is_none());
}

#[test]
fn local_zone_name_in_any_case() {
    let s = build_snapshot("本地", "LoCaL", 0, None).expect("local reading");
    assert_eq!(s.timezone, "local");
    assert_eq!(s.label, "本地");
}

#[test]
fn snapshots_skip_unknown_zones() {
    let configs = vec![
        WorldClockConfig { label: "东京".into(), timezone: "Asia/Tokyo".into() },
        WorldClockConfig { label: "?".into(), timezone: "Nowhere/City".into() },
        WorldClockConfig { label: "伦敦".into(), timezone: "Europe/London".into() },
    ];
    let shown = snapshots_at(&configs, 0, None);
    assert_eq!(shown.len(), 2);
    assert_eq!(shown[0].label, "东京");
    assert_eq!(shown[1].label, "伦敦");
    assert_eq!(shown[1].time_24, "01:00");
    assert_eq!(snapshots(&configs).len(), 2);
    assert!(snapshot(&configs[1]).is_none());
    assert!(snapshot(&configs[0]).is_some());
}

#[test]
fn blank_queries_with_any_white_space_list_everything() {
    assert_eq!(search_cities(" \t\n\u{3000}").len(), 52);
    assert_eq!(search_cities("\u{a0}").len(), 52);
}

#[test]
fn a_longer_query_never_adds_cities() {
    let wide = labels(&search_cities("a"));
    let narrow = labels(&search_cities("america/"));
    let mut it = wide.iter();
    for n in &narrow {
        assert!(it.any(|w| w == n), "{n} out of order or missing");
    }
    assert!(narrow.len() <= wide.len());
}

#[test]
fn chrono_range_bounds() {
    assert!(chrono::DateTime::from_timestamp(LATEST_SECONDS, 0).is_some());
    assert!(chrono::DateTime::from_timestamp(LATEST_SECONDS + 1, 0).is_none());
    assert!(chrono::DateTime::from_timestamp(EARLIEST_SECONDS, 0).is_some());
    assert!(chrono::DateTime::from_timestamp(EARLIEST_SECONDS - 1, 0).is_none());
}

#[test]
fn local_clock_within_range_and_none_outside() {
    assert!(build_snapshot("本地", "local", LATEST_SECONDS, None).is_some());
    assert!(build_snapshot("本地", "local", LATEST_SECONDS + 1, None).is_none());
    assert!(build_snapshot("东京", "Asia/Tokyo", LATEST_SECONDS + 1, None).is_none());
    assert!(build_snapshot("东京", "Asia/Tokyo", EARLIEST_SECONDS, None).is_some());
    let configs = vec![calendar::domain::WorldClockConfig { label: "本地".into(), timezone: "LOCAL".into() }];
    assert_eq!(snapshots(&configs).len(), 1);
}

#[test]
fn search_with_upper_case_and_spaces() {
    assert_eq!(labels(&search_cities("  KOLKATA ")), vec!["加尔各答", "新德里", "孟买"]);
}

#[test]
fn matching_on_lowered_texts() {
    let q: Vec<char> = "kolkata".chars().collect();
    assert!(lowered_texts_match("孟买", "asia/kolkata", Some("印度"), &q));
    assert!(!lowered_texts_match("孟买", "asia/tokyo", Some("印度"), &q));
    assert!(lowered_texts_match("x", "y", Some("kolkata"), &q));
    assert!(!lowered_texts_match("x", "y", None, &q));
}

#[test]
fn trimming_removes_unicode_white_space_at_both_ends() {
    assert_eq!(trimmed("  a b \t"), "a b");
    assert_eq!(trimmed("\u{3000}东京\u{2028}"), "东京");
    assert_eq!(trimmed(" \t "), "");
    assert_eq!(trimmed(""), "");
    assert_eq!(trimmed("x"), "x");
    for s in ["  a ", "\u{85}b\u{a0}", "\u{200b}c"] {
        assert_eq!(trimmed(s), s.trim());
    }
}

#[test]
fn every_offered_zone_is_known_and_labels_are_distinct() {
    let cities = list_cities();
    for c in &cities {
        assert!(build_snapshot(&c.label, &c.timezone, 0, None).is_some(), "{}", c.timezone);
    }
    let mut seen = std::collections::HashSet::new();
    for c in &cities {
        assert!(seen.insert(c.label.clone()), "{}", c.label);
    }
}
