use calendar::domain::StoreData;
use calendar::weather::{
    backoff_seconds, current_conditions, describe, in_backoff, is_stale, plan_panel, plan_refresh,
    stale_report, unavailable_message, PanelPlan, RefreshPlan,
};

#[test]
fn backoff_doubles_from_a_minute_up_to_thirty() {
    assert_eq!(backoff_seconds(0), 60);
    assert_eq!(backoff_seconds(1), 60);
    assert_eq!(backoff_seconds(2), 120);
    assert_eq!(backoff_seconds(3), 240);
    assert_eq!(backoff_seconds(4), 480);
    assert_eq!(backoff_seconds(5), 960);
    assert_eq!(backoff_seconds(6), 1800);
    assert_eq!(backoff_seconds(30), 1800);
    assert_eq!(backoff_seconds(58), 1800);
}

#[test]
fn backoff_wraps_past_fifty_eight_failures() {
    assert_eq!(backoff_seconds(59), -(1i64 << 60));
    assert_eq!(backoff_seconds(60), -(1i64 << 61));
    assert_eq!(backoff_seconds(61), -(1i64 << 62));
    assert_eq!(backoff_seconds(62), i64::MIN);
    assert_eq!(backoff_seconds(63), 0);
    assert_eq!(backoff_seconds(64), 0);
    assert_eq!(backoff_seconds(65), 0);
    assert_eq!(backoff_seconds(u32::MAX), 0);
}

#[test]
fn backoff_grows_monotonically() {
    for f in 1..58u32 {
        assert!(backoff_seconds(f) <= backoff_seconds(f + 1));
        assert!(backoff_seconds(f) >= 60 && backoff_seconds(f) <= 1800);
    }
}

#[test]
fn staleness_after_thirty_minutes() {
    assert!(!is_stale(1000, 1000));
    assert!(!is_stale(1000, 2799));
    assert!(is_stale(1000, 2800));
    assert!(!is_stale(5000, 1000));
    assert!(is_stale(i64::MIN, i64::MAX));
    assert!(!is_stale(i64::MAX, i64::MIN));
}

#[test]
fn backoff_window() {
    assert!(!in_backoff(0, Some(100), 100));
    assert!(!in_backoff(3, None, 100));
    assert!(in_backoff(1, Some(100), 159));
    assert!(!in_backoff(1, Some(100), 160));
    assert!(in_backoff(3, Some(100), 339));
    assert!(!in_backoff(3, Some(100), 340));
    assert!(!in_backoff(59, Some(100), 100));
    assert!(!in_backoff(1, Some(i64::MIN), i64::MAX));
}

#[test]
fn failure_holds_back_the_next_minute() {
    let mut s: StoreData<(), ()> = StoreData::empty();
    s.record_failure(1000);
    assert_eq!(s.weather_failures, 1);
    assert!(in_backoff(s.weather_failures, s.last_weather_attempt, 1059));
    assert!(!in_backoff(s.weather_failures, s.last_weather_attempt, 1060));
    s.weather_failures = u32::MAX;
    s.record_failure(2000);
    assert_eq!(s.weather_failures, u32::MAX);
    assert_eq!(s.last_weather_attempt, Some(2000));
}

#[test]
fn backoff_ends_after_thirty_minutes() {
    for f in 1..100u32 {
        assert!(!in_backoff(f, Some(0), 1800));
    }
}

#[test]
fn refresh_plans() {
    assert_eq!(plan_refresh(Some(1000), 5, Some(1000), 2000), RefreshPlan::UseCache { stale: false });
    assert_eq!(plan_refresh(Some(1000), 0, None, 2800), RefreshPlan::Fetch);
    assert_eq!(plan_refresh(Some(1000), 2, Some(2790), 2800), RefreshPlan::UseCache { stale: true });
    assert_eq!(plan_refresh(None, 2, Some(2790), 2800), RefreshPlan::Unavailable);
    assert_eq!(plan_refresh(None, 2, Some(0), 2800), RefreshPlan::Fetch);
    assert_eq!(plan_refresh(None, 0, None, 0), RefreshPlan::Fetch);
}

#[test]
fn panel_plans() {
    assert_eq!(plan_panel(None, 3, Some(0), 1), PanelPlan::FetchNow);
    assert_eq!(plan_panel(Some(0), 0, None, 10), PanelPlan::ShowCached { stale: false, refresh: false });
    assert_eq!(plan_panel(Some(0), 0, None, 1800), PanelPlan::ShowCached { stale: true, refresh: true });
    assert_eq!(plan_panel(Some(0), 1, Some(1790), 1800), PanelPlan::ShowCached { stale: true, refresh: false });
}

#[test]
fn clearing_weather_makes_the_next_request_fetch() {
    let mut s: StoreData<u8, u8> = StoreData::empty();
    s.record_success(1, 2, 500);
    s.record_failure(600);
    s.clear_weather();
    assert_eq!(s.weather, None);
    assert_eq!(s.location, Some(1));
    assert_eq!(plan_refresh(None, s.weather_failures, s.last_weather_attempt, 700), RefreshPlan::Fetch);
}

#[test]
fn success_resets_failures() {
    let mut s: StoreData<u8, u8> = StoreData::empty();
    s.record_failure(10);
    s.record_failure(20);
    assert_eq!(s.weather_failures, 2);
    s.record_success(3, 4, 30);
    assert_eq!((s.location, s.weather, s.weather_failures, s.last_weather_attempt), (Some(3), Some(4), 0, Some(30)));
    assert!(!in_backoff(s.weather_failures, s.last_weather_attempt, 31));
}

#[test]
fn location_changes_drop_the_weather() {
    let mut s: StoreData<u8, u8> = StoreData::empty();
    s.record_success(3, 4, 30);
    s.set_location(9);
    assert_eq!((s.location, s.weather, s.weather_failures, s.last_weather_attempt), (Some(9), None, 0, None));
    s.record_success(3, 4, 30);
    s.remember_location(5);
    assert_eq!((s.location, s.weather), (Some(5), Some(4)));
    s.clear_location();
    assert_eq!((s.location, s.weather, s.last_weather_attempt), (None, None, None));
}

#[test]
fn descriptions_of_codes() {
    assert_eq!(describe(0, true), ("晴".to_string(), "sun".to_string()));
    assert_eq!(describe(0, false), ("晴".to_string(), "moon".to_string()));
    assert_eq!(describe(2, false), ("局部多云".to_string(), "moon-cloud".to_string()));
    assert_eq!(describe(48, true), ("有雾".to_string(), "fog".to_string()));
    assert_eq!(describe(57, true), ("冻毛毛雨".to_string(), "rain".to_string()));
    assert_eq!(describe(86, false), ("阵雪".to_string(), "snow".to_string()));
    assert_eq!(describe(99, true), ("雷暴冰雹".to_string(), "storm".to_string()));
    assert_eq!(describe(4, true), ("未知".to_string(), "cloud".to_string()));
}

#[test]
fn current_conditions_defaults() {
    let c = current_conditions(None, None);
    assert_eq!((c.weather_code, c.is_day, c.description.as_str(), c.icon.as_str()), (0, true, "晴", "sun"));
    let c = current_conditions(Some(3), Some(0));
    assert_eq!((c.weather_code, c.is_day, c.description.as_str(), c.icon.as_str()), (3, false, "阴", "cloud"));
    let c = current_conditions(Some(1), Some(2));
    assert_eq!((c.is_day, c.icon.as_str()), (false, "moon-cloud"));
}

#[test]
fn stale_reports_and_message() {
    let r = stale_report(Some(5u8)).expect("cached");
    assert_eq!((r.data, r.from_cache, r.stale), (5, true, true));
    assert!(stale_report::<u8>(None).is_none());
    assert_eq!(unavailable_message(), "天气服务暂时不可用，请稍后重试");
}
