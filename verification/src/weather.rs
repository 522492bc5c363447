//! When to show cached weather, when to ask the weather service again, how long
//! to wait after failures, and how weather codes are described.

use vstd::prelude::*;
use vstd::arithmetic::power2::pow2;

use crate::domain::{StoreData, WeatherReport};

verus! {

/// How long a weather reading stays fresh, in seconds.
pub const CACHE_TTL_SECONDS: i64 = 1800;

/// The longest wait after failed requests, in seconds.
pub const MAX_BACKOFF_SECONDS: i64 = 1800;

/// The wait after `failures` failed requests: 60 seconds, doubled for each further
/// failure, at most 30 minutes. The doubling is a shift of a 64-bit integer, so from
/// the 59th failure on it wraps: the wait becomes negative (59th to 62nd) and then zero.
pub open spec fn backoff_spec(failures: u32) -> int {
    let s: nat = if failures == 0 { 0 } else { (failures - 1) as nat };
    if s <= 4 {
        (60 * pow2(s)) as int
    } else if s <= 57 {
        1800
    } else if s <= 61 {
        -(pow2(s + 2) as int)
    } else {
        0
    }
}

/// The wait after `failures` failed requests, in seconds.
pub fn backoff_seconds(failures: u32) -> (r: i64)
    ensures
        r == backoff_spec(failures),
{
    let s = failures.saturating_sub(1);
    let base: i64 = if s < 64 {
        60i64 << s
    } else {
        0
    };
    proof {
        vstd::arithmetic::power2::lemma2_to64();
        vstd::arithmetic::power2::lemma2_to64_rest();
        if s < 64 {
            assert(s == 0 ==> (60i64 << s) == 60) by (bit_vector);
            assert(s == 1 ==> (60i64 << s) == 120) by (bit_vector);
            assert(s == 2 ==> (60i64 << s) == 240) by (bit_vector);
            assert(s == 3 ==> (60i64 << s) == 480) by (bit_vector);
            assert(s == 4 ==> (60i64 << s) == 960) by (bit_vector);
            assert(5 <= s <= 57 ==> (60i64 << s) >= 1800) by (bit_vector);
            assert(s == 58 ==> (60i64 << s) == -0x1000_0000_0000_0000i64) by (bit_vector);
            assert(s == 59 ==> (60i64 << s) == -0x2000_0000_0000_0000i64) by (bit_vector);
            assert(s == 60 ==> (60i64 << s) == -0x4000_0000_0000_0000i64) by (bit_vector);
            assert(s == 61 ==> (60i64 << s) == -0x8000_0000_0000_0000i64) by (bit_vector);
            assert(62 <= s <= 63 ==> (60i64 << s) == 0) by (bit_vector);
        }
        if 58 <= s <= 61 {
            // the wrapped shift is minus the power of two named here; naming it lets the
            // solver use the values of `lemma2_to64_rest` for it
            assert(backoff_spec(failures) == -(pow2((s + 2) as nat) as int));
        }
    }
    if base < MAX_BACKOFF_SECONDS {
        base
    } else {
        MAX_BACKOFF_SECONDS
    }
}

/// A reading fetched at `fetched_at` is stale at `now` (30 minutes or older).
pub open spec fn stale_at(fetched_at: int, now: int) -> bool {
    now - fetched_at >= CACHE_TTL_SECONDS
}

/// Whether a reading fetched at `fetched_at` is stale at `now`.
pub fn is_stale(fetched_at: i64, now: i64) -> (r: bool)
    ensures
        r == stale_at(fetched_at as int, now as int),
{
    (now as i128) - (fetched_at as i128) >= CACHE_TTL_SECONDS as i128
}

/// After `failures` failed requests, the last one at `last_attempt`, requests are
/// held back at `now`.
pub open spec fn backoff_at(failures: u32, last_attempt: Option<i64>, now: int) -> bool {
    failures > 0 && match last_attempt {
        Some(t) => now - t < backoff_spec(failures),
        None => false,
    }
}

/// Whether requests are held back at `now`.
pub fn in_backoff(failures: u32, last_attempt: Option<i64>, now: i64) -> (r: bool)
    ensures
        r == backoff_at(failures, last_attempt, now as int),
{
    if failures == 0 {
        return false;
    }
    match last_attempt {
        Some(t) => (now as i128) - (t as i128) < backoff_seconds(failures) as i128,
        None => false,
    }
}

/// What a weather request does with the cache and the service.
#[derive(Debug, Clone, Copy, PartialEq, Eq)]
pub enum RefreshPlan {
    /// Answer with the cached reading, marked stale or not.
    UseCache { stale: bool },
    /// Ask the weather service.
    Fetch,
    /// No cached reading and requests are held back: report the service unavailable.
    Unavailable,
}

/// The plan of a weather request, from the fetch time of the cached reading (if any),
/// the failure count, the last attempt and the time now.
pub open spec fn refresh_plan(cached_at: Option<i64>, failures: u32, last_attempt: Option<i64>, now: int) -> RefreshPlan {
    let fresh = match cached_at {
        Some(t) => !stale_at(t as int, now),
        None => false,
    };
    if fresh {
        RefreshPlan::UseCache { stale: false }
    } else if backoff_at(failures, last_attempt, now) {
        if cached_at is Some {
            RefreshPlan::UseCache { stale: true }
        } else {
            RefreshPlan::Unavailable
        }
    } else {
        RefreshPlan::Fetch
    }
}

/// Decides a weather request: a fresh cache is used as it is; otherwise the service is
/// asked unless requests are held back, in which case a stale cache is used or the
/// service is reported unavailable.
pub fn plan_refresh(cached_at: Option<i64>, failures: u32, last_attempt: Option<i64>, now: i64) -> (r: RefreshPlan)
    ensures
        r == refresh_plan(cached_at, failures, last_attempt, now as int),
{
    let fresh = match cached_at {
        Some(t) => !is_stale(t, now),
        None => false,
    };
    if fresh {
        RefreshPlan::UseCache { stale: false }
    } else if in_backoff(failures, last_attempt, now) {
        if cached_at.is_some() {
            RefreshPlan::UseCache { stale: true }
        } else {
            RefreshPlan::Unavailable
        }
    } else {
        RefreshPlan::Fetch
    }
}

/// What the weather panel does when it opens.
#[derive(Debug, Clone, Copy, PartialEq, Eq)]
pub enum PanelPlan {
    /// Show the cached reading at once; when `refresh` is set, fetch a new one in the background.
    ShowCached { stale: bool, refresh: bool },
    /// Nothing is cached: fetch now and show the result.
    FetchNow,
}

/// The plan of the weather panel.
pub open spec fn panel_plan(cached_at: Option<i64>, failures: u32, last_attempt: Option<i64>, now: int) -> PanelPlan {
    match cached_at {
        Some(t) => PanelPlan::ShowCached {
            stale: stale_at(t as int, now),
            refresh: stale_at(t as int, now) && !backoff_at(failures, last_attempt, now),
        },
        None => PanelPlan::FetchNow,
    }
}

/// Decides what the weather panel shows: a cached reading at once (refreshed in the
/// background when stale and requests are not held back), or a fetch when nothing is cached.
pub fn plan_panel(cached_at: Option<i64>, failures: u32, last_attempt: Option<i64>, now: i64) -> (r: PanelPlan)
    ensures
        r == panel_plan(cached_at, failures, last_attempt, now as int),
{
    match cached_at {
        Some(t) => {
            let stale = is_stale(t, now);
            let backoff = in_backoff(failures, last_attempt, now);
            PanelPlan::ShowCached { stale, refresh: stale && !backoff }
        },
        None => PanelPlan::FetchNow,
    }
}

/// The report of a cached reading used after a failed or held-back request.
pub fn stale_report<W>(cached: Option<W>) -> (r: Option<WeatherReport<W>>)
    ensures
        match cached {
            Some(w) => r == Some(WeatherReport { data: w, from_cache: true, stale: true }),
            None => r is None,
        },
{
    match cached {
        Some(w) => Some(WeatherReport { data: w, from_cache: true, stale: true }),
        None => None,
    }
}

/// The message given when the weather service is held back and nothing is cached.
pub fn unavailable_message() -> (r: String)
    ensures
        r@ == "天气服务暂时不可用，请稍后重试"@,
{
    String::from_str("天气服务暂时不可用，请稍后重试")
}

/// The text, day icon and night icon of a weather code (WMO codes as the weather service uses them).
pub open spec fn code_row(code: u32) -> (Seq<char>, Seq<char>, Seq<char>) {
    if code == 0 {
        ("晴"@, "sun"@, "moon"@)
    } else if code == 1 {
        ("多云"@, "sun-cloud"@, "moon-cloud"@)
    } else if code == 2 {
        ("局部多云"@, "sun-cloud"@, "moon-cloud"@)
    } else if code == 3 {
        ("阴"@, "cloud"@, "cloud"@)
    } else if code == 45 || code == 48 {
        ("有雾"@, "fog"@, "fog"@)
    } else if code == 51 || code == 53 || code == 55 {
        ("毛毛雨"@, "drizzle"@, "drizzle"@)
    } else if code == 56 || code == 57 {
        ("冻毛毛雨"@, "rain"@, "rain"@)
    } else if code == 61 || code == 63 || code == 65 {
        ("小雨"@, "rain"@, "rain"@)
    } else if code == 66 || code == 67 {
        ("冻雨"@, "rain"@, "rain"@)
    } else if code == 71 || code == 73 || code == 75 {
        ("小雪"@, "snow"@, "snow"@)
    } else if code == 77 {
        ("米雪"@, "snow"@, "snow"@)
    } else if code == 80 || code == 81 || code == 82 {
        ("阵雨"@, "rain"@, "rain"@)
    } else if code == 85 || code == 86 {
        ("阵雪"@, "snow"@, "snow"@)
    } else if code == 95 {
        ("雷暴"@, "storm"@, "storm"@)
    } else if code == 96 || code == 99 {
        ("雷暴冰雹"@, "storm"@, "storm"@)
    } else {
        ("未知"@, "cloud"@, "cloud"@)
    }
}

fn code_row_exec(code: u32) -> (r: (&'static str, &'static str, &'static str))
    ensures
        (r.0@, r.1@, r.2@) == code_row(code),
{
    match code {
        0 => ("晴", "sun", "moon"),
        1 => ("多云", "sun-cloud", "moon-cloud"),
        2 => ("局部多云", "sun-cloud", "moon-cloud"),
        3 => ("阴", "cloud", "cloud"),
        45 | 48 => ("有雾", "fog", "fog"),
        51 | 53 | 55 => ("毛毛雨", "drizzle", "drizzle"),
        56 | 57 => ("冻毛毛雨", "rain", "rain"),
        61 | 63 | 65 => ("小雨", "rain", "rain"),
        66 | 67 => ("冻雨", "rain", "rain"),
        71 | 73 | 75 => ("小雪", "snow", "snow"),
        77 => ("米雪", "snow", "snow"),
        80 | 81 | 82 => ("阵雨", "rain", "rain"),
        85 | 86 => ("阵雪", "snow", "snow"),
        95 => ("雷暴", "storm", "storm"),
        96 | 99 => ("雷暴冰雹", "storm", "storm"),
        _ => ("未知", "cloud", "cloud"),
    }
}

/// The description and icon of a weather code, by day or by night.
pub fn describe(code: u32, is_day: bool) -> (r: (String, String))
    ensures
        r.0@ == code_row(code).0,
        r.1@ == if is_day { code_row(code).1 } else { code_row(code).2 },
{
    let (text, day_icon, night_icon) = code_row_exec(code);
    let icon = if is_day { day_icon } else { night_icon };
    (String::from_str(text), String::from_str(icon))
}

/// The current conditions of a forecast, with the defaults for missing fields.
#[derive(Debug, Clone)]
pub struct Conditions {
    pub weather_code: u32,
    pub is_day: bool,
    pub description: String,
    pub icon: String,
}

/// Reads the current conditions of a forecast: a missing code counts as clear sky (0),
/// a missing day flag as day; the day flag is day exactly when it is 1.
pub fn current_conditions(weather_code: Option<u32>, is_day: Option<u8>) -> (r: Conditions)
    ensures
        r.weather_code == match weather_code {
            Some(c) => c,
            None => 0,
        },
        r.is_day == match is_day {
            Some(d) => d == 1,
            None => true,
        },
        r.description@ == code_row(r.weather_code).0,
        r.icon@ == if r.is_day { code_row(r.weather_code).1 } else { code_row(r.weather_code).2 },
{
    let code = match weather_code {
        Some(c) => c,
        None => 0,
    };
    let day = match is_day {
        Some(d) => d == 1,
        None => true,
    };
    let (description, icon) = describe(code, day);
    Conditions { weather_code: code, is_day: day, description, icon }
}

/// The weather codes (WMO) the weather service reports.
pub open spec fn service_code(c: u32) -> bool {
    ||| c <= 3
    ||| c == 45 || c == 48
    ||| c == 51 || c == 53 || c == 55 || c == 56 || c == 57
    ||| c == 61 || c == 63 || c == 65 || c == 66 || c == 67
    ||| c == 71 || c == 73 || c == 75 || c == 77
    ||| c == 80 || c == 81 || c == 82 || c == 85 || c == 86
    ||| c == 95 || c == 96 || c == 99
}

/// Every code the weather service reports has a description of its own (not `未知`,
/// "unknown"); every other code is unknown, shown with a cloud.
pub proof fn law_service_codes_are_described(c: u32)
    ensures
        service_code(c) ==> code_row(c).0 != "未知"@,
        !service_code(c) ==> code_row(c) == ("未知"@, "cloud"@, "cloud"@),
{
    reveal_strlit("未知");
    reveal_strlit("晴");
    reveal_strlit("多云");
    reveal_strlit("局部多云");
    reveal_strlit("阴");
    reveal_strlit("有雾");
    reveal_strlit("毛毛雨");
    reveal_strlit("冻毛毛雨");
    reveal_strlit("小雨");
    reveal_strlit("冻雨");
    reveal_strlit("小雪");
    reveal_strlit("米雪");
    reveal_strlit("阵雨");
    reveal_strlit("阵雪");
    reveal_strlit("雷暴");
    reveal_strlit("雷暴冰雹");
    if service_code(c) {
        assert(code_row(c).0.len() != 2 || code_row(c).0[0] != '未');
    }
}

/// Codes of one kind of weather (their intensities) are described alike: fog (45, 48),
/// drizzle (51, 53, 55), freezing drizzle (56, 57), rain (61, 63, 65: `小雨` with the rain
/// icon), freezing rain (66, 67), snow (71, 73, 75), showers (80, 81, 82), snow showers
/// (85, 86), thunderstorm with hail (96, 99).
pub proof fn law_code_groups()
    ensures
        code_row(45) == code_row(48),
        code_row(51) == code_row(53) && code_row(53) == code_row(55),
        code_row(56) == code_row(57),
        code_row(61) == ("小雨"@, "rain"@, "rain"@),
        code_row(63) == code_row(61) && code_row(65) == code_row(61),
        code_row(66) == code_row(67),
        code_row(71) == code_row(73) && code_row(73) == code_row(75),
        code_row(80) == code_row(81) && code_row(81) == code_row(82),
        code_row(85) == code_row(86),
        code_row(96) == code_row(99),
{
}

/// Only clear and partly cloudy skies (codes 0 to 2) look different by night: every other
/// code has the same icon by day and by night.
pub proof fn law_night_icons(c: u32)
    ensures
        c > 2 ==> code_row(c).1 == code_row(c).2,
        c <= 2 ==> code_row(c).1 != code_row(c).2,
{
    reveal_strlit("sun");
    reveal_strlit("moon");
    reveal_strlit("sun-cloud");
    reveal_strlit("moon-cloud");
    if c <= 2 {
        assert(code_row(c).1[0] != code_row(c).2[0]);
    }
}

/// The wait after failures grows with the failures, from one minute to at most thirty,
/// as long as the doubling does not overflow (up to 58 failures).
pub proof fn law_backoff_grows_within_bounds(f1: u32, f2: u32)
    requires
        1 <= f1 <= f2 <= 58,
    ensures
        60 <= backoff_spec(f1) <= backoff_spec(f2) <= MAX_BACKOFF_SECONDS,
{
    vstd::arithmetic::power2::lemma2_to64();
}

/// Thirty minutes after the last attempt, requests are never held back.
pub proof fn law_backoff_ends(failures: u32, last: i64, now: int)
    requires
        now - last >= MAX_BACKOFF_SECONDS,
    ensures
        !backoff_at(failures, Some(last), now),
{
    vstd::arithmetic::power2::lemma2_to64();
    vstd::arithmetic::power2::lemma2_to64_rest();
}

/// Within a minute of a failed attempt, a new request is held back, provided the failure
/// count stays within 58.
pub proof fn law_failure_holds_back(failures: u32, attempt: i64, now: int)
    requires
        failures < 58,
        attempt <= now < attempt + 60,
    ensures
        backoff_at((failures + 1) as u32, Some(attempt), now),
{
    law_backoff_grows_within_bounds((failures + 1) as u32, (failures + 1) as u32);
}

/// With nothing cached and no failure recorded (as after clearing the weather),
/// every request asks the service.
pub proof fn law_cleared_weather_fetches(now: int)
    ensures
        refresh_plan(None, 0, None, now) == RefreshPlan::Fetch,
        panel_plan(None, 0, None, now) == PanelPlan::FetchNow,
{
}

/// A reading younger than thirty minutes is used as it is, whatever the failures.
pub proof fn law_fresh_cache_is_used(fetched_at: i64, failures: u32, last: Option<i64>, now: int)
    requires
        now - fetched_at < CACHE_TTL_SECONDS,
    ensures
        refresh_plan(Some(fetched_at), failures, last, now) == (RefreshPlan::UseCache { stale: false }),
        panel_plan(Some(fetched_at), failures, last, now) == (PanelPlan::ShowCached { stale: false, refresh: false }),
{
}

/// Requests are not held back at `now`: no failure is recorded, no attempt is known, or the
/// wait after the failures has passed since the last attempt.
pub open spec fn free_to_ask(failures: u32, last_attempt: Option<i64>, now: int) -> bool {
    failures == 0 || match last_attempt {
        Some(a) => now - a >= backoff_spec(failures),
        None => true,
    }
}

/// A weather request asks the service whenever it is not held back and there is no fresh
/// cache: a cache thirty minutes old (or none) is fetched anew.
pub proof fn law_refresh_asks_unless_held_back(cached_at: Option<i64>, failures: u32, last_attempt: Option<i64>, now: int)
    requires
        match cached_at {
            Some(t) => now - t >= 1800,
            None => true,
        },
        free_to_ask(failures, last_attempt, now),
    ensures
        refresh_plan(cached_at, failures, last_attempt, now) == RefreshPlan::Fetch,
{
}

/// A weather request that is held back never asks the service: a stale cache is answered
/// marked stale, and without a cache the service is reported unavailable.
pub proof fn law_refresh_held_back(cached_at: Option<i64>, failures: u32, last: i64, now: int)
    requires
        match cached_at {
            Some(t) => now - t >= 1800,
            None => true,
        },
        failures > 0,
        now - last < backoff_spec(failures),
    ensures
        refresh_plan(cached_at, failures, Some(last), now) == if cached_at is Some {
            RefreshPlan::UseCache { stale: true }
        } else {
            RefreshPlan::Unavailable
        },
{
}

/// Thirty minutes after the last attempt, a stale or missing cache is always fetched anew,
/// whatever the failures.
pub proof fn law_refresh_retries_after_thirty_minutes(cached_at: Option<i64>, failures: u32, last: i64, now: int)
    requires
        match cached_at {
            Some(t) => now - t >= 1800,
            None => true,
        },
        now - last >= 1800,
    ensures
        refresh_plan(cached_at, failures, Some(last), now) == RefreshPlan::Fetch,
{
    law_backoff_ends(failures, last, now);
}

/// What a weather request answers from: an unmarked cache exactly when a cache younger than
/// thirty minutes exists; a cache only when one exists; "unavailable" only without one.
pub proof fn law_refresh_uses_only_what_exists(cached_at: Option<i64>, failures: u32, last_attempt: Option<i64>, now: int)
    ensures
        (refresh_plan(cached_at, failures, last_attempt, now) == RefreshPlan::UseCache { stale: false })
            <==> (cached_at matches Some(t) && now - t < 1800),
        refresh_plan(cached_at, failures, last_attempt, now) is UseCache ==> cached_at is Some,
        refresh_plan(cached_at, failures, last_attempt, now) is Unavailable ==> cached_at is None,
{
}

/// The weather panel: with a cached reading it shows it at once, marked stale when it is
/// thirty minutes old, and refreshes it in the background exactly when it is stale and
/// requests are not held back; without one it fetches now.
pub proof fn law_panel_plan(cached_at: Option<i64>, failures: u32, last_attempt: Option<i64>, now: int)
    ensures
        panel_plan(cached_at, failures, last_attempt, now) == match cached_at {
            Some(t) => PanelPlan::ShowCached {
                stale: now - t >= 1800,
                refresh: now - t >= 1800 && free_to_ask(failures, last_attempt, now),
            },
            None => PanelPlan::FetchNow,
        },
{
}

/// The wait after failures starts at one minute and doubles with each further failure
/// until it reaches thirty minutes (as long as the doubling does not overflow).
pub proof fn law_backoff_doubles(failures: u32)
    requires
        1 <= failures < 58,
    ensures
        backoff_spec(1) == 60,
        backoff_spec((failures + 1) as u32) == if 2 * backoff_spec(failures) < 1800 {
            2 * backoff_spec(failures)
        } else {
            1800
        },
{
    vstd::arithmetic::power2::lemma2_to64();
}

impl<L, W> StoreData<L, W> {
    /// Everything but the weather bookkeeping and the location is the same in both stores.
    pub open spec fn same_except_weather(&self, other: &Self) -> bool {
        &&& self.world_clocks == other.world_clocks
        &&& self.use_24_hour == other.use_24_hour
    }

    /// Drops the cached reading and the failure bookkeeping.
    pub fn clear_weather(&mut self)
        ensures
            final(self).weather is None,
            final(self).weather_failures == 0,
            final(self).last_weather_attempt is None,
            final(self).location == old(self).location,
            final(self).same_except_weather(old(self)),
    {
        self.weather = None;
        self.weather_failures = 0;
        self.last_weather_attempt = None;
    }

    /// Records a successful request at `now`: its location and reading, and no failures.
    pub fn record_success(&mut self, location: L, weather: W, now: i64)
        ensures
            final(self).location == Some(location),
            final(self).weather == Some(weather),
            final(self).weather_failures == 0,
            final(self).last_weather_attempt == Some(now),
            final(self).same_except_weather(old(self)),
    {
        self.location = Some(location);
        self.weather = Some(weather);
        self.weather_failures = 0;
        self.last_weather_attempt = Some(now);
    }

    /// Records a failed request at `now`: one more failure (the count stops at its maximum).
    pub fn record_failure(&mut self, now: i64)
        ensures
            final(self).weather_failures == if old(self).weather_failures == u32::MAX {
                u32::MAX
            } else {
                (old(self).weather_failures + 1) as u32
            },
            final(self).last_weather_attempt == Some(now),
            final(self).location == old(self).location,
            final(self).weather == old(self).weather,
            final(self).same_except_weather(old(self)),
    {
        self.weather_failures = self.weather_failures.saturating_add(1);
        self.last_weather_attempt = Some(now);
    }

    /// Remembers a located position, keeping the weather bookkeeping.
    pub fn remember_location(&mut self, location: L)
        ensures
            final(self).location == Some(location),
            final(self).weather == old(self).weather,
            final(self).weather_failures == old(self).weather_failures,
            final(self).last_weather_attempt == old(self).last_weather_attempt,
            final(self).same_except_weather(old(self)),
    {
        self.location = Some(location);
    }

    /// Sets a position chosen by the user; the weather of the previous position is dropped.
    pub fn set_location(&mut self, location: L)
        ensures
            final(self).location == Some(location),
            final(self).weather is None,
            final(self).weather_failures == 0,
            final(self).last_weather_attempt is None,
            final(self).same_except_weather(old(self)),
    {
        self.location = Some(location);
        self.clear_weather();
    }

    /// Forgets the position and the weather.
    pub fn clear_location(&mut self)
        ensures
            final(self).location is None,
            final(self).weather is None,
            final(self).weather_failures == 0,
            final(self).last_weather_attempt is None,
            final(self).same_except_weather(old(self)),
    {
        self.location = None;
        self.clear_weather();
    }
}

} // verus!
