//! The values the calendar panels exchange and keep: cities, configured
//! world clocks, clock snapshots and the persisted store.

use vstd::prelude::*;

verus! {

/// A city that can be picked for a world clock.
#[derive(Debug, Clone)]
pub struct City {
    pub label: String,
    pub timezone: String,
    pub country: Option<String>,
}

/// The mathematical content of a [`City`].
pub struct CityView {
    pub label: Seq<char>,
    pub timezone: Seq<char>,
    pub country: Option<Seq<char>>,
}

impl View for City {
    type V = CityView;

    open spec fn view(&self) -> CityView {
        CityView {
            label: self.label@,
            timezone: self.timezone@,
            country: match self.country {
                Some(c) => Some(c@),
                None => None,
            },
        }
    }
}

/// A world clock the user keeps on the panel.
#[derive(Debug, Clone)]
pub struct WorldClockConfig {
    pub label: String,
    pub timezone: String,
}

/// The mathematical content of a [`WorldClockConfig`].
pub struct ClockView {
    pub label: Seq<char>,
    pub timezone: Seq<char>,
}

impl View for WorldClockConfig {
    type V = ClockView;

    open spec fn view(&self) -> ClockView {
        ClockView { label: self.label@, timezone: self.timezone@ }
    }
}

/// Builds a clock configuration.
pub fn clock_config(label: &str, timezone: &str) -> (r: WorldClockConfig)
    ensures
        r@ == (ClockView { label: label@, timezone: timezone@ }),
{
    WorldClockConfig { label: String::from_str(label), timezone: String::from_str(timezone) }
}

/// A copy of a clock configuration with the same content.
pub fn copy_clock(c: &WorldClockConfig) -> (r: WorldClockConfig)
    ensures
        r@ == c@,
{
    WorldClockConfig { label: c.label.clone(), timezone: c.timezone.clone() }
}

/// What a world clock shows at one instant.
#[derive(Debug, Clone)]
pub struct WorldClockSnapshot {
    pub label: String,
    pub timezone: String,
    pub time_24: String,
    pub time_12: String,
    pub date: String,
    pub weekday: String,
    pub offset_label: String,
    pub offset_minutes: i32,
    pub is_today: bool,
}

/// The mathematical content of a [`WorldClockSnapshot`].
pub struct SnapshotView {
    pub label: Seq<char>,
    pub timezone: Seq<char>,
    pub time_24: Seq<char>,
    pub time_12: Seq<char>,
    pub date: Seq<char>,
    pub weekday: Seq<char>,
    pub offset_label: Seq<char>,
    pub offset_minutes: i32,
    pub is_today: bool,
}

impl View for WorldClockSnapshot {
    type V = SnapshotView;

    open spec fn view(&self) -> SnapshotView {
        SnapshotView {
            label: self.label@,
            timezone: self.timezone@,
            time_24: self.time_24@,
            time_12: self.time_12@,
            date: self.date@,
            weekday: self.weekday@,
            offset_label: self.offset_label@,
            offset_minutes: self.offset_minutes,
            is_today: self.is_today,
        }
    }
}

/// The value a missing `use_24_hour` setting takes when the store is read.
pub fn default_true() -> (r: bool)
    ensures
        r,
{
    true
}

/// The answer to a weather request: a reading (`W`), whether it came from the cache,
/// and whether it is stale.
#[derive(Debug, Clone)]
pub struct WeatherReport<W> {
    pub data: W,
    pub from_cache: bool,
    pub stale: bool,
}

/// The persisted state of the application: configured clocks, the time format,
/// the location (`L`) and the last weather reading (`W`) with its retry bookkeeping.
#[derive(Debug, Clone)]
pub struct StoreData<L, W> {
    pub world_clocks: Vec<WorldClockConfig>,
    pub use_24_hour: bool,
    pub location: Option<L>,
    pub weather: Option<W>,
    pub weather_failures: u32,
    pub last_weather_attempt: Option<i64>,
}

/// The clocks of a list, as values.
pub open spec fn clock_views(v: Seq<WorldClockConfig>) -> Seq<ClockView> {
    v.map_values(|c: WorldClockConfig| c@)
}

impl<L, W> StoreData<L, W> {
    /// The configured clocks, as values.
    pub open spec fn clocks(&self) -> Seq<ClockView> {
        clock_views(self.world_clocks@)
    }

    /// An empty store: no clocks, 12-hour display, nothing located or cached.
    pub fn empty() -> (r: Self)
        ensures
            r.world_clocks@.len() == 0,
            !r.use_24_hour,
            r.location is None,
            r.weather is None,
            r.weather_failures == 0,
            r.last_weather_attempt is None,
    {
        StoreData {
            world_clocks: Vec::new(),
            use_24_hour: false,
            location: None,
            weather: None,
            weather_failures: 0,
            last_weather_attempt: None,
        }
    }

    /// Sets whether clocks are shown in 24-hour format.
    pub fn set_use_24_hour(&mut self, enabled: bool)
        ensures
            final(self).use_24_hour == enabled,
            final(self).world_clocks == old(self).world_clocks,
            final(self).location == old(self).location,
            final(self).weather == old(self).weather,
            final(self).weather_failures == old(self).weather_failures,
            final(self).last_weather_attempt == old(self).last_weather_attempt,
    {
        self.use_24_hour = enabled;
    }
}

} // verus!
