//! World clocks: the cities offered, searching them, and what a clock shows in its
//! time zone (24- and 12-hour time, date, weekday, UTC offset).

use vstd::prelude::*;
use vstd::utf8::encode_utf8;

use chrono::{Datelike, Timelike};

pub use crate::clocks::default_clocks;

use crate::clocks::default_clock_views;
use crate::domain::{City, CityView, ClockView, SnapshotView, WorldClockConfig, WorldClockSnapshot};
use crate::text::{
    chars_of, contains_chars, contains_text, decimal_int, decimal_nat, eq_ignore_ascii_case,
    eq_ignore_ascii_case_spec, lowercase, lowercase_of, pad2, push_decimal, push_pad2, push_signed,
    trimmed, trimmed_of, is_white_space, lemma_blank_trims_to_empty, lemma_contains_transitive,
    occurs_at,
};

verus! {

/// How many cities are offered.
pub const CITY_COUNT: usize = 52;

/// Label, IANA time zone and country of the `i`-th city offered.
pub open spec fn city_row(i: int) -> (Seq<char>, Seq<char>, Seq<char>) {
    if i == 0 {
        ("北京"@, "Asia/Shanghai"@, "中国"@)
    } else if i == 1 {
        ("上海"@, "Asia/Shanghai"@, "中国"@)
    } else if i == 2 {
        ("香港"@, "Asia/Hong_Kong"@, "中国"@)
    } else if i == 3 {
        ("台北"@, "Asia/Taipei"@, "中国台湾"@)
    } else if i == 4 {
        ("东京"@, "Asia/Tokyo"@, "日本"@)
    } else if i == 5 {
        ("首尔"@, "Asia/Seoul"@, "韩国"@)
    } else if i == 6 {
        ("新加坡"@, "Asia/Singapore"@, "新加坡"@)
    } else if i == 7 {
        ("曼谷"@, "Asia/Bangkok"@, "泰国"@)
    } else if i == 8 {
        ("雅加达"@, "Asia/Jakarta"@, "印尼"@)
    } else if i == 9 {
        ("吉隆坡"@, "Asia/Kuala_Lumpur"@, "马来西亚"@)
    } else if i == 10 {
        ("马尼拉"@, "Asia/Manila"@, "菲律宾"@)
    } else if i == 11 {
        ("加尔各答"@, "Asia/Kolkata"@, "印度"@)
    } else if i == 12 {
        ("新德里"@, "Asia/Kolkata"@, "印度"@)
    } else if i == 13 {
        ("孟买"@, "Asia/Kolkata"@, "印度"@)
    } else if i == 14 {
        ("迪拜"@, "Asia/Dubai"@, "阿联酋"@)
    } else if i == 15 {
        ("德黑兰"@, "Asia/Tehran"@, "伊朗"@)
    } else if i == 16 {
        ("耶路撒冷"@, "Asia/Jerusalem"@, "以色列"@)
    } else if i == 17 {
        ("莫斯科"@, "Europe/Moscow"@, "俄罗斯"@)
    } else if i == 18 {
        ("伊斯坦布尔"@, "Europe/Istanbul"@, "土耳其"@)
    } else if i == 19 {
        ("雅典"@, "Europe/Athens"@, "希腊"@)
    } else if i == 20 {
        ("柏林"@, "Europe/Berlin"@, "德国"@)
    } else if i == 21 {
        ("法兰克福"@, "Europe/Berlin"@, "德国"@)
    } else if i == 22 {
        ("巴黎"@, "Europe/Paris"@, "法国"@)
    } else if i == 23 {
        ("罗马"@, "Europe/Rome"@, "意大利"@)
    } else if i == 24 {
        ("马德里"@, "Europe/Madrid"@, "西班牙"@)
    } else if i == 25 {
        ("阿姆斯特丹"@, "Europe/Amsterdam"@, "荷兰"@)
    } else if i == 26 {
        ("苏黎世"@, "Europe/Zurich"@, "瑞士"@)
    } else if i == 27 {
        ("伦敦"@, "Europe/London"@, "英国"@)
    } else if i == 28 {
        ("都柏林"@, "Europe/Dublin"@, "爱尔兰"@)
    } else if i == 29 {
        ("雷克雅未克"@, "Atlantic/Reykjavik"@, "冰岛"@)
    } else if i == 30 {
        ("开罗"@, "Africa/Cairo"@, "埃及"@)
    } else if i == 31 {
        ("约翰内斯堡"@, "Africa/Johannesburg"@, "南非"@)
    } else if i == 32 {
        ("内罗毕"@, "Africa/Nairobi"@, "肯尼亚"@)
    } else if i == 33 {
        ("纽约"@, "America/New_York"@, "美国"@)
    } else if i == 34 {
        ("华盛顿"@, "America/New_York"@, "美国"@)
    } else if i == 35 {
        ("多伦多"@, "America/Toronto"@, "加拿大"@)
    } else if i == 36 {
        ("芝加哥"@, "America/Chicago"@, "美国"@)
    } else if i == 37 {
        ("墨西哥城"@, "America/Mexico_City"@, "墨西哥"@)
    } else if i == 38 {
        ("丹佛"@, "America/Denver"@, "美国"@)
    } else if i == 39 {
        ("洛杉矶"@, "America/Los_Angeles"@, "美国"@)
    } else if i == 40 {
        ("旧金山"@, "America/Los_Angeles"@, "美国"@)
    } else if i == 41 {
        ("温哥华"@, "America/Vancouver"@, "加拿大"@)
    } else if i == 42 {
        ("凤凰城"@, "America/Phoenix"@, "美国"@)
    } else if i == 43 {
        ("圣保罗"@, "America/Sao_Paulo"@, "巴西"@)
    } else if i == 44 {
        ("布宜诺斯艾利斯"@, "America/Argentina/Buenos_Aires"@, "阿根廷"@)
    } else if i == 45 {
        ("檀香山"@, "Pacific/Honolulu"@, "美国"@)
    } else if i == 46 {
        ("安克雷奇"@, "America/Anchorage"@, "美国"@)
    } else if i == 47 {
        ("悉尼"@, "Australia/Sydney"@, "澳大利亚"@)
    } else if i == 48 {
        ("墨尔本"@, "Australia/Melbourne"@, "澳大利亚"@)
    } else if i == 49 {
        ("珀斯"@, "Australia/Perth"@, "澳大利亚"@)
    } else if i == 50 {
        ("奥克兰"@, "Pacific/Auckland"@, "新西兰"@)
    } else if i == 51 {
        ("斐济"@, "Pacific/Fiji"@, "斐济"@)
    } else {
        (Seq::empty(), Seq::empty(), Seq::empty())
    }
}

fn city_row_exec(i: usize) -> (r: (&'static str, &'static str, &'static str))
    requires
        i < CITY_COUNT,
    ensures
        (r.0@, r.1@, r.2@) == city_row(i as int),
{
    match i {
        0 => ("北京", "Asia/Shanghai", "中国"),
        1 => ("上海", "Asia/Shanghai", "中国"),
        2 => ("香港", "Asia/Hong_Kong", "中国"),
        3 => ("台北", "Asia/Taipei", "中国台湾"),
        4 => ("东京", "Asia/Tokyo", "日本"),
        5 => ("首尔", "Asia/Seoul", "韩国"),
        6 => ("新加坡", "Asia/Singapore", "新加坡"),
        7 => ("曼谷", "Asia/Bangkok", "泰国"),
        8 => ("雅加达", "Asia/Jakarta", "印尼"),
        9 => ("吉隆坡", "Asia/Kuala_Lumpur", "马来西亚"),
        10 => ("马尼拉", "Asia/Manila", "菲律宾"),
        11 => ("加尔各答", "Asia/Kolkata", "印度"),
        12 => ("新德里", "Asia/Kolkata", "印度"),
        13 => ("孟买", "Asia/Kolkata", "印度"),
        14 => ("迪拜", "Asia/Dubai", "阿联酋"),
        15 => ("德黑兰", "Asia/Tehran", "伊朗"),
        16 => ("耶路撒冷", "Asia/Jerusalem", "以色列"),
        17 => ("莫斯科", "Europe/Moscow", "俄罗斯"),
        18 => ("伊斯坦布尔", "Europe/Istanbul", "土耳其"),
        19 => ("雅典", "Europe/Athens", "希腊"),
        20 => ("柏林", "Europe/Berlin", "德国"),
        21 => ("法兰克福", "Europe/Berlin", "德国"),
        22 => ("巴黎", "Europe/Paris", "法国"),
        23 => ("罗马", "Europe/Rome", "意大利"),
        24 => ("马德里", "Europe/Madrid", "西班牙"),
        25 => ("阿姆斯特丹", "Europe/Amsterdam", "荷兰"),
        26 => ("苏黎世", "Europe/Zurich", "瑞士"),
        27 => ("伦敦", "Europe/London", "英国"),
        28 => ("都柏林", "Europe/Dublin", "爱尔兰"),
        29 => ("雷克雅未克", "Atlantic/Reykjavik", "冰岛"),
        30 => ("开罗", "Africa/Cairo", "埃及"),
        31 => ("约翰内斯堡", "Africa/Johannesburg", "南非"),
        32 => ("内罗毕", "Africa/Nairobi", "肯尼亚"),
        33 => ("纽约", "America/New_York", "美国"),
        34 => ("华盛顿", "America/New_York", "美国"),
        35 => ("多伦多", "America/Toronto", "加拿大"),
        36 => ("芝加哥", "America/Chicago", "美国"),
        37 => ("墨西哥城", "America/Mexico_City", "墨西哥"),
        38 => ("丹佛", "America/Denver", "美国"),
        39 => ("洛杉矶", "America/Los_Angeles", "美国"),
        40 => ("旧金山", "America/Los_Angeles", "美国"),
        41 => ("温哥华", "America/Vancouver", "加拿大"),
        42 => ("凤凰城", "America/Phoenix", "美国"),
        43 => ("圣保罗", "America/Sao_Paulo", "巴西"),
        44 => ("布宜诺斯艾利斯", "America/Argentina/Buenos_Aires", "阿根廷"),
        45 => ("檀香山", "Pacific/Honolulu", "美国"),
        46 => ("安克雷奇", "America/Anchorage", "美国"),
        47 => ("悉尼", "Australia/Sydney", "澳大利亚"),
        48 => ("墨尔本", "Australia/Melbourne", "澳大利亚"),
        49 => ("珀斯", "Australia/Perth", "澳大利亚"),
        50 => ("奥克兰", "Pacific/Auckland", "新西兰"),
        51 => ("斐济", "Pacific/Fiji", "斐济"),
        _ => ("", "", ""),
    }
}

/// The `i`-th city offered.
pub open spec fn city_at(i: int) -> CityView {
    CityView { label: city_row(i).0, timezone: city_row(i).1, country: Some(city_row(i).2) }
}

/// The cities offered, in order.
pub open spec fn city_list() -> Seq<CityView> {
    Seq::new(CITY_COUNT as nat, |i: int| city_at(i))
}

/// A list of cities, as values.
pub open spec fn city_views(v: Seq<City>) -> Seq<CityView> {
    v.map_values(|c: City| c@)
}

/// All cities offered, in order.
pub fn list_cities() -> (r: Vec<City>)
    ensures
        city_views(r@) == city_list(),
{
    let mut r: Vec<City> = Vec::new();
    let mut i: usize = 0;
    while i < CITY_COUNT
        invariant
            i <= CITY_COUNT,
            r@.len() == i,
            forall|k: int| 0 <= k < i ==> r@[k]@ == city_at(k),
        decreases CITY_COUNT - i,
    {
        let (label, timezone, country) = city_row_exec(i);
        r.push(City {
            label: String::from_str(label),
            timezone: String::from_str(timezone),
            country: Some(String::from_str(country)),
        });
        i = i + 1;
    }
    assert(city_views(r@) =~= city_list());
    r
}

/// A query occurs in one of a city's lower-cased texts: its label, its time zone or its
/// country.
pub open spec fn texts_match(label: Seq<char>, timezone: Seq<char>, country: Option<Seq<char>>, q: Seq<char>) -> bool {
    ||| contains_text(label, q)
    ||| contains_text(timezone, q)
    ||| match country {
        Some(k) => contains_text(k, q),
        None => false,
    }
}

/// A city matches a lower-cased query when the query occurs in its lower-cased
/// label, time zone or country.
pub open spec fn city_matches(c: CityView, q: Seq<char>) -> bool {
    texts_match(
        lowercase_of(c.label),
        lowercase_of(c.timezone),
        match c.country {
            Some(k) => Some(lowercase_of(k)),
            None => None,
        },
        q,
    )
}

/// The cities that match `q`, in order.
pub open spec fn matching(cities: Seq<CityView>, q: Seq<char>) -> Seq<CityView>
    decreases cities.len(),
{
    if cities.len() == 0 {
        seq![]
    } else if city_matches(cities.last(), q) {
        matching(cities.drop_last(), q).push(cities.last())
    } else {
        matching(cities.drop_last(), q)
    }
}

/// The query as it is matched: trimmed, then lower-cased.
pub open spec fn normalized_query(query: Seq<char>) -> Seq<char> {
    lowercase_of(trimmed_of(query))
}

/// The result of a city search.
pub open spec fn search_result(query: Seq<char>) -> Seq<CityView> {
    if normalized_query(query).len() == 0 {
        city_list()
    } else {
        matching(city_list(), normalized_query(query))
    }
}

/// Whether a query occurs in a city's texts, given already lower-cased.
pub fn lowered_texts_match(label: &str, timezone: &str, country: Option<&str>, q: &Vec<char>) -> (r: bool)
    ensures
        r == texts_match(
            label@,
            timezone@,
            match country {
                Some(k) => Some(k@),
                None => None,
            },
            q@,
        ),
{
    if contains_chars(&chars_of(label), q) {
        return true;
    }
    if contains_chars(&chars_of(timezone), q) {
        return true;
    }
    match country {
        Some(k) => contains_chars(&chars_of(k), q),
        None => false,
    }
}

fn city_matches_exec(c: &City, q: &Vec<char>) -> (r: bool)
    ensures
        r == city_matches(c@, q@),
{
    let label = lowercase(c.label.as_str());
    let zone = lowercase(c.timezone.as_str());
    match &c.country {
        Some(k) => {
            let country = lowercase(k.as_str());
            lowered_texts_match(label.as_str(), zone.as_str(), Some(country.as_str()), q)
        },
        None => lowered_texts_match(label.as_str(), zone.as_str(), None, q),
    }
}

/// The cities whose label, time zone or country contains the query, ignoring case
/// and surrounding white space; all cities for an empty query.
pub fn search_cities(query: &str) -> (r: Vec<City>)
    ensures
        city_views(r@) == search_result(query@),
        trimmed_of(query@).len() == 0 ==> city_views(r@) == city_list(),
{
    let q = lowercase(trimmed(query));
    if q.as_str().is_empty() {
        return list_cities();
    }
    let qc = chars_of(q.as_str());
    let all = list_cities();
    let mut r: Vec<City> = Vec::new();
    let mut i: usize = 0;
    while i < all.len()
        invariant
            i <= all@.len(),
            city_views(all@) == city_list(),
            qc@ == normalized_query(query@),
            city_views(r@) == matching(city_views(all@).subrange(0, i as int), qc@),
        decreases all@.len() - i,
    {
        let ghost prefix = city_views(all@).subrange(0, i as int + 1);
        assert(prefix.drop_last() =~= city_views(all@).subrange(0, i as int));
        assert(prefix.last() == all@[i as int]@);
        let ghost before = city_views(r@);
        if city_matches_exec(&all[i], &qc) {
            let c = &all[i];
            let copy = City { label: c.label.clone(), timezone: c.timezone.clone(), country: c.country.clone() };
            r.push(copy);
            assert(city_views(r@) =~= before.push(all@[i as int]@));
        }
        i = i + 1;
    }
    assert(city_views(all@).subrange(0, all@.len() as int) =~= city_views(all@));
    r
}

/// The half of the day of an hour: `AM` before noon, `PM` from noon on.
pub open spec fn period(hour: u32) -> Seq<char> {
    if hour < 12 {
        "AM"@
    } else {
        "PM"@
    }
}

/// The hour on a 12-hour clock: midnight and noon are 12.
pub open spec fn hour12(hour: u32) -> u32 {
    if hour == 0 {
        12
    } else if hour <= 12 {
        hour
    } else {
        (hour - 12) as u32
    }
}

/// The 12-hour form of an hour: its period (`AM`/`PM`) and the hour from 1 to 12.
pub fn to_12h(hour: u32) -> (r: (&'static str, u32))
    ensures
        r.0@ == period(hour),
        r.1 == hour12(hour),
{
    if hour == 0 {
        ("AM", 12)
    } else if hour < 12 {
        ("AM", hour)
    } else if hour == 12 {
        ("PM", 12)
    } else {
        ("PM", hour - 12)
    }
}

/// The value of an ASCII digit byte; any other byte counts as 0.
pub open spec fn digit_value(b: u8) -> int {
    if 48 <= b <= 57 {
        b - 48
    } else {
        0
    }
}

/// The minutes of a UTC offset written `±HHMM` (as `%z` writes it): the first byte is
/// the sign (`-` negative, anything else positive), then two digits of hours and two of
/// minutes; a text shorter than five bytes gives 0.
pub open spec fn offset_minutes_spec(b: Seq<u8>) -> int {
    if b.len() < 5 {
        0
    } else {
        let magnitude = (digit_value(b[1]) * 10 + digit_value(b[2])) * 60 + digit_value(b[3]) * 10
            + digit_value(b[4]);
        if b[0] == 45 {
            -magnitude
        } else {
            magnitude
        }
    }
}

fn digit_value_exec(b: u8) -> (r: i32)
    ensures
        r == digit_value(b),
{
    if 48 <= b && b <= 57 {
        (b - 48) as i32
    } else {
        0
    }
}

/// The minutes of a UTC offset written `±HHMM`.
pub fn offset_minutes_from(value: &str) -> (r: i32)
    ensures
        r == offset_minutes_spec(encode_utf8(value@)),
{
    let bytes = value.as_bytes();
    if bytes.len() < 5 {
        return 0;
    }
    let hours = digit_value_exec(bytes[1]) * 10 + digit_value_exec(bytes[2]);
    let minutes = digit_value_exec(bytes[3]) * 10 + digit_value_exec(bytes[4]);
    let magnitude = hours * 60 + minutes;
    if bytes[0] == 45 {
        -magnitude
    } else {
        magnitude
    }
}

/// The label of a UTC offset: `UTC`, the sign, the hours, and `:` with the minutes
/// when they are not zero (`UTC+8`, `UTC+5:30`, `UTC-3:30`).
pub open spec fn offset_label(m: int) -> Seq<char> {
    let total = if m >= 0 { m } else { -m };
    let hours = decimal_nat((total / 60) as nat);
    let minutes = total % 60;
    let head = "UTC"@ + (if m >= 0 { "+"@ } else { "-"@ }) + hours;
    if minutes == 0 {
        head
    } else {
        head + ":"@ + decimal_nat(minutes as nat)
    }
}

/// The label of a UTC offset given in minutes.
pub fn format_offset(minutes: i32) -> (r: String)
    requires
        minutes != i32::MIN,
    ensures
        r@ == offset_label(minutes as int),
{
    let total = if minutes >= 0 { minutes } else { -minutes };
    let hours = total / 60;
    let mins = total % 60;
    let mut r = String::from_str("UTC");
    if minutes >= 0 {
        r.append("+");
    } else {
        r.append("-");
    }
    push_decimal(&mut r, hours as u64);
    if mins != 0 {
        r.append(":");
        push_decimal(&mut r, mins as u64);
    }
    r
}

/// The weekday name, counted from Sunday (0) to Saturday (6).
pub open spec fn weekday_name(w: u32) -> Seq<char> {
    if w == 0 {
        "星期日"@
    } else if w == 1 {
        "星期一"@
    } else if w == 2 {
        "星期二"@
    } else if w == 3 {
        "星期三"@
    } else if w == 4 {
        "星期四"@
    } else if w == 5 {
        "星期五"@
    } else {
        "星期六"@
    }
}

fn weekday_name_exec(w: u32) -> (r: &'static str)
    requires
        w < 7,
    ensures
        r@ == weekday_name(w),
{
    match w {
        0 => "星期日",
        1 => "星期一",
        2 => "星期二",
        3 => "星期三",
        4 => "星期四",
        5 => "星期五",
        _ => "星期六",
    }
}

/// A calendar date.
#[derive(Debug, Clone, Copy, PartialEq, Eq)]
pub struct CalendarDate {
    pub year: i32,
    pub month: u32,
    pub day: u32,
}

/// What a clock reads in some time zone at an instant (seconds since the Unix epoch):
/// local date and time, weekday counted from Sunday, and the UTC offset written `±HHMM`.
#[derive(Debug, Clone)]
pub struct ClockReading {
    pub year: i32,
    pub month: u32,
    pub day: u32,
    pub hour: u32,
    pub minute: u32,
    pub weekday: u32,
    pub offset: String,
    pub instant: i64,
}

/// The mathematical content of a [`ClockReading`].
pub struct ReadingView {
    pub year: i32,
    pub month: u32,
    pub day: u32,
    pub hour: u32,
    pub minute: u32,
    pub weekday: u32,
    pub offset: Seq<char>,
    pub instant: i64,
}

impl View for ClockReading {
    type V = ReadingView;

    open spec fn view(&self) -> ReadingView {
        ReadingView {
            year: self.year,
            month: self.month,
            day: self.day,
            hour: self.hour,
            minute: self.minute,
            weekday: self.weekday,
            offset: self.offset@,
            instant: self.instant,
        }
    }
}

impl ReadingView {
    /// The fields are in their ranges.
    pub open spec fn wf(self) -> bool {
        &&& 1 <= self.month <= 12
        &&& 1 <= self.day <= 31
        &&& self.hour < 24
        &&& self.minute < 60
        &&& self.weekday < 7
    }
}

/// What a clock with `label` for `timezone` shows for a reading; `is_today` compares
/// the reading's date with `today` (and holds when there is no `today`).
pub open spec fn snapshot_of(label: Seq<char>, timezone: Seq<char>, r: ReadingView, today: Option<CalendarDate>) -> SnapshotView {
    let minutes = offset_minutes_spec(encode_utf8(r.offset));
    SnapshotView {
        label,
        timezone,
        time_24: pad2(r.hour as nat) + ":"@ + pad2(r.minute as nat),
        time_12: pad2(hour12(r.hour) as nat) + ":"@ + pad2(r.minute as nat) + " "@ + period(r.hour),
        date: decimal_int(r.year as int) + "-"@ + pad2(r.month as nat) + "-"@ + pad2(r.day as nat),
        weekday: weekday_name(r.weekday),
        offset_label: offset_label(minutes),
        offset_minutes: minutes as i32,
        is_today: match today {
            Some(t) => t.year == r.year && t.month == r.month && t.day == r.day,
            None => true,
        },
    }
}

/// What a clock shows for a reading.
pub fn make_snapshot(label: &str, timezone: &str, reading: &ClockReading, today: Option<CalendarDate>) -> (r: WorldClockSnapshot)
    requires
        reading.weekday < 7,
    ensures
        r@ == snapshot_of(label@, timezone@, reading@, today),
{
    let weekday = weekday_name_exec(reading.weekday);
    let mut time_24 = String::new();
    push_pad2(&mut time_24, reading.hour);
    time_24.append(":");
    push_pad2(&mut time_24, reading.minute);
    let (period, hour12) = to_12h(reading.hour);
    let mut time_12 = String::new();
    push_pad2(&mut time_12, hour12);
    time_12.append(":");
    push_pad2(&mut time_12, reading.minute);
    time_12.append(" ");
    time_12.append(period);
    let mut date = String::new();
    push_signed(&mut date, reading.year as i64);
    date.append("-");
    push_pad2(&mut date, reading.month);
    date.append("-");
    push_pad2(&mut date, reading.day);
    let offset_minutes = offset_minutes_from(reading.offset.as_str());
    let offset_label = format_offset(offset_minutes);
    let is_today = match today {
        Some(t) => t.year == reading.year && t.month == reading.month && t.day == reading.day,
        None => true,
    };
    WorldClockSnapshot {
        label: String::from_str(label),
        timezone: String::from_str(timezone),
        time_24,
        time_12,
        date,
        weekday: String::from_str(weekday),
        offset_label,
        offset_minutes,
        is_today,
    }
}

/// The earliest instant chrono represents, in seconds since the Unix epoch
/// (January 1 of year -262143, UTC).
pub const EARLIEST_SECONDS: i64 = -8334601228800;

/// The latest instant chrono represents, in seconds since the Unix epoch
/// (the last second of December 31 of year 262142, UTC).
pub const LATEST_SECONDS: i64 = 8210266876799;

/// chrono can represent the instant `s` seconds after the Unix epoch.
pub open spec fn in_chrono_range(s: int) -> bool {
    EARLIEST_SECONDS <= s <= LATEST_SECONDS
}

/// chrono-tz knows an IANA time zone of this name (`Tz::from_str` succeeds).
pub uninterp spec fn known_zone(zone: Seq<char>) -> bool;

/// What a clock reads in the IANA time zone named `zone` at `utc_seconds` seconds after
/// the Unix epoch, or `None` when no such zone is known or the instant is out of range.
pub uninterp spec fn zone_clock(zone: Seq<char>, utc_seconds: int) -> Option<ReadingView>;

/// chrono-tz's `Tz::from_str`, then chrono's `DateTime::from_timestamp` and `with_timezone`,
/// read through `Datelike`, `Timelike` and `format("%z")`. Claimed: the result is
/// `zone_clock` of the zone name and the instant, read at that instant; there is one
/// exactly when chrono-tz knows the zone and chrono represents the instant; its month, day,
/// hour, minute and weekday are in the ranges chrono documents.
#[verifier::external_body]
fn read_zone_clock(zone: &str, utc_seconds: i64) -> (r: Option<ClockReading>)
    ensures
        (known_zone(zone@) && in_chrono_range(utc_seconds as int)) <==> r is Some,
        r matches Some(c) ==> zone_clock(zone@, utc_seconds as int) == Some(c@) && c@.wf()
            && c.instant == utc_seconds,
        r is None ==> zone_clock(zone@, utc_seconds as int) is None,
{
    let tz: chrono_tz::Tz = zone.parse().ok()?;
    let t = chrono::DateTime::from_timestamp(utc_seconds, 0)?.with_timezone(&tz);
    let offset = t.format("%z").to_string();
    let (year, month, day) = (t.year(), t.month(), t.day());
    let (hour, minute) = (t.hour(), t.minute());
    let weekday = t.weekday().num_days_from_sunday();
    Some(ClockReading { year, month, day, hour, minute, weekday, offset, instant: utc_seconds })
}

/// chrono's `DateTime::from_timestamp` and `with_timezone(&Local)`, read as in
/// `read_zone_clock`. The reading depends on the machine's time zone, so nothing names it;
/// claimed: there is one exactly when chrono represents the instant, it is the reading at
/// that instant, and its fields are in the ranges chrono documents.
#[verifier::external_body]
fn read_local_clock(utc_seconds: i64) -> (r: Option<ClockReading>)
    ensures
        in_chrono_range(utc_seconds as int) <==> r is Some,
        r matches Some(c) ==> c@.wf() && c.instant == utc_seconds,
{
    let t = chrono::DateTime::from_timestamp(utc_seconds, 0)?.with_timezone(&chrono::Local);
    let offset = t.format("%z").to_string();
    let (year, month, day) = (t.year(), t.month(), t.day());
    let (hour, minute) = (t.hour(), t.minute());
    let weekday = t.weekday().num_days_from_sunday();
    Some(ClockReading { year, month, day, hour, minute, weekday, offset, instant: utc_seconds })
}

/// std's `SystemTime::now().duration_since(UNIX_EPOCH)`, in whole seconds. There is none
/// when the system clock reads before the epoch. The value depends on the clock and is
/// not stated.
#[verifier::external_body]
fn seconds_since_epoch() -> (r: Option<u64>) {
    let elapsed = std::time::SystemTime::now().duration_since(std::time::UNIX_EPOCH).ok()?;
    Some(elapsed.as_secs())
}

/// The seconds since the Unix epoch now, when the system clock reads no earlier than the
/// epoch and the count fits an `i64`.
fn unix_now_seconds() -> (r: Option<i64>)
    ensures
        r matches Some(s) ==> 0 <= s,
{
    match seconds_since_epoch() {
        Some(secs) => if secs <= i64::MAX as u64 {
            Some(secs as i64)
        } else {
            None
        },
        None => None,
    }
}

/// The date of a reading.
pub open spec fn date_of(r: ReadingView) -> CalendarDate {
    CalendarDate { year: r.year, month: r.month, day: r.day }
}

/// `today` is the local date at `now`: the date of an in-range local reading at `now`.
pub open spec fn local_date_at_instant(today: CalendarDate, now: int) -> bool {
    exists|r: ReadingView| r.wf() && r.instant == now && today == date_of(r)
}

/// The local date at `now`, read from the local clock; none when chrono does not
/// represent `now`.
fn local_date_at(now: i64) -> (r: Option<CalendarDate>)
    ensures
        in_chrono_range(now as int) <==> r is Some,
        r matches Some(d) ==> local_date_at_instant(d, now as int),
{
    match read_local_clock(now) {
        Some(c) => {
            let d = CalendarDate { year: c.year, month: c.month, day: c.day };
            assert(c@.wf() && c@.instant == now && d == date_of(c@));
            Some(d)
        },
        None => None,
    }
}

/// The clock name that stands for the machine's own time zone, in any letter case.
pub open spec fn is_local_name(timezone: Seq<char>) -> bool {
    eq_ignore_ascii_case_spec(timezone, "local"@)
}

/// A snapshot (or its absence) is one that building the clock `label`/`timezone` at
/// `now` can give. For the machine's zone: a snapshot exactly when chrono represents
/// `now`, showing an in-range local reading at `now` under the zone name `local`. Otherwise: a
/// snapshot exactly when chrono-tz knows the zone and chrono represents `now`, showing the
/// reading in that zone.
pub open spec fn built(label: Seq<char>, timezone: Seq<char>, now: int, today: Option<CalendarDate>, out: Option<SnapshotView>) -> bool {
    if is_local_name(timezone) {
        &&& (out is Some <==> in_chrono_range(now))
        &&& (out matches Some(s) ==> exists|r: ReadingView|
            r.wf() && r.instant == now && s == snapshot_of(label, "local"@, r, today))
    } else {
        &&& (out is Some <==> known_zone(timezone) && in_chrono_range(now))
        &&& match zone_clock(timezone, now) {
            Some(r) => out == Some(snapshot_of(label, timezone, r, today)),
            None => out is None,
        }
    }
}

/// The value of an optional snapshot.
pub open spec fn snapshot_view(s: Option<WorldClockSnapshot>) -> Option<SnapshotView> {
    match s {
        Some(x) => Some(x@),
        None => None,
    }
}

/// The snapshot of the clock `label` for `timezone` at `now` (seconds since the epoch).
pub fn build_snapshot(label: &str, timezone: &str, now: i64, today: Option<CalendarDate>) -> (r: Option<WorldClockSnapshot>)
    ensures
        built(label@, timezone@, now as int, today, snapshot_view(r)),
{
    if eq_ignore_ascii_case(timezone, "local") {
        match read_local_clock(now) {
            Some(reading) => {
                let s = make_snapshot(label, "local", &reading, today);
                assert(reading@.wf() && reading@.instant == now && s@ == snapshot_of(label@, "local"@, reading@, today));
                Some(s)
            },
            None => None,
        }
    } else {
        match read_zone_clock(timezone, now) {
            Some(reading) => Some(make_snapshot(label, timezone, &reading, today)),
            None => None,
        }
    }
}

/// The snapshots present among the outcomes, in order.
pub open spec fn present(outs: Seq<Option<SnapshotView>>) -> Seq<SnapshotView>
    decreases outs.len(),
{
    if outs.len() == 0 {
        seq![]
    } else {
        match outs.last() {
            Some(s) => present(outs.drop_last()).push(s),
            None => present(outs.drop_last()),
        }
    }
}

/// A list of snapshots, as values.
pub open spec fn snapshot_views(v: Seq<WorldClockSnapshot>) -> Seq<SnapshotView> {
    v.map_values(|s: WorldClockSnapshot| s@)
}

/// The snapshots of a list of clocks: each clock is built in turn and the clocks
/// that give no snapshot are left out.
pub open spec fn built_all(clocks: Seq<ClockView>, now: int, today: Option<CalendarDate>, shown: Seq<SnapshotView>) -> bool {
    exists|outs: Seq<Option<SnapshotView>>|
        outs.len() == clocks.len() && shown == present(outs) && forall|i: int|
            0 <= i < clocks.len() ==> built(
                #[trigger] clocks[i].label,
                clocks[i].timezone,
                now,
                today,
                outs[i],
            )
}

/// The snapshots of a list of clocks at `now`.
pub fn snapshots_at(configs: &Vec<WorldClockConfig>, now: i64, today: Option<CalendarDate>) -> (r: Vec<WorldClockSnapshot>)
    ensures
        built_all(crate::domain::clock_views(configs@), now as int, today, snapshot_views(r@)),
{
    let ghost clocks = crate::domain::clock_views(configs@);
    let ghost mut outs: Seq<Option<SnapshotView>> = seq![];
    let mut r: Vec<WorldClockSnapshot> = Vec::new();
    let mut i: usize = 0;
    while i < configs.len()
        invariant
            i <= configs@.len(),
            clocks == crate::domain::clock_views(configs@),
            outs.len() == i,
            snapshot_views(r@) == present(outs),
            forall|k: int|
                0 <= k < i ==> built(#[trigger] clocks[k].label, clocks[k].timezone, now as int, today, outs[k]),
        decreases configs@.len() - i,
    {
        let c = &configs[i];
        let s = build_snapshot(c.label.as_str(), c.timezone.as_str(), now, today);
        let ghost out = snapshot_view(s);
        let ghost before = snapshot_views(r@);
        proof {
            assert(outs.push(out).drop_last() =~= outs);
        }
        match s {
            Some(x) => {
                r.push(x);
                assert(snapshot_views(r@) =~= before.push(out->Some_0));
            },
            None => {},
        }
        proof {
            outs = outs.push(out);
        }
        i = i + 1;
    }
    r
}

/// The snapshot of one clock now, with today's local date read at the same instant; none
/// when the system clock gives no instant from the epoch on that chrono represents.
pub fn snapshot(config: &WorldClockConfig) -> (r: Option<WorldClockSnapshot>)
    ensures
        r is None || exists|now: int, today: CalendarDate|
            0 <= now <= LATEST_SECONDS && local_date_at_instant(today, now) && built(
                config@.label,
                config@.timezone,
                now,
                Some(today),
                #[trigger] snapshot_view(r),
            ),
{
    let now = match unix_now_seconds() {
        Some(s) => s,
        None => return None,
    };
    let today = match local_date_at(now) {
        Some(d) => d,
        None => return None,
    };
    let r = build_snapshot(config.label.as_str(), config.timezone.as_str(), now, Some(today));
    assert(built(config@.label, config@.timezone, now as int, Some(today), snapshot_view(r)));
    r
}

/// The snapshots of a list of clocks now, with today's local date read at the same instant;
/// an empty list when the system clock gives no instant from the epoch on that chrono
/// represents.
pub fn snapshots(configs: &Vec<WorldClockConfig>) -> (r: Vec<WorldClockSnapshot>)
    ensures
        r@.len() == 0 || exists|now: int, today: CalendarDate|
            0 <= now <= LATEST_SECONDS && local_date_at_instant(today, now) && built_all(
                crate::domain::clock_views(configs@),
                now,
                Some(today),
                #[trigger] snapshot_views(r@),
            ),
{
    let now = match unix_now_seconds() {
        Some(s) => s,
        None => return Vec::new(),
    };
    let today = match local_date_at(now) {
        Some(d) => d,
        None => return Vec::new(),
    };
    snapshots_at(configs, now, Some(today))
}

proof fn lemma_matching(cities: Seq<CityView>, q: Seq<char>)
    ensures
        forall|k: int|
            0 <= k < matching(cities, q).len() ==> cities.contains(#[trigger] matching(cities, q)[k])
                && city_matches(matching(cities, q)[k], q),
        forall|i: int|
            0 <= i < cities.len() && city_matches(#[trigger] cities[i], q) ==> matching(
                cities,
                q,
            ).contains(cities[i]),
    decreases cities.len(),
{
    if cities.len() > 0 {
        let init = cities.drop_last();
        let prev = matching(init, q);
        let r = matching(cities, q);
        lemma_matching(init, q);
        assert forall|k: int| 0 <= k < r.len() implies cities.contains(#[trigger] r[k])
            && city_matches(r[k], q) by {
            if k < prev.len() {
                assert(r[k] == prev[k]);
                let j = choose|j: int| 0 <= j < init.len() && init[j] == prev[k];
                assert(cities[j] == prev[k]);
            } else {
                assert(cities[cities.len() - 1] == r[k]);
            }
        }
        assert forall|i: int| 0 <= i < cities.len() && city_matches(#[trigger] cities[i], q) implies r.contains(
            cities[i],
        ) by {
            if i < init.len() {
                assert(init[i] == cities[i]);
                assert(prev.contains(cities[i]));
                let j = choose|j: int| 0 <= j < prev.len() && prev[j] == cities[i];
                assert(r[j] == cities[i]);
            } else {
                assert(r[r.len() - 1] == cities[i]);
            }
        }
    }
}

/// A search gives offered cities only; for a non-blank query, exactly the offered
/// cities that match it (each of them, and no other).
pub proof fn law_search_gives_matching_cities(query: Seq<char>)
    ensures
        forall|k: int|
            0 <= k < search_result(query).len() ==> city_list().contains(#[trigger] search_result(query)[k]),
        normalized_query(query).len() > 0 ==> forall|c: CityView|
            city_list().contains(c) ==> (#[trigger] search_result(query).contains(c) <==> city_matches(
                c,
                normalized_query(query),
            )),
{
    let q = normalized_query(query);
    lemma_matching(city_list(), q);
    let r = search_result(query);
    if q.len() > 0 {
        assert forall|c: CityView| city_list().contains(c) implies (#[trigger] r.contains(c) <==> city_matches(c, q)) by {
            let i = choose|i: int| 0 <= i < city_list().len() && city_list()[i] == c;
            if r.contains(c) {
                let k = choose|k: int| 0 <= k < r.len() && r[k] == c;
                assert(city_matches(r[k], q));
            }
            if city_matches(c, q) {
                assert(city_matches(city_list()[i], q));
            }
        }
    } else {
        assert forall|k: int| 0 <= k < r.len() implies city_list().contains(#[trigger] r[k]) by {
            assert(city_list()[k] == r[k]);
        }
    }
}

/// A query made only of white space (or empty) lists every city: it trims to nothing,
/// and a search whose trimmed query is empty gives all cities.
pub proof fn law_blank_query_trims_to_nothing(query: Seq<char>)
    requires
        forall|i: int| 0 <= i < query.len() ==> is_white_space(#[trigger] query[i]),
    ensures
        trimmed_of(query).len() == 0,
{
    lemma_blank_trims_to_empty(query);
}

proof fn lemma_matching_narrows(cities: Seq<CityView>, a: Seq<char>, b: Seq<char>)
    requires
        forall|c: CityView| #[trigger] city_matches(c, b) ==> city_matches(c, a),
    ensures
        matching(matching(cities, a), b) == matching(cities, b),
    decreases cities.len(),
{
    if cities.len() > 0 {
        let init = cities.drop_last();
        let x = cities.last();
        lemma_matching_narrows(init, a, b);
        if city_matches(x, a) {
            let m = matching(init, a).push(x);
            assert(m.drop_last() =~= matching(init, a));
            assert(m.last() == x);
        } else {
            assert(!city_matches(x, b));
        }
    }
}

/// A longer query never adds cities: when the normalized query of `q2` contains the
/// non-empty normalized query of `q1`, the result for `q2` is the result for `q1` filtered,
/// hence a subsequence of it.
pub proof fn law_longer_query_narrows(q1: Seq<char>, q2: Seq<char>)
    requires
        normalized_query(q1).len() > 0,
        contains_text(normalized_query(q2), normalized_query(q1)),
    ensures
        search_result(q2) == matching(search_result(q1), normalized_query(q2)),
{
    let a = normalized_query(q1);
    let b = normalized_query(q2);
    let i = choose|i: int| occurs_at(b, a, i);
    assert(b.len() > 0);
    assert forall|c: CityView| #[trigger] city_matches(c, b) implies city_matches(c, a) by {
        if contains_text(lowercase_of(c.label), b) {
            lemma_contains_transitive(lowercase_of(c.label), b, a);
        } else if contains_text(lowercase_of(c.timezone), b) {
            lemma_contains_transitive(lowercase_of(c.timezone), b, a);
        } else {
            let k = c.country->Some_0;
            lemma_contains_transitive(lowercase_of(k), b, a);
        }
    }
    lemma_matching_narrows(city_list(), a, b);
}

/// On a 24-hour day, the 12-hour form names an hour from 1 to 12 and, with its period,
/// gives back the hour: `AM` adds nothing, `PM` adds twelve (12 counting as 0).
pub proof fn law_12_hour_round_trip(hour: u32)
    requires
        hour < 24,
    ensures
        1 <= hour12(hour) <= 12,
        hour == hour12(hour) % 12 + if period(hour) == "PM"@ { 12int } else { 0int },
{
    reveal_strlit("AM");
    reveal_strlit("PM");
    assert("AM"@ != "PM"@) by {
        assert("AM"@[0] != "PM"@[0]);
    }
}

/// How chrono writes a UTC offset of `m` minutes with `%z`: sign, two digits of hours,
/// two digits of minutes (ASCII).
pub open spec fn z_offset_text(m: int) -> Seq<u8> {
    let a = if m < 0 { -m } else { m };
    let h = a / 60;
    let mm = a % 60;
    seq![
        if m < 0 { 45u8 } else { 43u8 },
        (48 + h / 10) as u8,
        (48 + h % 10) as u8,
        (48 + mm / 10) as u8,
        (48 + mm % 10) as u8,
    ]
}

/// Reading back an offset written `±HHMM` gives the offset, for every offset under 100 hours.
pub proof fn law_offset_text_round_trip(m: int)
    requires
        -6000 < m < 6000,
    ensures
        offset_minutes_spec(z_offset_text(m)) == m,
{
    let a = if m < 0 { -m } else { m };
    let h = a / 60;
    let mm = a % 60;
    assert(0 <= h < 100);
    assert(h / 10 * 10 + h % 10 == h);
    assert(mm / 10 * 10 + mm % 10 == mm);
}

/// A clock is "today" exactly when the date of its reading is today's date (and always
/// when no today is given); its label and zone are the ones asked for.
pub proof fn law_snapshot_today(label: Seq<char>, timezone: Seq<char>, r: ReadingView, today: Option<CalendarDate>)
    ensures
        snapshot_of(label, timezone, r, today).is_today == match today {
            Some(t) => date_of(r) == t,
            None => true,
        },
        snapshot_of(label, timezone, r, today).label == label,
        snapshot_of(label, timezone, r, today).timezone == timezone,
{
}

/// A clock whose reading has the offset `m` minutes (written `±HHMM`, under 100 hours)
/// shows `m` as its offset, labelled with the hours and any minutes of `m`.
pub proof fn law_snapshot_offset(label: Seq<char>, timezone: Seq<char>, r: ReadingView, today: Option<CalendarDate>, m: int)
    requires
        -6000 < m < 6000,
        encode_utf8(r.offset) == z_offset_text(m),
    ensures
        snapshot_of(label, timezone, r, today).offset_minutes == m,
        snapshot_of(label, timezone, r, today).offset_label == offset_label(m),
{
    law_offset_text_round_trip(m);
}

/// A whole number of hours east of UTC is labelled `UTC+` and the hours, with no minutes.
pub proof fn law_offset_label_whole_hours(h: nat)
    ensures
        offset_label((60 * h) as int) == "UTC+"@ + decimal_nat(h),
{
    reveal_strlit("UTC");
    reveal_strlit("+");
    reveal_strlit("UTC+");
    assert((60 * h) / 60 == h);
    assert((60 * h) % 60 == 0);
    assert("UTC"@ + "+"@ =~= "UTC+"@);
}

/// The weekday names run from Sunday (`星期日`) through Saturday: `星期` followed by
/// 日, 一, 二, 三, 四, 五, 六 for days 0 to 6, all different.
pub proof fn law_weekday_names(w: u32, v: u32)
    requires
        w < 7,
        v < 7,
    ensures
        weekday_name(w) == "星期"@ + seq!["日一二三四五六"@[w as int]],
        w != v ==> weekday_name(w) != weekday_name(v),
{
    reveal_strlit("星期");
    reveal_strlit("日一二三四五六");
    reveal_strlit("星期日");
    reveal_strlit("星期一");
    reveal_strlit("星期二");
    reveal_strlit("星期三");
    reveal_strlit("星期四");
    reveal_strlit("星期五");
    reveal_strlit("星期六");
    assert(weekday_name(w) =~= "星期"@ + seq!["日一二三四五六"@[w as int]]);
    assert(weekday_name(v) =~= "星期"@ + seq!["日一二三四五六"@[v as int]]);
    if w != v {
        assert(weekday_name(w)[2] != weekday_name(v)[2]);
    }
}

/// Negating an offset changes only the sign in its label.
pub proof fn law_offset_label_sign(m: int)
    requires
        m > 0,
    ensures
        offset_label(-m) == offset_label(m).update(3, '-'),
        offset_label(m)[3] == '+',
{
    reveal_strlit("UTC");
    reveal_strlit("+");
    reveal_strlit("-");
    let a = "UTC"@ + "+"@ + decimal_nat((m / 60) as nat);
    let b = "UTC"@ + "-"@ + decimal_nat((m / 60) as nat);
    assert(b =~= a.update(3, '-'));
    if m % 60 != 0 {
        let tail = ":"@ + decimal_nat((m % 60) as nat);
        assert(b + tail =~= (a + tail).update(3, '-'));
    }
}

/// The 24-hour time shows the hour and the minute in two digits each, `HH:MM`; the 12-hour
/// time shows the hour from 1 to 12 (the hour itself in the morning, twelve less in the
/// afternoon, 12 for midnight and noon), the same minute, and `AM` before noon, `PM` after.
pub proof fn law_snapshot_times(label: Seq<char>, timezone: Seq<char>, r: ReadingView, today: Option<CalendarDate>)
    requires
        r.wf(),
    ensures
        snapshot_of(label, timezone, r, today).time_24 == pad2(r.hour as nat) + ":"@ + pad2(r.minute as nat),
        snapshot_of(label, timezone, r, today).time_12 == pad2(
            if r.hour % 12 == 0 { 12nat } else { (r.hour % 12) as nat },
        ) + ":"@ + pad2(r.minute as nat) + " "@ + if r.hour < 12 { "AM"@ } else { "PM"@ },
{
}

/// Each clock shown on first run is one of the cities offered (same label and zone).
pub proof fn law_default_clocks_are_offered()
    ensures
        forall|i: int|
            0 <= i < default_clock_views().len() ==> exists|k: int|
                0 <= k < CITY_COUNT && (#[trigger] city_at(k)).label == (
                #[trigger] default_clock_views()[i]).label && city_at(k).timezone
                    == default_clock_views()[i].timezone,
{
    assert(city_at(0).label == default_clock_views()[0].label);
    assert(city_at(27).label == default_clock_views()[1].label);
    assert(city_at(33).label == default_clock_views()[2].label);
}

} // verus!
