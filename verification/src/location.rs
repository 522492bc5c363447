//! Turning the answer of an IP location service into a place label and coordinate
//! texts, and the messages given when locating fails.

use vstd::prelude::*;

use crate::text::{chars_of, trimmed, trimmed_of};

verus! {

/// The text of an optional string.
pub open spec fn opt_text(o: Option<String>) -> Option<Seq<char>> {
    match o {
        Some(s) => Some(s@),
        None => None,
    }
}

/// The first of two optional values that is present.
pub open spec fn first_present(a: Option<Seq<char>>, b: Option<Seq<char>>) -> Option<Seq<char>> {
    match a {
        Some(x) => Some(x),
        None => b,
    }
}

/// An optional text, with an empty text counted as missing.
pub open spec fn non_empty(o: Option<Seq<char>>) -> Option<Seq<char>> {
    match o {
        Some(s) => if s.len() > 0 { Some(s) } else { None },
        None => None,
    }
}

/// The label of a located place: `city, country` when both are known, else the one that
/// is, else the region, else the capital, else `当前位置` ("current position"). The country
/// is the country name when given, else the country field; empty city or country texts
/// count as missing (an empty region or capital does not).
pub open spec fn place_label_spec(
    city: Option<Seq<char>>,
    country_name: Option<Seq<char>>,
    country: Option<Seq<char>>,
    region: Option<Seq<char>>,
    capital: Option<Seq<char>>,
) -> Seq<char> {
    let k = non_empty(first_present(country_name, country));
    let c = non_empty(city);
    match (c, k) {
        (Some(c), Some(k)) => c + ", "@ + k,
        (Some(c), None) => c,
        (None, Some(k)) => k,
        _ => match first_present(region, capital) {
            Some(x) => x,
            None => "当前位置"@,
        },
    }
}

fn non_empty_exec(o: Option<String>) -> (r: Option<String>)
    ensures
        opt_text(r) == non_empty(opt_text(o)),
{
    match o {
        Some(s) => if s.as_str().is_empty() { None } else { Some(s) },
        None => None,
    }
}

/// The label of a located place, from the fields the location service gave.
pub fn place_label(
    city: Option<String>,
    country_name: Option<String>,
    country: Option<String>,
    region: Option<String>,
    capital: Option<String>,
) -> (r: String)
    ensures
        r@ == place_label_spec(
            opt_text(city),
            opt_text(country_name),
            opt_text(country),
            opt_text(region),
            opt_text(capital),
        ),
{
    let k = non_empty_exec(match country_name {
        Some(n) => Some(n),
        None => country,
    });
    let c = non_empty_exec(city);
    match (c, k) {
        (Some(c), Some(k)) => {
            let mut label = c;
            label.append(", ");
            label.append(k.as_str());
            label
        },
        (Some(c), None) => c,
        (None, Some(k)) => k,
        _ => match region {
            Some(x) => x,
            None => match capital {
                Some(x) => x,
                None => String::from_str("当前位置"),
            },
        },
    }
}

/// When the city and the country are known (the country name, or the country field when
/// there is no country name), the label is `city, country`, whatever the region and
/// capital are.
pub proof fn law_label_city_and_country(
    city: Seq<char>,
    country_name: Option<Seq<char>>,
    country: Option<Seq<char>>,
    region: Option<Seq<char>>,
    capital: Option<Seq<char>>,
    known: Seq<char>,
)
    requires
        city.len() > 0,
        known.len() > 0,
        country_name == Some(known) || (country_name is None && country == Some(known)),
    ensures
        place_label_spec(Some(city), country_name, country, region, capital) == city + ", "@ + known,
{
}

/// With a city but no usable country, the label is the city; with a usable country but no
/// usable city, it is the country; in both cases whatever the region and capital are.
pub proof fn law_label_one_known(
    city: Option<Seq<char>>,
    country_name: Option<Seq<char>>,
    country: Option<Seq<char>>,
    region: Option<Seq<char>>,
    capital: Option<Seq<char>>,
)
    ensures
        (city matches Some(c) && c.len() > 0) && (country_name matches Some(n) && n.len() == 0)
            ==> place_label_spec(city, country_name, country, region, capital) == city->Some_0,
        (city matches Some(c) && c.len() > 0) && country_name is None && (country is None || (
        country matches Some(k) && k.len() == 0))
            ==> place_label_spec(city, country_name, country, region, capital) == city->Some_0,
        (city is None || (city matches Some(c) && c.len() == 0)) && (country_name matches Some(n)
            && n.len() > 0) ==> place_label_spec(city, country_name, country, region, capital)
            == country_name->Some_0,
{
}

/// With neither a usable city nor a usable country, the label is the region, else the
/// capital, else `当前位置` ("current position").
pub proof fn law_label_fallbacks(
    region: Option<Seq<char>>,
    capital: Option<Seq<char>>,
)
    ensures
        place_label_spec(None, None, None, region, capital) == match region {
            Some(g) => g,
            None => match capital {
                Some(p) => p,
                None => "当前位置"@,
            },
        },
        place_label_spec(Some(seq![]), Some(seq![]), Some(seq!['x']), region, capital)
            == place_label_spec(None, None, None, region, capital),
{
}

/// Where the coordinates of a location answer come from.
#[derive(Debug, Clone, PartialEq, Eq)]
pub enum CoordinateSource<F> {
    /// Latitude and longitude given as numbers.
    Pair(F, F),
    /// A `lat,lon` text to read.
    Text(String),
}

/// The message given when a location answer has no coordinates at all.
pub open spec fn missing_coordinates() -> Seq<char> {
    "缺少经纬度"@
}

/// Chooses where the coordinates come from: the latitude and longitude numbers when both
/// are given, else the `lat,lon` text, else the missing-coordinates message.
pub fn coordinate_source<F>(latitude: Option<F>, longitude: Option<F>, loc: Option<String>) -> (r: Result<CoordinateSource<F>, String>)
    ensures
        match (latitude, longitude) {
            (Some(a), Some(b)) => r == Ok::<CoordinateSource<F>, String>(CoordinateSource::Pair(a, b)),
            _ => match loc {
                Some(t) => r == Ok::<CoordinateSource<F>, String>(CoordinateSource::Text(t)),
                None => r matches Err(e) && e@ == missing_coordinates(),
            },
        },
{
    match (latitude, longitude) {
        (Some(a), Some(b)) => Ok(CoordinateSource::Pair(a, b)),
        _ => match loc {
            Some(t) => Ok(CoordinateSource::Text(t)),
            None => Err(String::from_str("缺少经纬度")),
        },
    }
}

/// No comma in the text.
pub open spec fn comma_free(s: Seq<char>) -> bool {
    forall|i: int| 0 <= i < s.len() ==> s[i] != ','
}

fn first_comma_from(c: &Vec<char>, from: usize) -> (r: usize)
    requires
        from <= c@.len(),
    ensures
        from <= r <= c@.len(),
        r == c@.len() || c@[r as int] == ',',
        comma_free(c@.subrange(from as int, r as int)),
{
    let mut i = from;
    while i < c.len()
        invariant
            from <= i <= c@.len(),
            comma_free(c@.subrange(from as int, i as int)),
        decreases c@.len() - i,
    {
        if c[i] == ',' {
            return i;
        }
        i = i + 1;
        assert(c@.subrange(from as int, i as int) =~= c@.subrange(from as int, i - 1).push(c@[i - 1]));
    }
    i
}

/// In `loc`, the first comma is at `i` and the second field ends at `j` (at the next
/// comma or at the end).
pub open spec fn second_field_at(loc: Seq<char>, i: int, j: int) -> bool {
    &&& 0 <= i < j <= loc.len()
    &&& loc[i] == ','
    &&& comma_free(loc.take(i))
    &&& comma_free(loc.subrange(i + 1, j))
    &&& (j == loc.len() || loc[j] == ',')
}

/// The coordinate texts of a `lat,lon` location, trimmed: the text before the first
/// comma (all of it when there is none), and the text between the first and the next
/// comma (or the end), absent when there is no comma.
pub fn coordinate_fields(loc: &str) -> (r: (String, Option<String>))
    ensures
        comma_free(loc@) ==> r.0@ == trimmed_of(loc@) && r.1 is None,
        !comma_free(loc@) ==> exists|i: int, j: int|
            #[trigger] second_field_at(loc@, i, j) && r.0@ == trimmed_of(loc@.take(i)) && opt_text(r.1)
                == Some(trimmed_of(loc@.subrange(i + 1, j))),
{
    let c = chars_of(loc);
    let i = first_comma_from(&c, 0);
    let lat = String::from_str(trimmed(loc.substring_char(0, i)));
    assert(loc@.take(i as int) =~= c@.subrange(0, i as int));
    if i == c.len() {
        assert(loc@.subrange(0, i as int) =~= loc@);
        return (lat, None);
    }
    let j = first_comma_from(&c, i + 1);
    let lon = String::from_str(trimmed(loc.substring_char(i + 1, j)));
    let ghost (gi, gj) = (i as int, j as int);
    assert(loc@.subrange(gi + 1, gj) =~= c@.subrange(gi + 1, gj));
    assert(second_field_at(loc@, gi, gj));
    assert(lat@ == trimmed_of(loc@.take(gi)) && lon@ == trimmed_of(loc@.subrange(gi + 1, gj)));
    (lat, Some(lon))
}

/// At most the first 120 characters of a text, as quoted in error messages.
pub fn snippet(text: &str) -> (r: String)
    ensures
        r@ == if text@.len() <= 120 { text@ } else { text@.take(120) },
{
    let n = text.unicode_len();
    let end = if n <= 120 { n } else { 120 };
    let r = String::from_str(text.substring_char(0, end));
    assert(text@.subrange(0, n as int) =~= text@);
    r
}

/// Texts joined with line breaks between them.
pub open spec fn lines(parts: Seq<Seq<char>>) -> Seq<char>
    decreases parts.len(),
{
    if parts.len() == 0 {
        seq![]
    } else if parts.len() == 1 {
        parts[0]
    } else {
        lines(parts.drop_last()) + "\n"@ + parts.last()
    }
}

/// The message given when every location service failed: a heading line, then the
/// error of each service on a line of its own.
pub fn all_failed_message(errors: &Vec<String>) -> (r: String)
    ensures
        r@ == "所有定位服务均失败:\n"@ + lines(errors@.map_values(|e: String| e@)),
{
    let ghost parts = errors@.map_values(|e: String| e@);
    let mut joined = String::new();
    let mut i: usize = 0;
    while i < errors.len()
        invariant
            i <= errors@.len(),
            parts == errors@.map_values(|e: String| e@),
            joined@ == lines(parts.take(i as int)),
        decreases errors@.len() - i,
    {
        assert(parts.take(i as int + 1).drop_last() =~= parts.take(i as int));
        if i > 0 {
            joined.append("\n");
        }
        joined.append(errors[i].as_str());
        i = i + 1;
    }
    assert(parts.take(errors@.len() as int) =~= parts);
    let mut r = String::from_str("所有定位服务均失败:\n");
    r.append(joined.as_str());
    r
}

/// The IP location services, asked in this order (key-less endpoints that answer plain JSON).
pub open spec fn endpoint_at(i: int) -> Option<Seq<char>> {
    if i == 0 {
        Some("https://ipwho.is/"@)
    } else if i == 1 {
        Some("https://ipinfo.io/json"@)
    } else if i == 2 {
        Some("https://freeipapi.com/api/json/"@)
    } else {
        None
    }
}

/// The `i`-th location service, if there is one.
pub fn endpoint(i: usize) -> (r: Option<&'static str>)
    ensures
        match r {
            Some(u) => endpoint_at(i as int) == Some(u@),
            None => endpoint_at(i as int) is None,
        },
{
    match i {
        0 => Some("https://ipwho.is/"),
        1 => Some("https://ipinfo.io/json"),
        2 => Some("https://freeipapi.com/api/json/"),
        _ => None,
    }
}

/// There are three location services, all different, and none after them.
pub proof fn law_three_distinct_services(i: int, j: int)
    ensures
        endpoint_at(i) is Some <==> 0 <= i < 3,
        0 <= i < 3 && 0 <= j < 3 && i != j ==> endpoint_at(i) != endpoint_at(j),
{
    reveal_strlit("https://ipwho.is/");
    reveal_strlit("https://ipinfo.io/json");
    reveal_strlit("https://freeipapi.com/api/json/");
    if 0 <= i < 3 && 0 <= j < 3 && i != j {
        assert(endpoint_at(i)->Some_0.len() != endpoint_at(j)->Some_0.len());
    }
}

/// What locating does next.
#[derive(Debug)]
pub enum LocateStep<L> {
    /// Ask this service.
    Ask(&'static str),
    /// A service gave this location: done.
    Located(L),
    /// Every service failed: report this message.
    Failed(String),
}

/// The message when every location service failed, from their errors.
pub open spec fn all_failed_text(errors: Seq<String>) -> Seq<char> {
    "所有定位服务均失败:\n"@ + lines(errors.map_values(|e: String| e@))
}

/// Decides the next step of locating after the service asked last answered `outcome`
/// (`errors` holds the errors of the services that failed before it): a location ends the
/// search; an error is recorded, then the next service is asked, or, when none is left,
/// the search fails with every error.
pub fn locate_step<L>(errors: &mut Vec<String>, outcome: Result<L, String>) -> (r: LocateStep<L>)
    ensures
        match outcome {
            Ok(l) => final(errors)@ == old(errors)@ && r == LocateStep::Located(l),
            Err(e) => {
                &&& final(errors)@ == old(errors)@.push(e)
                &&& match endpoint_at(final(errors)@.len() as int) {
                    Some(u) => r matches LocateStep::Ask(a) && a@ == u,
                    None => r matches LocateStep::Failed(m) && m@ == all_failed_text(final(errors)@),
                }
            },
        },
{
    match outcome {
        Ok(l) => LocateStep::Located(l),
        Err(e) => {
            errors.push(e);
            match endpoint(errors.len()) {
                Some(u) => LocateStep::Ask(u),
                None => LocateStep::Failed(all_failed_message(errors)),
            }
        },
    }
}

} // verus!
