//! Keeping the list of world clocks: adding, removing and reordering clocks,
//! and the defaults shown when the list is empty.

use vstd::prelude::*;

use crate::domain::{clock_config, clock_views, copy_clock, ClockView, StoreData, WorldClockConfig};

verus! {

/// Some clock in the list shows the zone `tz`.
pub open spec fn has_zone(clocks: Seq<ClockView>, tz: Seq<char>) -> bool {
    exists|i: int| 0 <= i < clocks.len() && clocks[i].timezone == tz
}

/// No two clocks of the list show the same zone.
pub open spec fn zones_distinct(clocks: Seq<ClockView>) -> bool {
    forall|i: int, j: int|
        0 <= i < clocks.len() && 0 <= j < clocks.len() && i != j ==> clocks[i].timezone
            != clocks[j].timezone
}

/// The list after asking to add a clock: unchanged when the zone is already shown,
/// otherwise the new clock goes last.
pub open spec fn added(clocks: Seq<ClockView>, label: Seq<char>, tz: Seq<char>) -> Seq<ClockView> {
    if has_zone(clocks, tz) {
        clocks
    } else {
        clocks.push(ClockView { label, timezone: tz })
    }
}

/// The clocks that do not show zone `tz`, in their order.
pub open spec fn without_zone(clocks: Seq<ClockView>, tz: Seq<char>) -> Seq<ClockView>
    decreases clocks.len(),
{
    if clocks.len() == 0 {
        seq![]
    } else {
        let rest = without_zone(clocks.drop_last(), tz);
        if clocks.last().timezone == tz {
            rest
        } else {
            rest.push(clocks.last())
        }
    }
}

/// The first clock at or after position `i` that shows zone `tz`.
pub open spec fn first_from(clocks: Seq<ClockView>, tz: Seq<char>, i: int) -> Option<ClockView>
    decreases clocks.len() - i,
{
    if i < 0 || i >= clocks.len() {
        None
    } else if clocks[i].timezone == tz {
        Some(clocks[i])
    } else {
        first_from(clocks, tz, i + 1)
    }
}

/// For each requested zone in turn, the first clock showing it (zones no clock shows are skipped).
pub open spec fn picked(clocks: Seq<ClockView>, zones: Seq<Seq<char>>) -> Seq<ClockView>
    decreases zones.len(),
{
    if zones.len() == 0 {
        seq![]
    } else {
        let prev = picked(clocks, zones.drop_last());
        match first_from(clocks, zones.last(), 0) {
            Some(c) => prev.push(c),
            None => prev,
        }
    }
}

/// The clocks whose zone was not requested, in their order.
pub open spec fn unrequested(clocks: Seq<ClockView>, zones: Seq<Seq<char>>) -> Seq<ClockView>
    decreases clocks.len(),
{
    if clocks.len() == 0 {
        seq![]
    } else {
        let rest = unrequested(clocks.drop_last(), zones);
        if zones.contains(clocks.last().timezone) {
            rest
        } else {
            rest.push(clocks.last())
        }
    }
}

/// The list after a reorder request: the requested clocks in the requested order,
/// then the others in their previous order.
pub open spec fn reordered(clocks: Seq<ClockView>, zones: Seq<Seq<char>>) -> Seq<ClockView> {
    picked(clocks, zones) + unrequested(clocks, zones)
}

/// The texts of a list of strings.
pub open spec fn texts(v: Seq<String>) -> Seq<Seq<char>> {
    v.map_values(|s: String| s@)
}

/// The clocks shown on first run.
pub open spec fn default_clock_views() -> Seq<ClockView> {
    seq![
        ClockView { label: "北京"@, timezone: "Asia/Shanghai"@ },
        ClockView { label: "伦敦"@, timezone: "Europe/London"@ },
        ClockView { label: "纽约"@, timezone: "America/New_York"@ },
    ]
}

/// The clocks shown on first run: Beijing, London and New York.
pub fn default_clocks() -> (r: Vec<WorldClockConfig>)
    ensures
        clock_views(r@) == default_clock_views(),
{
    let mut r: Vec<WorldClockConfig> = Vec::new();
    r.push(clock_config("北京", "Asia/Shanghai"));
    r.push(clock_config("伦敦", "Europe/London"));
    r.push(clock_config("纽约", "America/New_York"));
    assert(clock_views(r@) =~= default_clock_views());
    r
}

fn copy_clocks(v: &Vec<WorldClockConfig>) -> (r: Vec<WorldClockConfig>)
    ensures
        clock_views(r@) == clock_views(v@),
{
    let mut r: Vec<WorldClockConfig> = Vec::new();
    let mut i: usize = 0;
    while i < v.len()
        invariant
            i <= v@.len(),
            r@.len() == i,
            forall|k: int| 0 <= k < i ==> r@[k]@ == v@[k]@,
        decreases v@.len() - i,
    {
        r.push(copy_clock(&v[i]));
        i = i + 1;
    }
    assert(clock_views(r@) =~= clock_views(v@));
    r
}

fn position_of_zone(v: &Vec<WorldClockConfig>, tz: &String) -> (r: Option<usize>)
    ensures
        match r {
            Some(i) => i < v@.len() && first_from(clock_views(v@), tz@, 0) == Some(v@[i as int]@),
            None => first_from(clock_views(v@), tz@, 0) is None,
        },
{
    let ghost cs = clock_views(v@);
    let mut i: usize = 0;
    while i < v.len()
        invariant
            i <= v@.len(),
            cs == clock_views(v@),
            first_from(cs, tz@, 0) == first_from(cs, tz@, i as int),
        decreases v@.len() - i,
    {
        if v[i].timezone == *tz {
            return Some(i);
        }
        i = i + 1;
    }
    None
}

fn holds_text(v: &Vec<String>, s: &String) -> (r: bool)
    ensures
        r == texts(v@).contains(s@),
{
    let mut i: usize = 0;
    while i < v.len()
        invariant
            i <= v@.len(),
            forall|k: int| 0 <= k < i ==> v@[k]@ != s@,
        decreases v@.len() - i,
    {
        if v[i] == *s {
            assert(texts(v@)[i as int] == s@);
            return true;
        }
        i = i + 1;
    }
    assert forall|k: int| 0 <= k < texts(v@).len() implies texts(v@)[k] != s@ by {}
    false
}

impl<L, W> StoreData<L, W> {
    /// Everything but the clock list is the same in both stores.
    pub open spec fn same_except_clocks(&self, other: &Self) -> bool {
        &&& self.use_24_hour == other.use_24_hour
        &&& self.location == other.location
        &&& self.weather == other.weather
        &&& self.weather_failures == other.weather_failures
        &&& self.last_weather_attempt == other.last_weather_attempt
    }

    /// Adds a clock unless one already shows the same zone.
    pub fn add_clock(&mut self, label: String, timezone: String)
        ensures
            final(self).clocks() == added(old(self).clocks(), label@, timezone@),
            final(self).same_except_clocks(old(self)),
    {
        let ghost before = self.clocks();
        match position_of_zone(&self.world_clocks, &timezone) {
            Some(_) => {
                proof { lemma_first_from_shows(before, timezone@, 0); }
            },
            None => {
                proof { lemma_first_from_none(before, timezone@, 0); }
                let ghost tz = timezone@;
                let ghost lb = label@;
                self.world_clocks.push(WorldClockConfig { label, timezone });
                assert(self.clocks() =~= before.push(ClockView { label: lb, timezone: tz }));
            },
        }
    }

    /// Removes every clock that shows zone `timezone`.
    pub fn remove_clock(&mut self, timezone: &String)
        ensures
            final(self).clocks() == without_zone(old(self).clocks(), timezone@),
            final(self).same_except_clocks(old(self)),
    {
        let ghost before = self.clocks();
        let mut kept: Vec<WorldClockConfig> = Vec::new();
        let mut i: usize = 0;
        while i < self.world_clocks.len()
            invariant
                i <= self.world_clocks@.len(),
                before == clock_views(self.world_clocks@),
                clock_views(kept@) == without_zone(before.subrange(0, i as int), timezone@),
            decreases self.world_clocks@.len() - i,
        {
            let ghost prefix = before.subrange(0, i as int + 1);
            assert(prefix.drop_last() =~= before.subrange(0, i as int));
            if self.world_clocks[i].timezone != *timezone {
                kept.push(copy_clock(&self.world_clocks[i]));
            }
            i = i + 1;
            assert(clock_views(kept@) =~= without_zone(prefix, timezone@));
        }
        assert(before.subrange(0, before.len() as int) =~= before);
        self.world_clocks = kept;
    }

    /// Puts the clocks of the requested zones first, in the requested order, and keeps
    /// the other clocks after them in their previous order.
    pub fn reorder_clocks(&mut self, timezones: &Vec<String>)
        ensures
            final(self).clocks() == reordered(old(self).clocks(), texts(timezones@)),
            final(self).same_except_clocks(old(self)),
    {
        let ghost before = self.clocks();
        let ghost zones = texts(timezones@);
        let mut result: Vec<WorldClockConfig> = Vec::new();
        let mut i: usize = 0;
        while i < timezones.len()
            invariant
                i <= timezones@.len(),
                before == clock_views(self.world_clocks@),
                zones == texts(timezones@),
                clock_views(result@) == picked(before, zones.subrange(0, i as int)),
            decreases timezones@.len() - i,
        {
            let ghost prefix = zones.subrange(0, i as int + 1);
            assert(prefix.drop_last() =~= zones.subrange(0, i as int));
            assert(prefix.last() == timezones@[i as int]@);
            match position_of_zone(&self.world_clocks, &timezones[i]) {
                Some(k) => {
                    result.push(copy_clock(&self.world_clocks[k]));
                },
                None => {},
            }
            i = i + 1;
            assert(clock_views(result@) =~= picked(before, prefix));
        }
        assert(zones.subrange(0, zones.len() as int) =~= zones);
        let ghost head = clock_views(result@);
        let mut j: usize = 0;
        while j < self.world_clocks.len()
            invariant
                j <= self.world_clocks@.len(),
                before == clock_views(self.world_clocks@),
                zones == texts(timezones@),
                head == picked(before, zones),
                clock_views(result@) == head + unrequested(before.subrange(0, j as int), zones),
            decreases self.world_clocks@.len() - j,
        {
            let ghost prefix = before.subrange(0, j as int + 1);
            assert(prefix.drop_last() =~= before.subrange(0, j as int));
            assert(prefix.last() == self.world_clocks@[j as int]@);
            let ghost prev = clock_views(result@);
            if !holds_text(timezones, &self.world_clocks[j].timezone) {
                let c = copy_clock(&self.world_clocks[j]);
                result.push(c);
                assert(clock_views(result@) =~= prev.push(c@));
            }
            j = j + 1;
            assert(clock_views(result@) =~= head + unrequested(prefix, zones));
        }
        assert(before.subrange(0, before.len() as int) =~= before);
        self.world_clocks = result;
    }

    /// On first run, fills an empty clock list with the default clocks.
    pub fn ensure_clocks(&mut self)
        ensures
            old(self).world_clocks@.len() == 0 ==> final(self).clocks() == default_clock_views(),
            old(self).world_clocks@.len() != 0 ==> final(self).world_clocks == old(self).world_clocks,
            final(self).same_except_clocks(old(self)),
    {
        if self.world_clocks.len() == 0 {
            self.world_clocks = default_clocks();
        }
    }

    /// The clocks to show: the configured ones, or the defaults when none is configured.
    pub fn clocks_to_show(&self) -> (r: Vec<WorldClockConfig>)
        ensures
            clock_views(r@) == if self.world_clocks@.len() == 0 {
                default_clock_views()
            } else {
                self.clocks()
            },
    {
        if self.world_clocks.len() == 0 {
            default_clocks()
        } else {
            copy_clocks(&self.world_clocks)
        }
    }
}

/// A clock found from position `i` is a clock of the list showing that zone.
proof fn lemma_first_from_shows(clocks: Seq<ClockView>, tz: Seq<char>, i: int)
    ensures
        first_from(clocks, tz, i) matches Some(c) ==> exists|k: int|
            i <= k < clocks.len() && 0 <= k && clocks[k] == c && c.timezone == tz,
    decreases clocks.len() - i,
{
    if 0 <= i < clocks.len() && clocks[i].timezone != tz {
        lemma_first_from_shows(clocks, tz, i + 1);
    }
}

/// No clock is found from position `i` exactly when no clock from there on shows the zone.
proof fn lemma_first_from_none(clocks: Seq<ClockView>, tz: Seq<char>, i: int)
    requires
        0 <= i,
    ensures
        first_from(clocks, tz, i) is None <==> forall|k: int|
            i <= k < clocks.len() ==> clocks[k].timezone != tz,
    decreases clocks.len() - i,
{
    if i < clocks.len() && clocks[i].timezone != tz {
        lemma_first_from_none(clocks, tz, i + 1);
    }
}

/// The zone of each clock, in order.
pub open spec fn zone_list(clocks: Seq<ClockView>) -> Seq<Seq<char>> {
    clocks.map_values(|c: ClockView| c.timezone)
}

proof fn lemma_first_from_at(clocks: Seq<ClockView>, i: int, j: int)
    requires
        zones_distinct(clocks),
        0 <= j <= i < clocks.len(),
    ensures
        first_from(clocks, clocks[i].timezone, j) == Some(clocks[i]),
    decreases i - j,
{
    if j < i {
        lemma_first_from_at(clocks, i, j + 1);
    }
}

proof fn lemma_without_zone_contents(clocks: Seq<ClockView>, tz: Seq<char>)
    ensures
        forall|x: ClockView|
            #![trigger without_zone(clocks, tz).contains(x)]
            #![trigger clocks.contains(x)]
            without_zone(clocks, tz).contains(x) <==> clocks.contains(x) && x.timezone != tz,
        zones_distinct(clocks) ==> zones_distinct(without_zone(clocks, tz)),
        !has_zone(clocks, tz) ==> without_zone(clocks, tz) == clocks,
    decreases clocks.len(),
{
    if clocks.len() > 0 {
        let init = clocks.drop_last();
        let rest = without_zone(init, tz);
        lemma_without_zone_contents(init, tz);
        assert(clocks =~= init.push(clocks.last()));
        assert forall|x: ClockView|
            without_zone(clocks, tz).contains(x) <==> clocks.contains(x) && x.timezone != tz by {
            if clocks.contains(x) && x.timezone != tz {
                let k = choose|k: int| 0 <= k < clocks.len() && clocks[k] == x;
                if k < clocks.len() - 1 {
                    assert(init[k] == x);
                    assert(init.contains(x));
                    assert(rest.contains(x));
                    if clocks.last().timezone != tz {
                        assert(rest.push(clocks.last()).contains(x)) by {
                            let m = choose|m: int| 0 <= m < rest.len() && rest[m] == x;
                            assert(rest.push(clocks.last())[m] == x);
                        }
                    }
                } else {
                    assert(rest.push(clocks.last())[rest.len() as int] == x);
                }
            }
            if without_zone(clocks, tz).contains(x) {
                let m = choose|m: int| 0 <= m < without_zone(clocks, tz).len() && without_zone(clocks, tz)[m] == x;
                if clocks.last().timezone != tz && m == rest.len() {
                    assert(clocks[clocks.len() - 1] == x);
                } else {
                    assert(rest[m] == x);
                    assert(rest.contains(x));
                    assert(init.contains(x));
                    let k = choose|k: int| 0 <= k < init.len() && init[k] == x;
                    assert(clocks[k] == x);
                }
            }
        }
        if zones_distinct(clocks) {
            assert(zones_distinct(init));
            if clocks.last().timezone != tz {
                let r2 = rest.push(clocks.last());
                assert forall|i: int, j: int|
                    0 <= i < r2.len() && 0 <= j < r2.len() && i != j implies r2[i].timezone
                        != r2[j].timezone by {
                    if i == rest.len() || j == rest.len() {
                        let o = if i == rest.len() { j } else { i };
                        assert(rest.contains(rest[o]));
                        assert(init.contains(rest[o]));
                        let k = choose|k: int| 0 <= k < init.len() && init[k] == rest[o];
                        assert(clocks[k] == rest[o]);
                        assert(clocks[clocks.len() - 1].timezone != clocks[k].timezone);
                    }
                }
            }
        }
        if !has_zone(clocks, tz) {
            assert(!has_zone(init, tz)) by {
                if has_zone(init, tz) {
                    let k = choose|k: int| 0 <= k < init.len() && init[k].timezone == tz;
                    assert(clocks[k].timezone == tz);
                }
            }
            assert(clocks[clocks.len() - 1].timezone != tz);
        }
    } else {
        assert forall|x: ClockView|
            without_zone(clocks, tz).contains(x) <==> clocks.contains(x) && x.timezone != tz by {}
    }
}

/// Adding a clock keeps the zones of the list distinct, and afterwards a clock shows that zone.
pub proof fn law_add_keeps_zones_distinct(clocks: Seq<ClockView>, label: Seq<char>, tz: Seq<char>)
    requires
        zones_distinct(clocks),
    ensures
        zones_distinct(added(clocks, label, tz)),
        has_zone(added(clocks, label, tz), tz),
{
    let r = added(clocks, label, tz);
    if !has_zone(clocks, tz) {
        assert(r[clocks.len() as int].timezone == tz);
        assert forall|i: int, j: int|
            0 <= i < r.len() && 0 <= j < r.len() && i != j implies r[i].timezone != r[j].timezone by {
            if i == clocks.len() {
                assert(clocks[j].timezone != tz);
            } else if j == clocks.len() {
                assert(clocks[i].timezone != tz);
            }
        }
    } else {
        let k = choose|k: int| 0 <= k < clocks.len() && clocks[k].timezone == tz;
        assert(r[k].timezone == tz);
    }
}

/// Asking twice to add a clock for the same zone has the effect of asking once.
pub proof fn law_add_idempotent(clocks: Seq<ClockView>, label: Seq<char>, again: Seq<char>, tz: Seq<char>)
    ensures
        added(added(clocks, label, tz), again, tz) == added(clocks, label, tz),
{
    let r = added(clocks, label, tz);
    if !has_zone(clocks, tz) {
        assert(r[clocks.len() as int].timezone == tz);
        assert(has_zone(r, tz));
    } else {
        let k = choose|k: int| 0 <= k < clocks.len() && clocks[k].timezone == tz;
        assert(r[k].timezone == tz);
    }
}

/// Removing a zone leaves no clock showing it, keeps every other clock, and keeps
/// the zones of the list distinct.
pub proof fn law_remove(clocks: Seq<ClockView>, tz: Seq<char>)
    ensures
        !has_zone(without_zone(clocks, tz), tz),
        forall|x: ClockView|
            #![trigger without_zone(clocks, tz).contains(x)]
            #![trigger clocks.contains(x)]
            without_zone(clocks, tz).contains(x) <==> clocks.contains(x) && x.timezone != tz,
        zones_distinct(clocks) ==> zones_distinct(without_zone(clocks, tz)),
        !has_zone(clocks, tz) ==> without_zone(clocks, tz) == clocks,
{
    lemma_without_zone_contents(clocks, tz);
    let r = without_zone(clocks, tz);
    if has_zone(r, tz) {
        let k = choose|k: int| 0 <= k < r.len() && r[k].timezone == tz;
        assert(r.contains(r[k]));
        assert(r[k].timezone != tz);
    }
}

/// Removing a clock that was just added for a new zone gives back the list before the addition.
pub proof fn law_remove_undoes_add(clocks: Seq<ClockView>, label: Seq<char>, tz: Seq<char>)
    requires
        !has_zone(clocks, tz),
    ensures
        without_zone(added(clocks, label, tz), tz) == clocks,
{
    let r = added(clocks, label, tz);
    assert(r.drop_last() =~= clocks);
    lemma_without_zone_contents(clocks, tz);
}

proof fn lemma_picked_elems(clocks: Seq<ClockView>, zones: Seq<Seq<char>>)
    ensures
        forall|k: int|
            0 <= k < picked(clocks, zones).len() ==> clocks.contains(#[trigger] picked(clocks, zones)[k])
                && zones.contains(picked(clocks, zones)[k].timezone),
        forall|m: int|
            0 <= m < zones.len() ==> (first_from(clocks, #[trigger] zones[m], 0) matches Some(y)
                ==> picked(clocks, zones).contains(y)),
        shown_zones_once(clocks, zones) ==> zones_distinct(picked(clocks, zones)),
    decreases zones.len(),
{
    if zones.len() > 0 {
        let init = zones.drop_last();
        let prev = picked(clocks, init);
        lemma_picked_elems(clocks, init);
        lemma_first_from_shows(clocks, zones.last(), 0);
        let r = picked(clocks, zones);
        assert forall|k: int| 0 <= k < r.len() implies clocks.contains(#[trigger] r[k])
            && zones.contains(r[k].timezone) by {
            if k < prev.len() {
                assert(r[k] == prev[k]);
                let m = choose|m: int| 0 <= m < init.len() && init[m] == prev[k].timezone;
                assert(zones[m] == init[m]);
            } else {
                let c = first_from(clocks, zones.last(), 0)->Some_0;
                assert(r[k] == c);
                let q = choose|q: int| 0 <= q < clocks.len() && clocks[q] == c && c.timezone == zones.last();
                assert(clocks[q] == c);
                assert(zones[zones.len() - 1] == c.timezone);
            }
        }
        assert forall|m: int| 0 <= m < zones.len() implies (first_from(clocks, #[trigger] zones[m], 0) matches Some(y)
            ==> r.contains(y)) by {
            if let Some(y) = first_from(clocks, zones[m], 0) {
                if m < init.len() {
                    assert(init[m] == zones[m]);
                    assert(prev.contains(y));
                    let q = choose|q: int| 0 <= q < prev.len() && prev[q] == y;
                    assert(r[q] == y);
                } else {
                    assert(r[r.len() - 1] == y);
                }
            }
        }
        if shown_zones_once(clocks, zones) {
            assert forall|i: int, j: int|
                #![trigger init[i], init[j]]
                0 <= i < j < init.len() && init[i] == init[j] implies !has_zone(clocks, init[i]) by {
                assert(zones[i] == init[i] && zones[j] == init[j]);
            }
            if let Some(c) = first_from(clocks, zones.last(), 0) {
                assert(has_zone(clocks, zones.last())) by {
                    let q = choose|q: int| 0 <= q < clocks.len() && clocks[q] == c && c.timezone == zones.last();
                    assert(clocks[q].timezone == zones.last());
                }
                assert forall|i: int, j: int|
                    0 <= i < r.len() && 0 <= j < r.len() && i != j implies r[i].timezone
                        != r[j].timezone by {
                    if i == prev.len() || j == prev.len() {
                        let o = if i == prev.len() { j } else { i };
                        assert(r[o] == prev[o]);
                        let m = choose|m: int| 0 <= m < init.len() && init[m] == prev[o].timezone;
                        assert(zones[m] == init[m]);
                        if zones[m] == zones[zones.len() - 1] {
                            assert(!has_zone(clocks, zones[m]));
                        }
                    } else {
                        assert(r[i] == prev[i] && r[j] == prev[j]);
                    }
                }
            }
        }
    }
}

proof fn lemma_unrequested_elems(clocks: Seq<ClockView>, zones: Seq<Seq<char>>)
    ensures
        forall|x: ClockView|
            #![trigger unrequested(clocks, zones).contains(x)]
            #![trigger clocks.contains(x)]
            unrequested(clocks, zones).contains(x) <==> clocks.contains(x) && !zones.contains(
                x.timezone,
            ),
        zones_distinct(clocks) ==> zones_distinct(unrequested(clocks, zones)),
        (forall|k: int| 0 <= k < clocks.len() ==> zones.contains(#[trigger] clocks[k].timezone))
            ==> unrequested(clocks, zones).len() == 0,
    decreases clocks.len(),
{
    if clocks.len() > 0 {
        let init = clocks.drop_last();
        let rest = unrequested(init, zones);
        let r = unrequested(clocks, zones);
        lemma_unrequested_elems(init, zones);
        assert(clocks =~= init.push(clocks.last()));
        assert forall|x: ClockView|
            r.contains(x) <==> clocks.contains(x) && !zones.contains(x.timezone) by {
            if clocks.contains(x) && !zones.contains(x.timezone) {
                let k = choose|k: int| 0 <= k < clocks.len() && clocks[k] == x;
                if k < clocks.len() - 1 {
                    assert(init[k] == x);
                    assert(init.contains(x));
                    assert(rest.contains(x));
                    let m = choose|m: int| 0 <= m < rest.len() && rest[m] == x;
                    assert(r[m] == x);
                } else {
                    assert(r[rest.len() as int] == x);
                }
            }
            if r.contains(x) {
                let m = choose|m: int| 0 <= m < r.len() && r[m] == x;
                if !zones.contains(clocks.last().timezone) && m == rest.len() {
                    assert(clocks[clocks.len() - 1] == x);
                } else {
                    assert(rest[m] == x);
                    assert(rest.contains(x));
                    assert(init.contains(x));
                    let k = choose|k: int| 0 <= k < init.len() && init[k] == x;
                    assert(clocks[k] == x);
                }
            }
        }
        if zones_distinct(clocks) {
            assert(zones_distinct(init));
            if !zones.contains(clocks.last().timezone) {
                assert forall|i: int, j: int|
                    0 <= i < r.len() && 0 <= j < r.len() && i != j implies r[i].timezone
                        != r[j].timezone by {
                    if i == rest.len() || j == rest.len() {
                        let o = if i == rest.len() { j } else { i };
                        assert(r[o] == rest[o]);
                        assert(rest.contains(rest[o]));
                        assert(init.contains(rest[o]));
                        let k = choose|k: int| 0 <= k < init.len() && init[k] == rest[o];
                        assert(clocks[k] == rest[o]);
                        assert(clocks[clocks.len() - 1].timezone != clocks[k].timezone);
                    } else {
                        assert(r[i] == rest[i] && r[j] == rest[j]);
                    }
                }
            }
        }
        if forall|k: int| 0 <= k < clocks.len() ==> zones.contains(#[trigger] clocks[k].timezone) {
            assert forall|k: int| 0 <= k < init.len() implies zones.contains(#[trigger] init[k].timezone) by {
                assert(clocks[k] == init[k]);
            }
            assert(zones.contains(clocks[clocks.len() - 1].timezone));
        }
    } else {
        assert forall|x: ClockView|
            unrequested(clocks, zones).contains(x) <==> clocks.contains(x) && !zones.contains(
                x.timezone,
            ) by {}
    }
}

/// No zone that a clock shows is requested twice (zones no clock shows may repeat).
pub open spec fn shown_zones_once(clocks: Seq<ClockView>, zones: Seq<Seq<char>>) -> bool {
    forall|i: int, j: int|
        #![trigger zones[i], zones[j]]
        0 <= i < j < zones.len() && zones[i] == zones[j] ==> !has_zone(clocks, zones[i])
}

/// A reorder request that asks for no shown zone twice neither loses nor invents a clock:
/// the result holds exactly the clocks of the list, as many of them, with distinct zones.
pub proof fn law_reorder_is_permutation(clocks: Seq<ClockView>, zones: Seq<Seq<char>>)
    requires
        zones_distinct(clocks),
        shown_zones_once(clocks, zones),
    ensures
        zones_distinct(reordered(clocks, zones)),
        reordered(clocks, zones).len() == clocks.len(),
        forall|x: ClockView| reordered(clocks, zones).contains(x) <==> clocks.contains(x),
{
    let p = picked(clocks, zones);
    let u = unrequested(clocks, zones);
    let r = reordered(clocks, zones);
    lemma_picked_elems(clocks, zones);
    lemma_unrequested_elems(clocks, zones);
    assert forall|i: int, j: int|
        0 <= i < r.len() && 0 <= j < r.len() && i != j implies r[i].timezone != r[j].timezone by {
        if i < p.len() && j < p.len() {
            assert(r[i] == p[i] && r[j] == p[j]);
        } else if i >= p.len() && j >= p.len() {
            assert(r[i] == u[i - p.len()] && r[j] == u[j - p.len()]);
        } else {
            let (a, b) = if i < p.len() { (i, j) } else { (j, i) };
            assert(r[a] == p[a]);
            assert(zones.contains(p[a].timezone));
            assert(r[b] == u[b - p.len()]);
            assert(u.contains(u[b - p.len()]));
            assert(!zones.contains(u[b - p.len()].timezone));
        }
    }
    lemma_reordered_contains(clocks, zones);
    assert(r.no_duplicates());
    assert(clocks.no_duplicates());
    r.unique_seq_to_set();
    clocks.unique_seq_to_set();
    assert(r.to_set() =~= clocks.to_set());
}

proof fn lemma_picked_prefix(clocks: Seq<ClockView>, k: int)
    requires
        zones_distinct(clocks),
        0 <= k <= clocks.len(),
    ensures
        picked(clocks, zone_list(clocks).take(k)) == clocks.take(k),
    decreases k,
{
    let zl = zone_list(clocks);
    if k > 0 {
        lemma_picked_prefix(clocks, k - 1);
        assert(zl.take(k).drop_last() =~= zl.take(k - 1));
        lemma_first_from_at(clocks, k - 1, 0);
        assert(zl.take(k).last() == clocks[k - 1].timezone);
        assert(clocks.take(k) =~= clocks.take(k - 1).push(clocks[k - 1]));
    } else {
        assert(clocks.take(0) =~= Seq::<ClockView>::empty());
    }
}

/// Asking for the order the clocks already have changes nothing.
pub proof fn law_reorder_current_order_is_identity(clocks: Seq<ClockView>)
    requires
        zones_distinct(clocks),
    ensures
        reordered(clocks, zone_list(clocks)) == clocks,
{
    let zl = zone_list(clocks);
    lemma_picked_prefix(clocks, clocks.len() as int);
    assert(zl.take(clocks.len() as int) =~= zl);
    assert(clocks.take(clocks.len() as int) =~= clocks);
    assert forall|i: int| 0 <= i < clocks.len() implies zl.contains(#[trigger] clocks[i].timezone) by {
        assert(zl[i] == clocks[i].timezone);
    }
    lemma_unrequested_elems(clocks, zl);
    assert(reordered(clocks, zl) =~= clocks);
}

proof fn lemma_first_from_unique(s: Seq<ClockView>, t: Seq<char>, x: ClockView)
    requires
        forall|k: int| 0 <= k < s.len() && (#[trigger] s[k]).timezone == t ==> s[k] == x,
    ensures
        first_from(s, t, 0) == if has_zone(s, t) { Some(x) } else { None::<ClockView> },
{
    lemma_first_from_shows(s, t, 0);
    lemma_first_from_none(s, t, 0);
    if has_zone(s, t) {
        let k = choose|k: int| 0 <= k < s.len() && s[k].timezone == t;
        assert(s[k].timezone == t);
    }
}

proof fn lemma_picked_congruent(s1: Seq<ClockView>, s2: Seq<ClockView>, zones: Seq<Seq<char>>)
    requires
        forall|t: Seq<char>| #[trigger] first_from(s1, t, 0) == first_from(s2, t, 0),
    ensures
        picked(s1, zones) == picked(s2, zones),
    decreases zones.len(),
{
    if zones.len() > 0 {
        lemma_picked_congruent(s1, s2, zones.drop_last());
        assert(first_from(s1, zones.last(), 0) == first_from(s2, zones.last(), 0));
    }
}

proof fn lemma_unrequested_append(a: Seq<ClockView>, b: Seq<ClockView>, zones: Seq<Seq<char>>)
    ensures
        unrequested(a + b, zones) == unrequested(a, zones) + unrequested(b, zones),
    decreases b.len(),
{
    if b.len() == 0 {
        assert(a + b =~= a);
        assert(unrequested(a, zones) + unrequested(b, zones) =~= unrequested(a, zones));
    } else {
        lemma_unrequested_append(a, b.drop_last(), zones);
        assert((a + b).drop_last() =~= a + b.drop_last());
        assert((a + b).last() == b.last());
        if zones.contains(b.last().timezone) {
        } else {
            assert(unrequested(a, zones) + unrequested(b.drop_last(), zones).push(b.last())
                =~= (unrequested(a, zones) + unrequested(b.drop_last(), zones)).push(b.last()));
        }
    }
}

proof fn lemma_unrequested_keeps_unrequested(u: Seq<ClockView>, zones: Seq<Seq<char>>)
    requires
        forall|k: int| 0 <= k < u.len() ==> !zones.contains(#[trigger] u[k].timezone),
    ensures
        unrequested(u, zones) == u,
    decreases u.len(),
{
    if u.len() > 0 {
        let init = u.drop_last();
        assert forall|k: int| 0 <= k < init.len() implies !zones.contains(#[trigger] init[k].timezone) by {
            assert(init[k] == u[k]);
        }
        lemma_unrequested_keeps_unrequested(init, zones);
        assert(!zones.contains(u[u.len() - 1].timezone));
        assert(init.push(u.last()) =~= u);
    }
}

proof fn lemma_reordered_contains(clocks: Seq<ClockView>, zones: Seq<Seq<char>>)
    requires
        zones_distinct(clocks),
    ensures
        forall|x: ClockView| #[trigger] reordered(clocks, zones).contains(x) <==> clocks.contains(x),
{
    let p = picked(clocks, zones);
    let u = unrequested(clocks, zones);
    let r = reordered(clocks, zones);
    lemma_picked_elems(clocks, zones);
    lemma_unrequested_elems(clocks, zones);
    assert forall|x: ClockView| r.contains(x) <==> clocks.contains(x) by {
        if r.contains(x) {
            let k = choose|k: int| 0 <= k < r.len() && r[k] == x;
            if k < p.len() {
                assert(p[k] == x);
            } else {
                assert(u[k - p.len()] == x);
                assert(u.contains(x));
            }
        }
        if clocks.contains(x) {
            let k = choose|k: int| 0 <= k < clocks.len() && clocks[k] == x;
            if zones.contains(x.timezone) {
                let m = choose|m: int| 0 <= m < zones.len() && zones[m] == x.timezone;
                lemma_first_from_at(clocks, k, 0);
                assert(first_from(clocks, zones[m], 0) == Some(x));
                assert(p.contains(x));
                let q = choose|q: int| 0 <= q < p.len() && p[q] == x;
                assert(r[q] == x);
            } else {
                assert(u.contains(x));
                let q = choose|q: int| 0 <= q < u.len() && u[q] == x;
                assert(r[p.len() + q] == x);
            }
        }
    }
}

/// Reordering twice with the same request gives the same list as reordering once
/// (for a list whose zones are distinct), whatever the request.
pub proof fn law_reorder_idempotent(clocks: Seq<ClockView>, zones: Seq<Seq<char>>)
    requires
        zones_distinct(clocks),
    ensures
        reordered(reordered(clocks, zones), zones) == reordered(clocks, zones),
{
    let p = picked(clocks, zones);
    let u = unrequested(clocks, zones);
    let r = reordered(clocks, zones);
    lemma_reordered_contains(clocks, zones);
    lemma_picked_elems(clocks, zones);
    lemma_unrequested_elems(clocks, zones);
    assert forall|t: Seq<char>| #[trigger] first_from(r, t, 0) == first_from(clocks, t, 0) by {
        if has_zone(clocks, t) {
            let k = choose|k: int| 0 <= k < clocks.len() && clocks[k].timezone == t;
            let x = clocks[k];
            assert forall|j: int| 0 <= j < clocks.len() && (#[trigger] clocks[j]).timezone == t implies clocks[j] == x by {
                if j != k {
                    assert(clocks[j].timezone != clocks[k].timezone);
                }
            }
            assert forall|j: int| 0 <= j < r.len() && (#[trigger] r[j]).timezone == t implies r[j] == x by {
                assert(r.contains(r[j]));
                assert(clocks.contains(r[j]));
                let q = choose|q: int| 0 <= q < clocks.len() && clocks[q] == r[j];
                if q != k {
                    assert(clocks[q].timezone != clocks[k].timezone);
                }
            }
            lemma_first_from_unique(clocks, t, x);
            lemma_first_from_unique(r, t, x);
            assert(clocks.contains(x));
            assert(r.contains(x));
            let q = choose|q: int| 0 <= q < r.len() && r[q] == x;
            assert(r[q].timezone == t);
        } else {
            lemma_first_from_none(clocks, t, 0);
            lemma_first_from_none(r, t, 0);
            assert forall|j: int| 0 <= j < r.len() implies (#[trigger] r[j]).timezone != t by {
                assert(r.contains(r[j]));
                assert(clocks.contains(r[j]));
                let q = choose|q: int| 0 <= q < clocks.len() && clocks[q] == r[j];
                assert(clocks[q].timezone != t);
            }
        }
    }
    lemma_picked_congruent(r, clocks, zones);
    lemma_unrequested_append(p, u, zones);
    assert forall|k: int| 0 <= k < p.len() implies zones.contains(#[trigger] p[k].timezone) by {}
    lemma_unrequested_elems(p, zones);
    assert(unrequested(p, zones) =~= Seq::<ClockView>::empty());
    assert forall|k: int| 0 <= k < u.len() implies !zones.contains(#[trigger] u[k].timezone) by {
        assert(u.contains(u[k]));
    }
    lemma_unrequested_keeps_unrequested(u, zones);
    assert(unrequested(r, zones) =~= u);
}

} // verus!
