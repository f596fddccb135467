//! The ten-day forecast: the forecast entries grouped by local calendar
//! date, in date order. Dates are keyed by their day number from the common
//! era, so that at the turn of a year the days still come in the order they
//! occur (a key by day of the year alone would put 1 January before
//! 31 December and label it "Today").

use vstd::prelude::*;
use crate::clock::{is_local_date, local_date, timestamp_supported_spec, weekday_text};
use crate::models::{DailyForecast, ForecastItem, WeatherCondition};
use crate::text::{contains, contains_spec};

verus! {

/// The icon of the first condition, or "01d" when there is none.
pub open spec fn first_icon(conds: Seq<WeatherCondition>) -> Seq<char> {
    if conds.len() > 0 {
        conds[0].icon@
    } else {
        "01d"@
    }
}

/// The icon code of the first condition of a list, or "01d".
pub fn first_icon_of(conds: &Vec<WeatherCondition>) -> (r: String)
    ensures
        r@ == first_icon(conds@),
{
    if conds.len() > 0 {
        conds[0].icon.clone()
    } else {
        String::from_str("01d")
    }
}

/// The smallest day number in `days` above `lo`.
pub open spec fn min_day_above(days: Seq<i32>, lo: int) -> Option<i32>
    decreases days.len(),
{
    if days.len() == 0 {
        None
    } else {
        let rest = min_day_above(days.drop_last(), lo);
        let d = days.last();
        if d > lo {
            match rest {
                Some(m) => if d < m {
                    Some(d)
                } else {
                    Some(m)
                },
                None => Some(d),
            }
        } else {
            rest
        }
    }
}

/// Up to `count` distinct day numbers of `days` above `lo`, ascending.
pub open spec fn day_keys(days: Seq<i32>, lo: int, count: nat) -> Seq<i32>
    decreases count,
{
    if count == 0 {
        Seq::empty()
    } else {
        match min_day_above(days, lo) {
            None => Seq::empty(),
            Some(m) => seq![m] + day_keys(days, m as int, (count - 1) as nat),
        }
    }
}

/// A bound below every day number.
pub open spec fn before_all_days() -> int {
    -2147483649
}

/// The days the forecast shows: the first ten distinct day numbers, ascending.
pub open spec fn daily_keys(days: Seq<i32>) -> Seq<i32> {
    day_keys(days, before_all_days(), 10)
}

/// The lowest temperature among the first `n` entries that fall on `key`.
pub open spec fn day_min(list: Seq<ForecastItem>, days: Seq<i32>, key: i32, n: nat) -> Option<i64>
    decreases n,
{
    if n == 0 {
        None
    } else {
        let rest = day_min(list, days, key, (n - 1) as nat);
        let t = list[n - 1].main.temp;
        if days[n - 1] == key {
            match rest {
                Some(m) => if t < m {
                    Some(t)
                } else {
                    Some(m)
                },
                None => Some(t),
            }
        } else {
            rest
        }
    }
}

/// The highest temperature among the first `n` entries that fall on `key`.
pub open spec fn day_max(list: Seq<ForecastItem>, days: Seq<i32>, key: i32, n: nat) -> Option<i64>
    decreases n,
{
    if n == 0 {
        None
    } else {
        let rest = day_max(list, days, key, (n - 1) as nat);
        let t = list[n - 1].main.temp;
        if days[n - 1] == key {
            match rest {
                Some(m) => if t > m {
                    Some(t)
                } else {
                    Some(m)
                },
                None => Some(t),
            }
        } else {
            rest
        }
    }
}

/// The first of the first `n` entries that falls on `key`.
pub open spec fn first_of_day(days: Seq<i32>, key: i32, n: nat) -> Option<int>
    decreases n,
{
    if n == 0 {
        None
    } else {
        match first_of_day(days, key, (n - 1) as nat) {
            Some(i) => Some(i),
            None => if days[n - 1] == key {
                Some(n - 1)
            } else {
                None
            },
        }
    }
}

/// The first of the first `n` entries on `key` whose time text holds "12:00".
pub open spec fn first_noon_of_day(list: Seq<ForecastItem>, days: Seq<i32>, key: i32, n: nat) -> Option<int>
    decreases n,
{
    if n == 0 {
        None
    } else {
        match first_noon_of_day(list, days, key, (n - 1) as nat) {
            Some(i) => Some(i),
            None => if days[n - 1] == key && contains_spec(list[n - 1].dt_txt@, "12:00"@) {
                Some(n - 1)
            } else {
                None
            },
        }
    }
}

/// The entry whose icon stands for a day: its noon entry if it has one,
/// else its first entry.
pub open spec fn icon_entry(list: Seq<ForecastItem>, days: Seq<i32>, key: i32) -> int {
    match first_noon_of_day(list, days, key, list.len()) {
        Some(i) => i,
        None => first_of_day(days, key, list.len())->0,
    }
}

/// The `k`-th shown day is what `entry` holds: its label ("Today" first,
/// then the weekday of the day's first entry), its lowest and highest
/// temperature, and the icon of its noon (or first) entry.
pub open spec fn daily_entry_ok(
    list: Seq<ForecastItem>,
    days: Seq<i32>,
    weekdays: Seq<String>,
    key: i32,
    k: int,
    entry: DailyForecast,
) -> bool {
    &&& entry.day@ == (if k == 0 {
        "Today"@
    } else {
        weekdays[first_of_day(days, key, list.len())->0]@
    })
    &&& day_min(list, days, key, list.len()) == Some(entry.temp_min)
    &&& day_max(list, days, key, list.len()) == Some(entry.temp_max)
    &&& entry.icon@ == first_icon(list[icon_entry(list, days, key)].weather@)
}

/// The daily forecast for entries that fall on the local days `days`, with
/// the local weekday names `weekdays`.
pub open spec fn daily_spec(
    list: Seq<ForecastItem>,
    days: Seq<i32>,
    weekdays: Seq<String>,
    r: Seq<DailyForecast>,
) -> bool {
    let keys = daily_keys(days);
    &&& r.len() == keys.len()
    &&& forall|k: int| 0 <= k < r.len() ==> daily_entry_ok(list, days, weekdays, keys[k], k, #[trigger] r[k])
}

proof fn lemma_min_day_above(days: Seq<i32>, lo: int)
    ensures
        match min_day_above(days, lo) {
            Some(m) => {
                &&& m > lo
                &&& days.contains(m)
                &&& forall|i: int| 0 <= i < days.len() && days[i] > lo ==> m <= days[i]
            },
            None => forall|i: int| 0 <= i < days.len() ==> days[i] <= lo,
        },
    decreases days.len(),
{
    if days.len() > 0 {
        let init = days.drop_last();
        lemma_min_day_above(init, lo);
        assert forall|i: int| 0 <= i < init.len() implies init[i] == days[i] by {}
        match min_day_above(init, lo) {
            Some(m) => {
                let j = choose|j: int| 0 <= j < init.len() && init[j] == m;
                assert(days[j] == m);
            },
            None => {},
        }
        assert(days[days.len() - 1] == days.last());
    }
}

proof fn lemma_first_of_day(days: Seq<i32>, key: i32, n: nat)
    requires
        n <= days.len(),
    ensures
        match first_of_day(days, key, n) {
            Some(i) => 0 <= i < n && days[i] == key && forall|j: int| 0 <= j < i ==> days[j] != key,
            None => forall|j: int| 0 <= j < n ==> days[j] != key,
        },
    decreases n,
{
    if n > 0 {
        lemma_first_of_day(days, key, (n - 1) as nat);
    }
}

proof fn lemma_day_min_some(list: Seq<ForecastItem>, days: Seq<i32>, key: i32, n: nat)
    requires
        n <= days.len(),
        n <= list.len(),
    ensures
        day_min(list, days, key, n) is Some <==> first_of_day(days, key, n) is Some,
        day_max(list, days, key, n) is Some <==> first_of_day(days, key, n) is Some,
    decreases n,
{
    if n > 0 {
        lemma_day_min_some(list, days, key, (n - 1) as nat);
    }
}

/// The smallest day number above `lo`.
fn min_above(days: &Vec<i32>, lo: i64) -> (r: Option<i32>)
    ensures
        r == min_day_above(days@, lo as int),
{
    let n = days.len();
    let mut best: Option<i32> = None;
    let mut i: usize = 0;
    while i < n
        invariant
            n == days@.len(),
            i <= n,
            best == min_day_above(days@.take(i as int), lo as int),
        decreases n - i,
    {
        let d = days[i];
        proof {
            let t = days@.take(i as int + 1);
            assert(t.drop_last() =~= days@.take(i as int));
            assert(t.last() == d);
        }
        if (d as i64) > lo {
            best = match best {
                Some(m) => if d < m {
                    Some(d)
                } else {
                    Some(m)
                },
                None => Some(d),
            };
        }
        i = i + 1;
    }
    assert(days@.take(n as int) =~= days@);
    best
}

/// Builds the day that `key` stands for.
fn build_day(
    list: &Vec<ForecastItem>,
    days: &Vec<i32>,
    weekdays: &Vec<String>,
    key: i32,
    k: usize,
) -> (entry: DailyForecast)
    requires
        days@.len() == list@.len(),
        weekdays@.len() == list@.len(),
        days@.contains(key),
    ensures
        daily_entry_ok(list@, days@, weekdays@, key, k as int, entry),
{
    let n = list.len();
    let mut lo_t: i64 = 0;
    let mut hi_t: i64 = 0;
    let mut first: Option<usize> = None;
    let mut noon: Option<usize> = None;
    let mut i: usize = 0;
    while i < n
        invariant
            n == list@.len(),
            n == days@.len(),
            i <= n,
            first == (match first_of_day(days@, key, i as nat) {
                Some(j) => Some(j as usize),
                None => None::<usize>,
            }),
            first_of_day(days@, key, i as nat) is Some ==> {
                &&& day_min(list@, days@, key, i as nat) == Some(lo_t)
                &&& day_max(list@, days@, key, i as nat) == Some(hi_t)
            },
            first_of_day(days@, key, i as nat) is None ==> {
                &&& day_min(list@, days@, key, i as nat) is None
                &&& day_max(list@, days@, key, i as nat) is None
            },
            noon == (match first_noon_of_day(list@, days@, key, i as nat) {
                Some(j) => Some(j as usize),
                None => None::<usize>,
            }),
            first_of_day(days@, key, i as nat) matches Some(j) ==> 0 <= j < i,
            first_noon_of_day(list@, days@, key, i as nat) matches Some(j) ==> 0 <= j < i,
        decreases n - i,
    {
        if days[i] == key {
            let t = list[i].main.temp;
            match first {
                None => {
                    lo_t = t;
                    hi_t = t;
                    first = Some(i);
                },
                Some(_) => {
                    if t < lo_t {
                        lo_t = t;
                    }
                    if t > hi_t {
                        hi_t = t;
                    }
                },
            }
            if noon.is_none() {
                if contains(list[i].dt_txt.as_str(), "12:00") {
                    noon = Some(i);
                }
            }
        }
        i = i + 1;
    }
    proof {
        lemma_first_of_day(days@, key, n as nat);
    }
    let fi = match first {
        Some(f) => f,
        None => 0,
    };
    let day = if k == 0 {
        String::from_str("Today")
    } else {
        weekdays[fi].clone()
    };
    let ii = match noon {
        Some(j) => j,
        None => fi,
    };
    let icon = first_icon_of(&list[ii].weather);
    DailyForecast { day, temp_min: lo_t, temp_max: hi_t, icon }
}

/// The daily forecast, given the local day number and the local weekday name
/// of each entry: one line per distinct day, ascending, at most ten; each
/// with the lowest and highest temperature of the day's entries, the icon of
/// its noon entry (or of its first entry if it has none at noon), and the
/// label "Today" for the first line and the weekday of the day's first entry
/// for the others.
pub fn daily_from_parts(list: &Vec<ForecastItem>, days: &Vec<i32>, weekdays: &Vec<String>) -> (r: Vec<DailyForecast>)
    requires
        days@.len() == list@.len(),
        weekdays@.len() == list@.len(),
    ensures
        daily_spec(list@, days@, weekdays@, r@),
{
    let mut r: Vec<DailyForecast> = Vec::new();
    let mut lo: i64 = -2147483649;
    let mut k: usize = 0;
    let ghost mut keys: Seq<i32> = Seq::empty();
    while k < 10
        invariant
            days@.len() == list@.len(),
            weekdays@.len() == list@.len(),
            k <= 10,
            r@.len() == k,
            keys.len() == k,
            before_all_days() <= lo,
            daily_keys(days@) == keys + day_keys(days@, lo as int, (10 - k) as nat),
            forall|q: int| 0 <= q < k ==> daily_entry_ok(list@, days@, weekdays@, keys[q], q, #[trigger] r@[q]),
        ensures
            daily_keys(days@) == keys,
            r@.len() == keys.len(),
            forall|q: int| 0 <= q < r@.len() ==> daily_entry_ok(list@, days@, weekdays@, keys[q], q, #[trigger] r@[q]),
        decreases 10 - k,
    {
        let m = min_above(days, lo);
        match m {
            None => {
                assert(day_keys(days@, lo as int, (10 - k) as nat) =~= Seq::<i32>::empty());
                assert(keys + Seq::<i32>::empty() =~= keys);
                break;
            },
            Some(key) => {
                proof {
                    lemma_min_day_above(days@, lo as int);
                }
                let entry = build_day(list, days, weekdays, key, k);
                r.push(entry);
                proof {
                    let rest = day_keys(days@, key as int, (10 - k - 1) as nat);
                    assert(day_keys(days@, lo as int, (10 - k) as nat) == seq![key] + rest);
                    assert(keys + (seq![key] + rest) =~= keys.push(key) + rest);
                    keys = keys.push(key);
                }
                lo = key as i64;
                k = k + 1;
            },
        }
    }
    r
}

proof fn lemma_day_keys(days: Seq<i32>, lo: int, c: nat)
    ensures
        day_keys(days, lo, c).len() <= c,
        forall|i: int|
            0 <= i < day_keys(days, lo, c).len() ==> #[trigger] day_keys(days, lo, c)[i] > lo
                && days.contains(day_keys(days, lo, c)[i]),
        forall|i: int, j: int|
            0 <= i < j < day_keys(days, lo, c).len() ==> #[trigger] day_keys(days, lo, c)[i]
                < #[trigger] day_keys(days, lo, c)[j],
        day_keys(days, lo, c).len() < c ==> forall|t: int|
            0 <= t < days.len() && days[t] > lo ==> day_keys(days, lo, c).contains(#[trigger] days[t]),
    decreases c,
{
    if c > 0 {
        lemma_min_day_above(days, lo);
        match min_day_above(days, lo) {
            None => {},
            Some(m) => {
                let rest = day_keys(days, m as int, (c - 1) as nat);
                lemma_day_keys(days, m as int, (c - 1) as nat);
                let ks = day_keys(days, lo, c);
                assert(ks == seq![m] + rest);
                assert forall|i: int| 0 <= i < ks.len() implies #[trigger] ks[i] > lo && days.contains(ks[i]) by {
                    if i > 0 {
                        assert(ks[i] == rest[i - 1]);
                    }
                }
                assert forall|i: int, j: int| 0 <= i < j < ks.len() implies #[trigger] ks[i] < #[trigger] ks[j] by {
                    assert(ks[j] == rest[j - 1]);
                    if i > 0 {
                        assert(ks[i] == rest[i - 1]);
                    }
                }
                if ks.len() < c {
                    assert forall|t: int| 0 <= t < days.len() && days[t] > lo implies ks.contains(#[trigger] days[t]) by {
                        if days[t] == m {
                            assert(ks[0] == m);
                        } else {
                            assert(days[t] > m);
                            assert(rest.contains(days[t]));
                            let q = choose|q: int| 0 <= q < rest.len() && rest[q] == days[t];
                            assert(ks[q + 1] == rest[q]);
                        }
                    }
                }
            },
        }
    }
}

/// The days of the daily forecast: at most ten, in ascending order with no
/// day twice, each a day of some entry; and when there are fewer than ten,
/// every day of the entries is among them.
pub proof fn law_daily_days_ascending(days: Seq<i32>)
    ensures
        daily_keys(days).len() <= 10,
        forall|i: int| 0 <= i < daily_keys(days).len() ==> days.contains(#[trigger] daily_keys(days)[i]),
        forall|i: int, j: int|
            0 <= i < j < daily_keys(days).len() ==> #[trigger] daily_keys(days)[i] < #[trigger] daily_keys(days)[j],
        daily_keys(days).len() < 10 ==> forall|t: int|
            0 <= t < days.len() ==> daily_keys(days).contains(#[trigger] days[t]),
{
    lemma_day_keys(days, before_all_days(), 10);
}

proof fn lemma_day_min_le_max(list: Seq<ForecastItem>, days: Seq<i32>, key: i32, n: nat)
    requires
        n <= days.len(),
        n <= list.len(),
    ensures
        day_min(list, days, key, n) matches Some(a) ==> (day_max(list, days, key, n) matches Some(b) && a <= b),
    decreases n,
{
    if n > 0 {
        lemma_day_min_le_max(list, days, key, (n - 1) as nat);
        lemma_day_min_some(list, days, key, (n - 1) as nat);
    }
}

/// Every daily forecast has at most ten days, shows each day's low no higher
/// than its high, and, when there is any forecast entry, starts with "Today".
pub proof fn law_daily_forecast_shape(
    list: Seq<ForecastItem>,
    days: Seq<i32>,
    weekdays: Seq<String>,
    r: Seq<DailyForecast>,
)
    requires
        days.len() == list.len(),
        daily_spec(list, days, weekdays, r),
    ensures
        r.len() <= 10,
        forall|k: int| 0 <= k < r.len() ==> (#[trigger] r[k]).temp_min <= r[k].temp_max,
        list.len() > 0 ==> r.len() > 0 && r[0].day@ == "Today"@,
{
    lemma_day_keys(days, before_all_days(), 10);
    let keys = daily_keys(days);
    assert forall|k: int| 0 <= k < r.len() implies (#[trigger] r[k]).temp_min <= r[k].temp_max by {
        assert(daily_entry_ok(list, days, weekdays, keys[k], k, r[k]));
        lemma_day_min_le_max(list, days, keys[k], list.len());
    }
    if list.len() > 0 {
        lemma_min_day_above(days, before_all_days());
        assert(days[0] > before_all_days());
        assert(daily_entry_ok(list, days, weekdays, keys[0], 0, r[0]));
    }
}

/// When each entry's local date and weekday come from the clock, every day
/// after the first is labelled with the weekday of the date it shows.
pub proof fn law_daily_labels_name_their_dates(
    list: Seq<ForecastItem>,
    days: Seq<i32>,
    weekdays: Seq<String>,
    r: Seq<DailyForecast>,
)
    requires
        days.len() == list.len(),
        weekdays.len() == list.len(),
        forall|i: int|
            0 <= i < days.len() ==> is_local_date(#[trigger] days[i] as int, weekdays[i]@, list[i].dt as int),
        daily_spec(list, days, weekdays, r),
    ensures
        forall|k: int| 0 < k < r.len() ==> (#[trigger] r[k]).day@ == weekday_text(daily_keys(days)[k] as int),
{
    lemma_day_keys(days, before_all_days(), 10);
    let keys = daily_keys(days);
    assert forall|k: int| 0 < k < r.len() implies (#[trigger] r[k]).day@ == weekday_text(keys[k] as int) by {
        assert(daily_entry_ok(list, days, weekdays, keys[k], k, r[k]));
        lemma_first_of_day(days, keys[k], list.len());
        assert(days.contains(keys[k]));
        let t = choose|t: int| 0 <= t < days.len() && days[t] == keys[k];
        let i = first_of_day(days, keys[k], list.len())->0;
        assert(is_local_date(days[i] as int, weekdays[i]@, list[i].dt as int));
    }
}

proof fn lemma_first_noon_of_day(list: Seq<ForecastItem>, days: Seq<i32>, key: i32, n: nat)
    requires
        n <= days.len(),
        n <= list.len(),
    ensures
        match first_noon_of_day(list, days, key, n) {
            Some(i) => {
                &&& 0 <= i < n
                &&& days[i] == key
                &&& contains_spec(list[i].dt_txt@, "12:00"@)
                &&& forall|j: int|
                    0 <= j < i && days[j] == key ==> !contains_spec(list[j].dt_txt@, "12:00"@)
            },
            None => forall|j: int| 0 <= j < n && days[j] == key ==> !contains_spec(list[j].dt_txt@, "12:00"@),
        },
    decreases n,
{
    if n > 0 {
        lemma_first_noon_of_day(list, days, key, (n - 1) as nat);
    }
}

proof fn lemma_day_min_low(list: Seq<ForecastItem>, days: Seq<i32>, key: i32, n: nat)
    requires
        n <= days.len(),
        n <= list.len(),
    ensures
        day_min(list, days, key, n) matches Some(m) ==> {
            &&& forall|i: int| 0 <= i < n && days[i] == key ==> m <= #[trigger] list[i].main.temp
            &&& exists|i: int| 0 <= i < n && days[i] == key && #[trigger] list[i].main.temp == m
        },
    decreases n,
{
    if n > 0 {
        let n1 = (n - 1) as nat;
        lemma_day_min_low(list, days, key, n1);
        lemma_day_min_some(list, days, key, n1);
        lemma_first_of_day(days, key, n1);
        let t = list[n - 1].main.temp;
        if days[n - 1] == key {
            match day_min(list, days, key, n1) {
                Some(m0) => {
                    let w = choose|i: int| 0 <= i < n1 && days[i] == key && #[trigger] list[i].main.temp == m0;
                    if t < m0 {
                        assert(list[n - 1].main.temp == t);
                    } else {
                        assert(list[w].main.temp == m0);
                    }
                },
                None => {
                    assert(list[n - 1].main.temp == t);
                },
            }
        }
    }
}

proof fn lemma_day_max_high(list: Seq<ForecastItem>, days: Seq<i32>, key: i32, n: nat)
    requires
        n <= days.len(),
        n <= list.len(),
    ensures
        day_max(list, days, key, n) matches Some(m) ==> {
            &&& forall|i: int| 0 <= i < n && days[i] == key ==> #[trigger] list[i].main.temp <= m
            &&& exists|i: int| 0 <= i < n && days[i] == key && #[trigger] list[i].main.temp == m
        },
    decreases n,
{
    if n > 0 {
        let n1 = (n - 1) as nat;
        lemma_day_max_high(list, days, key, n1);
        lemma_day_min_some(list, days, key, n1);
        lemma_first_of_day(days, key, n1);
        let t = list[n - 1].main.temp;
        if days[n - 1] == key {
            match day_max(list, days, key, n1) {
                Some(m0) => {
                    let w = choose|i: int| 0 <= i < n1 && days[i] == key && #[trigger] list[i].main.temp == m0;
                    if t > m0 {
                        assert(list[n - 1].main.temp == t);
                    } else {
                        assert(list[w].main.temp == m0);
                    }
                },
                None => {
                    assert(list[n - 1].main.temp == t);
                },
            }
        }
    }
}

/// Each day's low and high are temperatures of entries of that day.
pub proof fn law_daily_low_high_occur(
    list: Seq<ForecastItem>,
    days: Seq<i32>,
    weekdays: Seq<String>,
    r: Seq<DailyForecast>,
    k: int,
)
    requires
        days.len() == list.len(),
        weekdays.len() == list.len(),
        daily_spec(list, days, weekdays, r),
        0 <= k < r.len(),
    ensures
        exists|i: int|
            0 <= i < list.len() && days[i] == daily_keys(days)[k] && #[trigger] list[i].main.temp == r[k].temp_min,
        exists|i: int|
            0 <= i < list.len() && days[i] == daily_keys(days)[k] && #[trigger] list[i].main.temp == r[k].temp_max,
{
    let key = daily_keys(days)[k];
    let n = list.len();
    assert(daily_entry_ok(list, days, weekdays, key, k, r[k]));
    lemma_day_min_low(list, days, key, n);
    lemma_day_max_high(list, days, key, n);
}

/// The icon of an entry: that of its first condition, or "01d".
pub open spec fn entry_icon(item: ForecastItem) -> Seq<char> {
    if item.weather@.len() > 0 {
        item.weather@[0].icon@
    } else {
        "01d"@
    }
}

/// What each day of the daily forecast holds of its entries (the entries
/// whose local date is that day): its low and high are the lowest and the
/// highest temperature among them; its icon is that of its first entry
/// whose time text contains "12:00" (an entry with "12" elsewhere in its
/// text, as in its date, is not that entry), or of its first entry when
/// none contains "12:00"; after the first day, which is "Today", its label
/// is the weekday name of its first entry.
pub proof fn law_daily_day_summary(
    list: Seq<ForecastItem>,
    days: Seq<i32>,
    weekdays: Seq<String>,
    r: Seq<DailyForecast>,
)
    requires
        days.len() == list.len(),
        weekdays.len() == list.len(),
        daily_spec(list, days, weekdays, r),
    ensures
        forall|k: int, i: int|
            #![trigger r[k], days[i]]
            0 <= k < r.len() && 0 <= i < list.len() && days[i] == daily_keys(days)[k] ==> r[k].temp_min
                <= list[i].main.temp <= r[k].temp_max,
        forall|k: int, i: int|
            #![trigger r[k], days[i]]
            0 <= k < r.len() && 0 <= i < list.len() && days[i] == daily_keys(days)[k] && contains_spec(
                list[i].dt_txt@,
                "12:00"@,
            ) && (forall|j: int|
                0 <= j < i && days[j] == days[i] ==> !contains_spec(list[j].dt_txt@, "12:00"@))
                ==> r[k].icon@ == entry_icon(list[i]),
        forall|k: int, i: int|
            #![trigger r[k], days[i]]
            0 <= k < r.len() && 0 <= i < list.len() && days[i] == daily_keys(days)[k] && (forall|j: int|
                0 <= j < i ==> days[j] != days[i]) && (forall|j: int|
                0 <= j < list.len() && days[j] == days[i] ==> !contains_spec(list[j].dt_txt@, "12:00"@))
                ==> r[k].icon@ == entry_icon(list[i]),
        forall|k: int, i: int|
            #![trigger r[k], days[i]]
            0 < k < r.len() && 0 <= i < list.len() && days[i] == daily_keys(days)[k] && (forall|j: int|
                0 <= j < i ==> days[j] != days[i]) ==> r[k].day@ == weekdays[i]@,
        r.len() > 0 ==> r[0].day@ == "Today"@,
{
    let keys = daily_keys(days);
    let n = list.len();
    lemma_day_keys(days, before_all_days(), 10);
    assert forall|k: int, i: int|
        #![trigger r[k], days[i]]
        0 <= k < r.len() && 0 <= i < list.len() && days[i] == keys[k] implies r[k].temp_min <= list[i].main.temp
            <= r[k].temp_max by {
        lemma_day_min_low(list, days, keys[k], n);
        lemma_day_max_high(list, days, keys[k], n);
    }
    assert forall|k: int, i: int|
        #![trigger r[k], days[i]]
        0 <= k < r.len() && 0 <= i < list.len() && days[i] == keys[k] && contains_spec(list[i].dt_txt@, "12:00"@)
            && (forall|j: int| 0 <= j < i && days[j] == days[i] ==> !contains_spec(list[j].dt_txt@, "12:00"@))
            implies r[k].icon@ == entry_icon(list[i]) by {
        let key = keys[k];
        lemma_first_noon_of_day(list, days, key, n);
        match first_noon_of_day(list, days, key, n) {
            Some(i2) => {
                if i2 < i {
                    assert(!contains_spec(list[i2].dt_txt@, "12:00"@));
                } else if i < i2 {
                    assert(!(days[i] == key && contains_spec(list[i].dt_txt@, "12:00"@)));
                }
            },
            None => {
                assert(!(days[i] == key && contains_spec(list[i].dt_txt@, "12:00"@)));
            },
        }
    }
    assert forall|k: int, i: int|
        #![trigger r[k], days[i]]
        0 <= k < r.len() && 0 <= i < list.len() && days[i] == keys[k] && (forall|j: int|
            0 <= j < i ==> days[j] != days[i]) && (forall|j: int|
            0 <= j < list.len() && days[j] == days[i] ==> !contains_spec(list[j].dt_txt@, "12:00"@))
            implies r[k].icon@ == entry_icon(list[i]) by {
        let key = keys[k];
        lemma_first_noon_of_day(list, days, key, n);
        lemma_first_of_day(days, key, n);
        match first_noon_of_day(list, days, key, n) {
            Some(i2) => {
                assert(days[i2] == days[i]);
            },
            None => {
                match first_of_day(days, key, n) {
                    Some(i3) => {
                        if i3 < i {
                            assert(days[i3] != days[i]);
                        } else if i < i3 {
                            assert(days[i] != key);
                        }
                    },
                    None => {
                        assert(days[i] != key);
                    },
                }
            },
        }
    }
    assert forall|k: int, i: int|
        #![trigger r[k], days[i]]
        0 < k < r.len() && 0 <= i < list.len() && days[i] == keys[k] && (forall|j: int|
            0 <= j < i ==> days[j] != days[i]) implies r[k].day@ == weekdays[i]@ by {
        let key = keys[k];
        lemma_first_of_day(days, key, n);
        match first_of_day(days, key, n) {
            Some(i3) => {
                if i3 < i {
                    assert(days[i3] != days[i]);
                } else if i < i3 {
                    assert(days[i] != key);
                }
            },
            None => {
                assert(days[i] != key);
            },
        }
    }
}

/// Whether every entry's time lies in the calendar's range.
pub open spec fn forecast_times_supported_spec(list: Seq<ForecastItem>) -> bool {
    forall|i: int| 0 <= i < list.len() ==> timestamp_supported_spec(#[trigger] list[i].dt as int)
}

/// `r` is the daily forecast of `list` for the local dates and weekday names
/// that a clock gives for its entries' times.
pub open spec fn daily_for_some_clock(list: Seq<ForecastItem>, r: Seq<DailyForecast>) -> bool {
    exists|days: Seq<i32>, weekdays: Seq<String>|
        {
            &&& days.len() == list.len()
            &&& weekdays.len() == list.len()
            &&& forall|i: int|
                0 <= i < days.len() ==> is_local_date(
                    #[trigger] days[i] as int,
                    weekdays[i]@,
                    list[i].dt as int,
                )
            &&& #[trigger] daily_spec(list, days, weekdays, r)
        }
}

/// The daily forecast for the machine's time zone: each entry's local date
/// and weekday come from the clock, at the entry's own time, and the result
/// is the daily forecast of `daily_from_parts` for those.
pub fn process_daily_forecast(list: &Vec<ForecastItem>) -> (r: Vec<DailyForecast>)
    requires
        forecast_times_supported_spec(list@),
    ensures
        daily_for_some_clock(list@, r@),
{
    let n = list.len();
    let mut days: Vec<i32> = Vec::new();
    let mut weekdays: Vec<String> = Vec::new();
    let mut i: usize = 0;
    while i < n
        invariant
            n == list@.len(),
            forecast_times_supported_spec(list@),
            i <= n,
            days@.len() == i,
            weekdays@.len() == i,
            forall|j: int|
                0 <= j < i ==> is_local_date(#[trigger] days@[j] as int, weekdays@[j]@, list@[j].dt as int),
        decreases n - i,
    {
        let ts = list[i].dt;
        assert(timestamp_supported_spec(list@[i as int].dt as int));
        let (d, w) = local_date(ts);
        days.push(d);
        weekdays.push(w);
        i = i + 1;
    }
    let r = daily_from_parts(list, &days, &weekdays);
    assert(daily_spec(list@, days@, weekdays@, r@));
    r
}

} // verus!
