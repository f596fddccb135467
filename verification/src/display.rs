//! The texts the widget shows for the current conditions, the details and
//! the forecasts.

use vstd::prelude::*;
use crate::models::{CurrentWeather, DailyForecast, HourlyForecast, WeatherData, WeatherDetails};
use crate::numbers::{rounded_whole, whole_spec};
use crate::doubles::{count_text, float_text, kmh_count, kmh_text, thousandths_text};
use crate::text::{capitalize, capitalize_spec, int_text, law_int_text_injective, push_int, push_str, string_from_chars};

verus! {

/// A temperature in thousandths of a degree, shown as a whole number of
/// degrees: "21°".
pub open spec fn degrees_text(v: int) -> Seq<char> {
    int_text(whole_spec(v)) + "°"@
}

/// Writes a temperature as the widget shows it.
pub fn degrees(v: i64) -> (r: String)
    ensures
        r@ == degrees_text(v as int),
{
    let w = rounded_whole(v);
    let mut out: Vec<char> = Vec::new();
    push_int(w as i64, &mut out);
    push_str("°", &mut out);
    assert(out@ =~= degrees_text(v as int));
    string_from_chars(out.as_slice())
}

/// A wind speed in thousandths of a metre per second, in km/h with no
/// decimals ("23 km/h"): the speed's double times 3.6, as `{:.0}` writes it.
pub open spec fn wind_text(speed: int) -> Seq<char> {
    count_text(speed < 0, kmh_count(speed), false) + " km/h"@
}

pub fn wind(speed: i64) -> (r: String)
    ensures
        r@ == wind_text(speed as int),
{
    let s = kmh_text(speed);
    let mut out: Vec<char> = Vec::new();
    push_str(s.as_str(), &mut out);
    push_str(" km/h", &mut out);
    assert(out@ =~= wind_text(speed as int));
    string_from_chars(out.as_slice())
}

/// The texts of the current-conditions panel.
pub struct CurrentTexts {
    pub temp: String,
    pub description: String,
    pub high_low: String,
}

/// "H:{high}° L:{low}°".
pub open spec fn high_low_text(high: int, low: int) -> Seq<char> {
    "H:"@ + degrees_text(high) + " L:"@ + degrees_text(low)
}

/// The current-conditions panel's texts for `weather`.
pub open spec fn current_texts_ok(weather: CurrentWeather, r: CurrentTexts) -> bool {
    &&& r.temp@ == degrees_text(weather.temp as int)
    &&& r.description@ == capitalize_spec(weather.description@)
    &&& r.high_low@ == high_low_text(weather.temp_max as int, weather.temp_min as int)
}

/// The current-conditions panel shows the current temperature rounded to
/// whole degrees, the description with a capital first letter, and the
/// day's high (`temp_max`) before its low (`temp_min`).
pub proof fn law_current_panel(weather: CurrentWeather, r: CurrentTexts)
    requires
        current_texts_ok(weather, r),
    ensures
        r.temp@ == int_text(whole_spec(weather.temp as int)) + "°"@,
        r.description@ == capitalize_spec(weather.description@),
        r.high_low@ == "H:"@ + int_text(whole_spec(weather.temp_max as int)) + "°"@ + " L:"@ + int_text(
            whole_spec(weather.temp_min as int),
        ) + "°"@,
{
    assert(r.high_low@ =~= "H:"@ + int_text(whole_spec(weather.temp_max as int)) + "°"@ + " L:"@ + int_text(
        whole_spec(weather.temp_min as int),
    ) + "°"@);
}

/// The current-conditions panel: the temperature, the description with a
/// capital first letter, and the day's high and low.
pub fn current_texts(weather: &CurrentWeather) -> (r: CurrentTexts)
    ensures
        current_texts_ok(*weather, r),
{
    let temp = degrees(weather.temp);
    let description = capitalize(weather.description.as_str());
    let hi = degrees(weather.temp_max);
    let lo = degrees(weather.temp_min);
    let mut out: Vec<char> = Vec::new();
    push_str("H:", &mut out);
    push_str(hi.as_str(), &mut out);
    push_str(" L:", &mut out);
    push_str(lo.as_str(), &mut out);
    assert(out@ =~= high_low_text(weather.temp_max as int, weather.temp_min as int));
    CurrentTexts { temp, description, high_low: string_from_chars(out.as_slice()) }
}

/// The word for an air-quality index.
pub open spec fn aqi_label_spec(aqi: u32) -> Seq<char> {
    if aqi == 1 {
        "Good"@
    } else if aqi == 2 {
        "Fair"@
    } else if aqi == 3 {
        "Moderate"@
    } else if aqi == 4 {
        "Poor"@
    } else if aqi == 5 {
        "Very Poor"@
    } else {
        "Unknown"@
    }
}

pub fn aqi_label(aqi: u32) -> (r: &'static str)
    ensures
        r@ == aqi_label_spec(aqi),
{
    if aqi == 1 {
        "Good"
    } else if aqi == 2 {
        "Fair"
    } else if aqi == 3 {
        "Moderate"
    } else if aqi == 4 {
        "Poor"
    } else if aqi == 5 {
        "Very Poor"
    } else {
        "Unknown"
    }
}

/// The texts of the details panel.
pub struct DetailsTexts {
    pub wind: String,
    pub humidity: String,
    pub feels_like: String,
    pub visibility: String,
    pub sunrise: String,
    pub sunset: String,
    pub uv: String,
    pub aqi: String,
}

/// Visibility in metres, shown in km with one decimal ("10.0 km"): the
/// double nearest the metres divided by 1000, as `{:.1}` writes it.
pub open spec fn visibility_text(v: Option<u32>) -> Seq<char> {
    match v {
        Some(m) => float_text(m as int, 1000, true) + " km"@,
        None => "--"@,
    }
}

/// The UV index (in thousandths) with one decimal: the double nearest it,
/// as `{:.1}` writes it.
pub open spec fn uv_text(v: Option<i64>) -> Seq<char> {
    match v {
        Some(u) => float_text(u as int, 1000, true),
        None => "--"@,
    }
}

/// The air-quality index and its word: "2 (Fair)".
pub open spec fn aqi_text(v: Option<u32>) -> Seq<char> {
    match v {
        Some(a) => int_text(a as int) + " ("@ + aqi_label_spec(a) + ")"@,
        None => "--"@,
    }
}

/// The details panel's texts for `details`.
pub open spec fn details_texts_ok(details: WeatherDetails, r: DetailsTexts) -> bool {
    &&& r.wind@ == wind_text(details.wind_speed as int)
    &&& r.humidity@ == int_text(details.humidity as int) + "%"@
    &&& r.feels_like@ == degrees_text(details.feels_like as int)
    &&& r.visibility@ == visibility_text(details.visibility)
    &&& r.sunrise@ == details.sunrise@
    &&& r.sunset@ == details.sunset@
    &&& r.uv@ == uv_text(details.uv_index)
    &&& r.aqi@ == aqi_text(details.aqi)
}

/// The details panel shows each reading of the details it is given: the
/// wind in km/h, the humidity with "%", the felt temperature in whole
/// degrees, the sun times as they are, and "--" for a missing visibility,
/// UV index or air quality.
pub proof fn law_details_panel(details: WeatherDetails, r: DetailsTexts)
    requires
        details_texts_ok(details, r),
    ensures
        r.wind@ == count_text(details.wind_speed < 0, kmh_count(details.wind_speed as int), false) + " km/h"@,
        r.humidity@ == int_text(details.humidity as int) + "%"@,
        r.feels_like@ == int_text(whole_spec(details.feels_like as int)) + "°"@,
        r.sunrise@ == details.sunrise@ && r.sunset@ == details.sunset@,
        details.visibility matches Some(m) ==> r.visibility@ == float_text(m as int, 1000, true) + " km"@,
        details.visibility is None ==> r.visibility@ == "--"@,
        details.uv_index matches Some(u) ==> r.uv@ == float_text(u as int, 1000, true),
        details.uv_index is None ==> r.uv@ == "--"@,
        details.aqi is None ==> r.aqi@ == "--"@,
{
}

/// The details panel: wind in km/h, humidity in percent, the felt
/// temperature, visibility in km, the sun times, the UV index and the air
/// quality, each "--" when it is missing.
pub fn details_texts(details: &WeatherDetails) -> (r: DetailsTexts)
    ensures
        details_texts_ok(*details, r),
{
    let w = wind(details.wind_speed);
    let mut hum: Vec<char> = Vec::new();
    push_int(details.humidity as i64, &mut hum);
    push_str("%", &mut hum);
    assert(hum@ =~= int_text(details.humidity as int) + "%"@);
    let feels = degrees(details.feels_like);
    let visibility = match details.visibility {
        Some(m) => {
            let s = thousandths_text(m as i64, true);
            let mut out: Vec<char> = Vec::new();
            push_str(s.as_str(), &mut out);
            push_str(" km", &mut out);
            assert(out@ =~= visibility_text(details.visibility));
            string_from_chars(out.as_slice())
        },
        None => String::from_str("--"),
    };
    let uv = match details.uv_index {
        Some(u) => thousandths_text(u, true),
        None => String::from_str("--"),
    };
    let aqi = match details.aqi {
        Some(a) => {
            let mut out: Vec<char> = Vec::new();
            push_int(a as i64, &mut out);
            push_str(" (", &mut out);
            push_str(aqi_label(a), &mut out);
            push_str(")", &mut out);
            assert(out@ =~= aqi_text(details.aqi));
            string_from_chars(out.as_slice())
        },
        None => String::from_str("--"),
    };
    DetailsTexts {
        wind: w,
        humidity: string_from_chars(hum.as_slice()),
        feels_like: feels,
        visibility,
        sunrise: details.sunrise.clone(),
        sunset: details.sunset.clone(),
        uv,
        aqi,
    }
}

/// One column of the hourly forecast.
pub struct HourlyRow {
    pub time: String,
    pub temp: String,
    pub icon: String,
}

/// The hourly columns for `forecast`.
pub open spec fn hourly_rows_ok(forecast: Seq<HourlyForecast>, r: Seq<HourlyRow>) -> bool {
    &&& r.len() == forecast.len()
    &&& forall|i: int|
        0 <= i < r.len() ==> {
            &&& (#[trigger] r[i]).time@ == (if i == 0 {
                "Now"@
            } else {
                forecast[i].time@
            })
            &&& r[i].temp@ == degrees_text(forecast[i].temp as int)
            &&& r[i].icon@ == forecast[i].icon@
        }
}

/// The hourly columns: the first is labelled "Now", the others with their
/// hour; each shows its temperature and keeps its icon code (the icon to
/// load for the column at the same index).
pub fn hourly_rows(forecast: &Vec<HourlyForecast>) -> (r: Vec<HourlyRow>)
    ensures
        hourly_rows_ok(forecast@, r@),
{
    let mut r: Vec<HourlyRow> = Vec::new();
    let mut i: usize = 0;
    while i < forecast.len()
        invariant
            i <= forecast@.len(),
            r@.len() == i,
            forall|j: int|
                0 <= j < i ==> {
                    &&& (#[trigger] r@[j]).time@ == (if j == 0 {
                        "Now"@
                    } else {
                        forecast@[j].time@
                    })
                    &&& r@[j].temp@ == degrees_text(forecast@[j].temp as int)
                    &&& r@[j].icon@ == forecast@[j].icon@
                },
        decreases forecast@.len() - i,
    {
        let item = &forecast[i];
        let time = if i == 0 {
            String::from_str("Now")
        } else {
            item.time.clone()
        };
        r.push(HourlyRow { time, temp: degrees(item.temp), icon: item.icon.clone() });
        i = i + 1;
    }
    r
}

/// Each hourly column belongs to the forecast entry at its index: the first
/// is labelled "Now" and every other one with its entry's hour, each shows
/// its entry's temperature rounded to whole degrees followed by "°", and
/// keeps its entry's icon; so entries with different temperatures or labels
/// get columns that differ in them.
pub proof fn law_hourly_columns_follow_entries(forecast: Seq<HourlyForecast>, r: Seq<HourlyRow>)
    requires
        hourly_rows_ok(forecast, r),
    ensures
        r.len() == forecast.len(),
        forall|i: int|
            0 <= i < r.len() ==> {
                &&& (#[trigger] r[i]).temp@ == int_text(whole_spec(forecast[i].temp as int)) + "°"@
                &&& r[i].icon@ == forecast[i].icon@
                &&& (i == 0 ==> r[i].time@ == "Now"@)
                &&& (i > 0 ==> r[i].time@ == forecast[i].time@)
            },
        forall|i: int, j: int|
            0 <= i < r.len() && 0 <= j < r.len() && whole_spec(forecast[i].temp as int) != whole_spec(
                forecast[j].temp as int,
            ) ==> #[trigger] r[i].temp@ != #[trigger] r[j].temp@,
{
    assert forall|i: int, j: int|
        0 <= i < r.len() && 0 <= j < r.len() && whole_spec(forecast[i].temp as int) != whole_spec(
            forecast[j].temp as int,
        ) implies #[trigger] r[i].temp@ != #[trigger] r[j].temp@ by {
        let a = int_text(whole_spec(forecast[i].temp as int));
        let b = int_text(whole_spec(forecast[j].temp as int));
        law_int_text_injective(whole_spec(forecast[i].temp as int), whole_spec(forecast[j].temp as int));
        if r[i].temp@ == r[j].temp@ {
            assert(a + "°"@ == b + "°"@);
            lemma_drop_common_suffix(a, b, "°"@);
        }
    }
}

/// Two texts with the same suffix are equal when the whole texts are.
proof fn lemma_drop_common_suffix(a: Seq<char>, b: Seq<char>, t: Seq<char>)
    requires
        a + t == b + t,
    ensures
        a == b,
{
    assert((a + t).len() == (b + t).len());
    assert((a + t).len() == a.len() + t.len());
    assert((b + t).len() == b.len() + t.len());
    assert(a.len() == b.len());
    assert forall|i: int| 0 <= i < a.len() implies a[i] == b[i] by {
        assert((a + t)[i] == a[i]);
        assert((b + t)[i] == b[i]);
    }
    assert(a =~= b);
}

/// How full a day's temperature bar is: `numerator / denominator`.
pub struct BarFraction {
    pub numerator: i128,
    pub denominator: i128,
}

/// The lowest of all lows and highs of the first `n` days.
pub open spec fn lowest(days: Seq<DailyForecast>, n: nat) -> int
    decreases n,
{
    if n == 0 {
        0
    } else if n == 1 {
        min(days[0].temp_min as int, days[0].temp_max as int)
    } else {
        min(lowest(days, (n - 1) as nat), min(days[n - 1].temp_min as int, days[n - 1].temp_max as int))
    }
}

/// The highest of all lows and highs of the first `n` days.
pub open spec fn highest(days: Seq<DailyForecast>, n: nat) -> int
    decreases n,
{
    if n == 0 {
        0
    } else if n == 1 {
        max(days[0].temp_min as int, days[0].temp_max as int)
    } else {
        max(highest(days, (n - 1) as nat), max(days[n - 1].temp_min as int, days[n - 1].temp_max as int))
    }
}

pub open spec fn min(a: int, b: int) -> int {
    if a <= b {
        a
    } else {
        b
    }
}

pub open spec fn max(a: int, b: int) -> int {
    if a >= b {
        a
    } else {
        b
    }
}

/// The bar of one day: its span divided by the span of the whole forecast,
/// kept between 1/10 and 1; one half when all temperatures are equal.
pub open spec fn bar_spec(day: DailyForecast, lo: int, hi: int, b: BarFraction) -> bool {
    let range = hi - lo;
    let span = day.temp_max - day.temp_min;
    if range > 0 {
        if 10 * span < range {
            b.numerator == 1 && b.denominator == 10
        } else if span > range {
            b.numerator == 1 && b.denominator == 1
        } else {
            b.numerator == span && b.denominator == range
        }
    } else {
        b.numerator == 1 && b.denominator == 2
    }
}

/// Every bar is at least a tenth and at most full: a positive denominator
/// and a numerator between a tenth of it and all of it.
pub proof fn law_bar_between_tenth_and_full(day: DailyForecast, lo: int, hi: int, b: BarFraction)
    requires
        bar_spec(day, lo, hi, b),
    ensures
        b.denominator > 0,
        b.denominator <= 10 * b.numerator,
        b.numerator <= b.denominator,
{
}

/// One line of the daily forecast.
pub struct DailyRow {
    pub day: String,
    pub low: String,
    pub high: String,
    pub bar: BarFraction,
    pub icon: String,
}

/// The daily lines for `forecast`.
pub open spec fn daily_rows_ok(forecast: Seq<DailyForecast>, r: Seq<DailyRow>) -> bool {
    &&& r.len() == forecast.len()
    &&& forall|i: int|
        0 <= i < r.len() ==> {
            &&& (#[trigger] r[i]).day@ == forecast[i].day@
            &&& r[i].low@ == degrees_text(forecast[i].temp_min as int)
            &&& r[i].high@ == degrees_text(forecast[i].temp_max as int)
            &&& bar_spec(forecast[i], lowest(forecast, forecast.len()), highest(forecast, forecast.len()), r[i].bar)
            &&& r[i].icon@ == forecast[i].icon@
        }
}

/// Each daily line belongs to the forecast day at its index: it carries
/// that day's label and icon, and its low and high rounded to whole degrees
/// followed by "°"; so days with different labels get lines with different
/// labels.
pub proof fn law_daily_lines_follow_days(forecast: Seq<DailyForecast>, r: Seq<DailyRow>)
    requires
        daily_rows_ok(forecast, r),
    ensures
        r.len() == forecast.len(),
        forall|i: int|
            0 <= i < r.len() ==> {
                &&& (#[trigger] r[i]).day@ == forecast[i].day@
                &&& r[i].icon@ == forecast[i].icon@
                &&& r[i].low@ == int_text(whole_spec(forecast[i].temp_min as int)) + "°"@
                &&& r[i].high@ == int_text(whole_spec(forecast[i].temp_max as int)) + "°"@
            },
        forall|i: int, j: int|
            0 <= i < r.len() && 0 <= j < r.len() && forecast[i].day@ != forecast[j].day@ ==> #[trigger] r[i].day@
                != #[trigger] r[j].day@,
{
}

/// The daily lines: each with its day, its low and high, its bar (against
/// the lowest and highest temperature of the whole forecast) and its icon
/// code (the icon to load for the line at the same index).
pub fn daily_rows(forecast: &Vec<DailyForecast>) -> (r: Vec<DailyRow>)
    ensures
        daily_rows_ok(forecast@, r@),
{
    let n = forecast.len();
    let mut lo: i64 = 0;
    let mut hi: i64 = 0;
    let mut i: usize = 0;
    while i < n
        invariant
            n == forecast@.len(),
            i <= n,
            lo == lowest(forecast@, i as nat),
            hi == highest(forecast@, i as nat),
        decreases n - i,
    {
        let d = &forecast[i];
        let dl = if d.temp_min <= d.temp_max {
            d.temp_min
        } else {
            d.temp_max
        };
        let dh = if d.temp_min >= d.temp_max {
            d.temp_min
        } else {
            d.temp_max
        };
        if i == 0 {
            lo = dl;
            hi = dh;
        } else {
            if dl < lo {
                lo = dl;
            }
            if dh > hi {
                hi = dh;
            }
        }
        i = i + 1;
    }
    let range: i128 = (hi as i128) - (lo as i128);
    let mut r: Vec<DailyRow> = Vec::new();
    let mut j: usize = 0;
    while j < n
        invariant
            n == forecast@.len(),
            j <= n,
            lo == lowest(forecast@, n as nat),
            hi == highest(forecast@, n as nat),
            range == hi - lo,
            r@.len() == j,
            forall|k: int|
                0 <= k < j ==> {
                    &&& (#[trigger] r@[k]).day@ == forecast@[k].day@
                    &&& r@[k].low@ == degrees_text(forecast@[k].temp_min as int)
                    &&& r@[k].high@ == degrees_text(forecast@[k].temp_max as int)
                    &&& bar_spec(forecast@[k], lo as int, hi as int, r@[k].bar)
                    &&& r@[k].icon@ == forecast@[k].icon@
                },
        decreases n - j,
    {
        let d = &forecast[j];
        let span: i128 = (d.temp_max as i128) - (d.temp_min as i128);
        let bar = if range > 0 {
            if 10 * span < range {
                BarFraction { numerator: 1, denominator: 10 }
            } else if span > range {
                BarFraction { numerator: 1, denominator: 1 }
            } else {
                BarFraction { numerator: span, denominator: range }
            }
        } else {
            BarFraction { numerator: 1, denominator: 2 }
        };
        r.push(DailyRow {
            day: d.day.clone(),
            low: degrees(d.temp_min),
            high: degrees(d.temp_max),
            bar,
            icon: d.icon.clone(),
        });
        j = j + 1;
    }
    r
}

/// Everything the window shows for one weather report.
pub struct WeatherView {
    pub current: CurrentTexts,
    pub details: DetailsTexts,
    pub hourly: Vec<HourlyRow>,
    pub daily: Vec<DailyRow>,
}

/// The window's texts for a report: each panel as its own function gives it.
pub fn weather_view(data: &WeatherData) -> (r: WeatherView)
    ensures
        current_texts_ok(data.current, r.current),
        details_texts_ok(data.details, r.details),
        hourly_rows_ok(data.hourly@, r.hourly@),
        daily_rows_ok(data.daily@, r.daily@),
{
    WeatherView {
        current: current_texts(&data.current),
        details: details_texts(&data.details),
        hourly: hourly_rows(&data.hourly),
        daily: daily_rows(&data.daily),
    }
}

/// The message logged when the weather could not be fetched.
pub fn weather_error_message(error: &str) -> (r: String)
    ensures
        r@ == "Weather fetch error: "@ + error@,
{
    let mut out: Vec<char> = Vec::new();
    push_str("Weather fetch error: ", &mut out);
    push_str(error, &mut out);
    assert(out@ =~= "Weather fetch error: "@ + error@);
    string_from_chars(out.as_slice())
}

} // verus!
