//! The OpenWeatherMap requests and the processing of their answers. The
//! requests themselves are made by the caller; this module builds their URLs
//! and turns the decoded answers into what the widget shows.

use vstd::prelude::*;
use crate::clock::{is_local_clock_text, local_time_text, timestamp_supported, timestamp_supported_spec};
use crate::daily::{daily_for_some_clock, first_icon, first_icon_of, forecast_times_supported_spec, process_daily_forecast};
use crate::models::{AirPollutionResponse, CurrentWeather, CurrentWeatherResponse, DailyForecast, ForecastItem, ForecastResponse, HourlyForecast, Location, WeatherData, WeatherDetails};
use crate::text::{push_str, string_from_chars, trim, trim_spec};

verus! {

/// Builds a string from literal and given parts.
fn join(parts: &Vec<&str>) -> (r: String)
    ensures
        r@ == parts@.fold_left(Seq::<char>::empty(), |acc: Seq<char>, p: &str| acc + p@),
{
    let mut v: Vec<char> = Vec::new();
    let mut i: usize = 0;
    while i < parts.len()
        invariant
            i <= parts@.len(),
            v@ == parts@.take(i as int).fold_left(Seq::<char>::empty(), |acc: Seq<char>, p: &str| acc + p@),
        decreases parts@.len() - i,
    {
        push_str(parts[i], &mut v);
        proof {
            let t = parts@.take(i as int + 1);
            assert(t.drop_last() =~= parts@.take(i as int));
        }
        i = i + 1;
    }
    assert(parts@.take(parts@.len() as int) =~= parts@);
    string_from_chars(v.as_slice())
}

/// Requests to the geocoding service.
pub struct GeocodingClient {
    pub api_key: String,
}

impl GeocodingClient {
    pub fn new(api_key: String) -> (r: Self)
        ensures
            r.api_key == api_key,
    {
        GeocodingClient { api_key }
    }

    /// The search URL: the query is put in as it is, up to five results.
    pub open spec fn search_url_spec(&self, query: Seq<char>) -> Seq<char> {
        "http://api.openweathermap.org/geo/1.0/direct?q="@ + query + "&limit=5&appid="@ + self.api_key@
    }

    /// The URL that `search_city` requests.
    pub fn search_url(&self, query: &str) -> (r: String)
        ensures
            r@ == self.search_url_spec(query@),
    {
        let mut v: Vec<char> = Vec::new();
        push_str("http://api.openweathermap.org/geo/1.0/direct?q=", &mut v);
        push_str(query, &mut v);
        push_str("&limit=5&appid=", &mut v);
        push_str(self.api_key.as_str(), &mut v);
        assert(v@ =~= self.search_url_spec(query@));
        string_from_chars(v.as_slice())
    }
}

/// Requests to the weather service.
pub struct WeatherClient {
    pub api_key: String,
}

/// "https://api.openweathermap.org/data/2.5/" + endpoint + "?lat=..&lon=..&appid=.." + tail.
pub open spec fn data_url(endpoint: Seq<char>, loc: Location, key: Seq<char>, tail: Seq<char>) -> Seq<char> {
    "https://api.openweathermap.org/data/2.5/"@ + endpoint + "?lat="@ + loc.lat@ + "&lon="@ + loc.lon@
        + "&appid="@ + key + tail
}

/// The URL of an icon image.
pub open spec fn icon_url_spec(icon_code: Seq<char>) -> Seq<char> {
    "https://openweathermap.org/img/wn/"@ + icon_code + "@2x.png"@
}

/// The current conditions taken from a current-weather report; when the
/// report has no condition, the description is "Unknown" and the icon "01d".
pub open spec fn current_spec(data: CurrentWeatherResponse, r: CurrentWeather) -> bool {
    &&& r.temp == data.main.temp
    &&& r.feels_like == data.main.feels_like
    &&& r.temp_min == data.main.temp_min
    &&& r.temp_max == data.main.temp_max
    &&& r.humidity == data.main.humidity
    &&& r.description@ == (if data.weather@.len() > 0 {
        data.weather@[0].description@
    } else {
        "Unknown"@
    })
    &&& r.icon@ == first_icon(data.weather@)
}

/// The details taken from a current-weather report and an air-quality index,
/// with the sun times written by the clock as `sunrise` and `sunset` (white
/// space trimmed). There is no UV index.
pub open spec fn details_spec(
    data: CurrentWeatherResponse,
    aqi: Option<u32>,
    sunrise: Seq<char>,
    sunset: Seq<char>,
    r: WeatherDetails,
) -> bool {
    &&& r.wind_speed == data.wind.speed
    &&& r.wind_deg == data.wind.deg
    &&& r.humidity == data.main.humidity
    &&& r.feels_like == data.main.feels_like
    &&& r.visibility == data.visibility
    &&& r.sunrise@ == trim_spec(sunrise)
    &&& r.sunset@ == trim_spec(sunset)
    &&& r.uv_index is None
    &&& r.aqi == aqi
}

/// The index where the run of entries from `i` on whose times are before
/// `limit` ends.
pub open spec fn run_end(list: Seq<ForecastItem>, limit: int, i: int) -> int
    decreases list.len() - i,
{
    if 0 <= i < list.len() && (list[i].dt as int) < limit {
        run_end(list, limit, i + 1)
    } else {
        i
    }
}

/// Whether entry `i` lies less than 24 hours after the first entry.
pub open spec fn within_first_day(list: Seq<ForecastItem>, i: int) -> bool {
    (list[i].dt as int) < (list[0].dt as int) + 86400
}

/// How many entries the hourly forecast shows: the leading entries that lie
/// within 24 hours of the first one.
pub open spec fn hourly_count(list: Seq<ForecastItem>) -> int {
    if list.len() == 0 {
        0
    } else {
        run_end(list, (list[0].dt as int) + 86400, 0)
    }
}

/// The hourly forecast: the entries of the next 24 hours, each with its hour
/// as the clock wrote it in `hours` (trimmed), its temperature and the icon
/// of its first condition ("01d" without one).
pub open spec fn hourly_spec(list: Seq<ForecastItem>, hours: Seq<String>, r: Seq<HourlyForecast>) -> bool {
    &&& r.len() == hourly_count(list)
    &&& forall|i: int|
        0 <= i < r.len() ==> {
            &&& (#[trigger] r[i]).time@ == trim_spec(hours[i]@)
            &&& r[i].temp == list[i].main.temp
            &&& r[i].icon@ == first_icon(list[i].weather@)
        }
}

proof fn lemma_run_end(list: Seq<ForecastItem>, limit: int, i: int)
    requires
        0 <= i <= list.len(),
    ensures
        i <= run_end(list, limit, i) <= list.len(),
        forall|j: int| i <= j < run_end(list, limit, i) ==> (#[trigger] list[j].dt as int) < limit,
        run_end(list, limit, i) < list.len() ==> (list[run_end(list, limit, i)].dt as int) >= limit,
    decreases list.len() - i,
{
    if i < list.len() && (list[i].dt as int) < limit {
        lemma_run_end(list, limit, i + 1);
    }
}

/// The hourly forecast shows exactly the leading entries that lie within 24
/// hours of the first: every shown entry does, and the entry after the last
/// shown one, if there is one, does not. A non-empty forecast shows at least
/// its first entry.
pub proof fn law_hourly_covers_one_day(list: Seq<ForecastItem>)
    ensures
        0 <= hourly_count(list) <= list.len(),
        forall|i: int| 0 <= i < hourly_count(list) ==> within_first_day(list, i),
        hourly_count(list) < list.len() ==> !within_first_day(list, hourly_count(list)),
        list.len() > 0 ==> hourly_count(list) >= 1,
{
    if list.len() > 0 {
        lemma_run_end(list, (list[0].dt as int) + 86400, 0);
    }
}

/// The entries that the hourly forecast writes times of lie in the
/// calendar's range.
pub open spec fn hourly_times_supported_spec(list: Seq<ForecastItem>) -> bool {
    forall|i: int| 0 <= i < hourly_count(list) ==> timestamp_supported_spec(#[trigger] list[i].dt as int)
}

/// How many entries the hourly forecast shows.
fn hourly_len(list: &Vec<ForecastItem>) -> (n: usize)
    ensures
        n == hourly_count(list@),
{
    if list.len() == 0 {
        return 0;
    }
    let limit: i128 = (list[0].dt as i128) + 86400;
    let ghost lim: int = (list@[0].dt as int) + 86400;
    let mut i: usize = 0;
    while i < list.len() && (list[i].dt as i128) < limit
        invariant
            i <= list@.len(),
            limit == lim,
            list@.len() > 0,
            lim == (list@[0].dt as int) + 86400,
            run_end(list@, lim, 0) == run_end(list@, lim, i as int),
        decreases list@.len() - i,
    {
        i = i + 1;
    }
    i
}

/// The current conditions are those of the report itself: its temperature,
/// felt temperature, low, high and humidity, the description of its first
/// condition ("Unknown" without one) and that condition's icon ("01d"
/// without one).
pub proof fn law_current_is_the_report(data: CurrentWeatherResponse, r: CurrentWeather)
    requires
        current_spec(data, r),
    ensures
        r.temp == data.main.temp && r.feels_like == data.main.feels_like,
        r.temp_min == data.main.temp_min && r.temp_max == data.main.temp_max,
        r.humidity == data.main.humidity,
        data.weather@.len() > 0 ==> r.description@ == data.weather@[0].description@ && r.icon@
            == data.weather@[0].icon@,
        data.weather@.len() == 0 ==> r.description@ == "Unknown"@ && r.icon@ == "01d"@,
{
}

/// Each hourly entry belongs to the forecast entry at its index: its
/// temperature and icon are that entry's, and its time is the hour text
/// written for that entry without surrounding white space.
pub proof fn law_hourly_entries_follow_list(list: Seq<ForecastItem>, hours: Seq<String>, r: Seq<HourlyForecast>)
    requires
        hourly_spec(list, hours, r),
    ensures
        forall|i: int|
            0 <= i < r.len() ==> {
                &&& (#[trigger] r[i]).temp == list[i].main.temp
                &&& r[i].time@ == trim_spec(hours[i]@)
                &&& (list[i].weather@.len() > 0 ==> r[i].icon@ == list[i].weather@[0].icon@)
                &&& (list[i].weather@.len() == 0 ==> r[i].icon@ == "01d"@)
            },
{
}

/// The details are the report's own readings (wind, humidity, felt
/// temperature, visibility) with the given air-quality index, the sun
/// times trimmed, and no UV index.
pub proof fn law_details_are_the_report(
    data: CurrentWeatherResponse,
    aqi: Option<u32>,
    sunrise: Seq<char>,
    sunset: Seq<char>,
    r: WeatherDetails,
)
    requires
        details_spec(data, aqi, sunrise, sunset, r),
    ensures
        r.wind_speed == data.wind.speed && r.wind_deg == data.wind.deg,
        r.humidity == data.main.humidity && r.feels_like == data.main.feels_like,
        r.visibility == data.visibility,
        r.sunrise@ == trim_spec(sunrise) && r.sunset@ == trim_spec(sunset),
        r.aqi == aqi && r.uv_index is None,
{
}

/// The times of a current-weather report lie in the calendar's range.
pub open spec fn current_times_supported_spec(data: CurrentWeatherResponse) -> bool {
    timestamp_supported_spec(data.sys.sunrise as int) && timestamp_supported_spec(data.sys.sunset as int)
}

/// Whether sunrise and sunset lie in the calendar's range.
pub fn current_times_supported(data: &CurrentWeatherResponse) -> (r: bool)
    ensures
        r == current_times_supported_spec(*data),
{
    timestamp_supported(data.sys.sunrise) && timestamp_supported(data.sys.sunset)
}

/// Whether every forecast entry's time lies in the calendar's range.
pub fn forecast_times_supported(forecast: &ForecastResponse) -> (r: bool)
    ensures
        r == forecast_times_supported_spec(forecast.list@),
{
    let n = forecast.list.len();
    let mut i: usize = 0;
    while i < n
        invariant
            n == forecast.list@.len(),
            i <= n,
            forall|j: int| 0 <= j < i ==> timestamp_supported_spec(#[trigger] forecast.list@[j].dt as int),
        decreases n - i,
    {
        if !timestamp_supported(forecast.list[i].dt) {
            return false;
        }
        i = i + 1;
    }
    true
}

/// The weather data built from the two reports and the air-quality index,
/// for some texts that the clock wrote: the current conditions and the
/// details are as `current_spec` and `details_spec` say, the hourly and the
/// daily forecast as `hourly_spec` and `daily_spec` say.
pub open spec fn weather_spec(
    current: CurrentWeatherResponse,
    forecast: ForecastResponse,
    aqi: Option<u32>,
    r: WeatherData,
) -> bool {
    &&& current_spec(current, r.current)
    &&& details_for_some_clock(current, aqi, r.details)
    &&& hourly_for_some_clock(forecast.list@, r.hourly@)
    &&& daily_for_some_clock(forecast.list@, r.daily@)
}

/// `r` holds the details of `data` with the sun times that a clock writes
/// for `data.sys.sunrise` and `data.sys.sunset`.
pub open spec fn details_for_some_clock(data: CurrentWeatherResponse, aqi: Option<u32>, r: WeatherDetails) -> bool {
    exists|sunrise: Seq<char>, sunset: Seq<char>|
        {
            &&& is_local_clock_text(sunrise, data.sys.sunrise as int, "%l:%M %p"@)
            &&& is_local_clock_text(sunset, data.sys.sunset as int, "%l:%M %p"@)
            &&& #[trigger] details_spec(data, aqi, sunrise, sunset, r)
        }
}

/// `r` is the hourly forecast of `list` with the hour texts that a clock
/// writes for its entries' times.
pub open spec fn hourly_for_some_clock(list: Seq<ForecastItem>, r: Seq<HourlyForecast>) -> bool {
    exists|hours: Seq<String>|
        {
            &&& hours.len() == hourly_count(list)
            &&& forall|i: int|
                0 <= i < hours.len() ==> is_local_clock_text(
                    #[trigger] hours[i]@,
                    list[i].dt as int,
                    "%l%p"@,
                )
            &&& #[trigger] hourly_spec(list, hours, r)
        }
}

/// The value of an `Ok`, or `None`.
pub open spec fn opt_ok(r: Result<u32, String>) -> Option<u32> {
    match r {
        Ok(v) => Some(v),
        Err(_) => None,
    }
}

/// What `get_weather` answers, given the three answers it waited for: the
/// first error of the current report, then of the forecast; otherwise the
/// weather data, with the air-quality index if that request succeeded.
pub open spec fn weather_result_spec(
    current: Result<CurrentWeatherResponse, String>,
    forecast: Result<ForecastResponse, String>,
    aqi: Result<u32, String>,
    r: Result<WeatherData, String>,
) -> bool {
    match current {
        Err(e) => r == Err::<WeatherData, String>(e),
        Ok(c) => match forecast {
            Err(e) => r == Err::<WeatherData, String>(e),
            Ok(f) => match r {
                Ok(d) => weather_spec(c, f, opt_ok(aqi), d),
                Err(_) => false,
            },
        },
    }
}

impl WeatherClient {
    pub fn new(api_key: String) -> (r: Self)
        ensures
            r.api_key == api_key,
    {
        WeatherClient { api_key }
    }

    /// The URL of the current-weather request (metric units).
    pub fn current_weather_url(&self, location: &Location) -> (r: String)
        ensures
            r@ == data_url("weather"@, *location, self.api_key@, "&units=metric"@),
    {
        let parts = vec![
            "https://api.openweathermap.org/data/2.5/",
            "weather",
            "?lat=",
            location.lat.as_str(),
            "&lon=",
            location.lon.as_str(),
            "&appid=",
            self.api_key.as_str(),
            "&units=metric",
        ];
        let r = join(&parts);
        proof {
            reveal_with_fuel(Seq::fold_left, 10);
            assert(r@ =~= data_url("weather"@, *location, self.api_key@, "&units=metric"@));
        }
        r
    }

    /// The URL of the forecast request (metric units).
    pub fn forecast_url(&self, location: &Location) -> (r: String)
        ensures
            r@ == data_url("forecast"@, *location, self.api_key@, "&units=metric"@),
    {
        let parts = vec![
            "https://api.openweathermap.org/data/2.5/",
            "forecast",
            "?lat=",
            location.lat.as_str(),
            "&lon=",
            location.lon.as_str(),
            "&appid=",
            self.api_key.as_str(),
            "&units=metric",
        ];
        let r = join(&parts);
        proof {
            reveal_with_fuel(Seq::fold_left, 10);
            assert(r@ =~= data_url("forecast"@, *location, self.api_key@, "&units=metric"@));
        }
        r
    }

    /// The URL of the air-pollution request.
    pub fn air_pollution_url(&self, location: &Location) -> (r: String)
        ensures
            r@ == data_url("air_pollution"@, *location, self.api_key@, ""@),
    {
        let parts = vec![
            "https://api.openweathermap.org/data/2.5/",
            "air_pollution",
            "?lat=",
            location.lat.as_str(),
            "&lon=",
            location.lon.as_str(),
            "&appid=",
            self.api_key.as_str(),
            "",
        ];
        let r = join(&parts);
        proof {
            reveal_with_fuel(Seq::fold_left, 10);
            assert(r@ =~= data_url("air_pollution"@, *location, self.api_key@, ""@));
        }
        r
    }

    /// The URL of an icon image.
    pub fn get_icon_url(icon_code: &str) -> (r: String)
        ensures
            r@ == icon_url_spec(icon_code@),
    {
        let mut v: Vec<char> = Vec::new();
        push_str("https://openweathermap.org/img/wn/", &mut v);
        push_str(icon_code, &mut v);
        push_str("@2x.png", &mut v);
        assert(v@ =~= icon_url_spec(icon_code@));
        string_from_chars(v.as_slice())
    }

    /// The current conditions of a current-weather report.
    pub fn extract_current_weather(&self, data: &CurrentWeatherResponse) -> (r: CurrentWeather)
        ensures
            current_spec(*data, r),
    {
        let description = if data.weather.len() > 0 {
            data.weather[0].description.clone()
        } else {
            String::from_str("Unknown")
        };
        CurrentWeather {
            temp: data.main.temp,
            feels_like: data.main.feels_like,
            temp_min: data.main.temp_min,
            temp_max: data.main.temp_max,
            humidity: data.main.humidity,
            description,
            icon: first_icon_of(&data.weather),
        }
    }

    /// The details, given the sun times as the clock wrote them.
    pub fn details_from_parts(
        &self,
        data: &CurrentWeatherResponse,
        aqi: Option<u32>,
        sunrise: &str,
        sunset: &str,
    ) -> (r: WeatherDetails)
        ensures
            details_spec(*data, aqi, sunrise@, sunset@, r),
    {
        WeatherDetails {
            wind_speed: data.wind.speed,
            wind_deg: data.wind.deg,
            humidity: data.main.humidity,
            feels_like: data.main.feels_like,
            visibility: data.visibility,
            sunrise: trim(sunrise),
            sunset: trim(sunset),
            uv_index: None,
            aqi,
        }
    }

    /// The details of a current-weather report, with sunrise and sunset in
    /// the machine's local time ("7:04 AM").
    pub fn extract_weather_details(&self, data: &CurrentWeatherResponse, aqi: Option<u32>) -> (r: WeatherDetails)
        requires
            current_times_supported_spec(*data),
        ensures
            details_for_some_clock(*data, aqi, r),
    {
        proof {
            reveal_strlit("%l%p");
            reveal_strlit("%l:%M %p");
        }
        let sunrise = local_time_text(data.sys.sunrise, "%l:%M %p");
        let sunset = local_time_text(data.sys.sunset, "%l:%M %p");
        let r = self.details_from_parts(data, aqi, sunrise.as_str(), sunset.as_str());
        assert(details_spec(*data, aqi, sunrise@, sunset@, r));
        r
    }

    /// The hourly forecast, given the hours of its entries as the clock wrote
    /// them.
    pub fn hourly_from_parts(&self, list: &Vec<ForecastItem>, hours: &Vec<String>) -> (r: Vec<HourlyForecast>)
        requires
            hours@.len() >= hourly_count(list@),
        ensures
            hourly_spec(list@, hours@, r@),
    {
        let n = hourly_len(list);
        proof {
            law_hourly_covers_one_day(list@);
        }
        let mut r: Vec<HourlyForecast> = Vec::new();
        let mut i: usize = 0;
        while i < n
            invariant
                n <= list@.len(),
                n <= hours@.len(),
                n == hourly_count(list@),
                i <= n,
                r@.len() == i,
                forall|j: int|
                    0 <= j < i ==> {
                        &&& (#[trigger] r@[j]).time@ == trim_spec(hours@[j]@)
                        &&& r@[j].temp == list@[j].main.temp
                        &&& r@[j].icon@ == first_icon(list@[j].weather@)
                    },
            decreases n - i,
        {
            let item = &list[i];
            let h = HourlyForecast {
                time: trim(hours[i].as_str()),
                temp: item.main.temp,
                icon: first_icon_of(&item.weather),
            };
            r.push(h);
            i = i + 1;
        }
        r
    }

    /// The hourly forecast of the next 24 hours, with each hour in the
    /// machine's local time ("3PM").
    pub fn process_hourly_forecast(&self, forecast: &ForecastResponse) -> (r: Vec<HourlyForecast>)
        requires
            hourly_times_supported_spec(forecast.list@),
        ensures
            hourly_for_some_clock(forecast.list@, r@),
    {
        let n = hourly_len(&forecast.list);
        proof {
            law_hourly_covers_one_day(forecast.list@);
        }
        let mut hours: Vec<String> = Vec::new();
        let mut i: usize = 0;
        while i < n
            invariant
                n == hourly_count(forecast.list@),
                n <= forecast.list@.len(),
                hourly_times_supported_spec(forecast.list@),
                i <= n,
                hours@.len() == i,
                forall|j: int|
                    0 <= j < i ==> is_local_clock_text(
                        #[trigger] hours@[j]@,
                        forecast.list@[j].dt as int,
                        "%l%p"@,
                    ),
            decreases n - i,
        {
            assert(timestamp_supported_spec(forecast.list@[i as int].dt as int));
            proof {
                reveal_strlit("%l%p");
                reveal_strlit("%l:%M %p");
            }
            hours.push(local_time_text(forecast.list[i].dt, "%l%p"));
            i = i + 1;
        }
        let r = self.hourly_from_parts(&forecast.list, &hours);
        assert(hourly_spec(forecast.list@, hours@, r@));
        r
    }

    /// The daily forecast in the machine's local time.
    pub fn process_daily_forecast(&self, forecast: &ForecastResponse) -> (r: Vec<DailyForecast>)
        requires
            forecast_times_supported_spec(forecast.list@),
        ensures
            daily_for_some_clock(forecast.list@, r@),
    {
        process_daily_forecast(&forecast.list)
    }

    /// The weather data, given the answers of the three requests that
    /// `get_weather` makes at once.
    pub fn weather_from_responses(
        &self,
        current: Result<CurrentWeatherResponse, String>,
        forecast: Result<ForecastResponse, String>,
        aqi: Result<u32, String>,
    ) -> (r: Result<WeatherData, String>)
        requires
            current matches Ok(c) ==> (forecast matches Ok(f) ==> current_times_supported_spec(c)
                && forecast_times_supported_spec(f.list@)),
        ensures
            weather_result_spec(current, forecast, aqi, r),
    {
        let c = match current {
            Ok(c) => c,
            Err(e) => return Err(e),
        };
        let f = match forecast {
            Ok(f) => f,
            Err(e) => return Err(e),
        };
        let a = match aqi {
            Ok(a) => Some(a),
            Err(_) => None,
        };
        let cur = self.extract_current_weather(&c);
        let details = self.extract_weather_details(&c, a);
        proof {
            law_hourly_covers_one_day(f.list@);
        }
        let hourly = self.process_hourly_forecast(&f);
        let daily = self.process_daily_forecast(&f);
        let data = WeatherData { current: cur, details, hourly, daily };
        assert(weather_spec(c, f, a, data));
        Ok(data)
    }
}

/// The air-quality index of the first reading of an air-pollution report.
pub fn first_aqi(data: &AirPollutionResponse) -> (r: Result<u32, String>)
    ensures
        data.list@.len() > 0 ==> r == Ok::<u32, String>(data.list@[0].main.aqi),
        data.list@.len() == 0 ==> (r matches Err(e) && e@ == "No AQI data"@),
{
    if data.list.len() > 0 {
        Ok(data.list[0].main.aqi)
    } else {
        Err(String::from_str("No AQI data"))
    }
}

} // verus!
