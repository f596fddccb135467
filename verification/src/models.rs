//! The weather data the widget works on. Measurements that the service sends
//! as decimal numbers are held in thousandths of their unit, as integers:
//! a temperature of 21.5 °C is `21500`, a wind speed of 3.6 m/s is `3600`.

use vstd::prelude::*;
use crate::text::push_str;
use crate::text::string_from_chars;

verus! {

/// A place found by the geocoding service. The coordinates are kept as the
/// decimal text that goes into request URLs.
#[derive(Debug, Clone)]
pub struct Location {
    pub name: String,
    pub country: String,
    pub lat: String,
    pub lon: String,
}

impl Location {
    /// "name, country".
    pub open spec fn display_name_spec(&self) -> Seq<char> {
        self.name@ + ", "@ + self.country@
    }

    /// The name shown for a location: its name, a comma and its country.
    pub fn display_name(&self) -> (r: String)
        ensures
            r@ == self.display_name_spec(),
    {
        let mut v: Vec<char> = Vec::new();
        push_str(self.name.as_str(), &mut v);
        push_str(", ", &mut v);
        push_str(self.country.as_str(), &mut v);
        assert(v@ =~= self.display_name_spec());
        string_from_chars(v.as_slice())
    }

    /// A field-by-field copy.
    pub fn duplicate(&self) -> (r: Location)
        ensures
            r == *self,
    {
        Location {
            name: self.name.clone(),
            country: self.country.clone(),
            lat: self.lat.clone(),
            lon: self.lon.clone(),
        }
    }
}

/// Temperatures (thousandths of a degree Celsius) and relative humidity (%).
#[derive(Debug, Clone)]
pub struct MainData {
    pub temp: i64,
    pub feels_like: i64,
    pub temp_min: i64,
    pub temp_max: i64,
    pub humidity: u32,
}

/// Wind speed in thousandths of a metre per second, direction in degrees.
#[derive(Debug, Clone)]
pub struct WindData {
    pub speed: i64,
    pub deg: Option<u32>,
}

/// Sunrise and sunset as UNIX timestamps.
#[derive(Debug, Clone)]
pub struct SysData {
    pub sunrise: i64,
    pub sunset: i64,
}

/// One weather condition of a report.
#[derive(Debug, Clone)]
pub struct WeatherCondition {
    pub id: u32,
    pub main: String,
    pub description: String,
    pub icon: String,
}

/// The current-weather report.
#[derive(Debug, Clone)]
pub struct CurrentWeatherResponse {
    pub main: MainData,
    pub weather: Vec<WeatherCondition>,
    pub wind: WindData,
    pub visibility: Option<u32>,
    pub sys: SysData,
    pub name: String,
}

/// The air-pollution report.
#[derive(Debug, Clone)]
pub struct AirPollutionResponse {
    pub list: Vec<AirPollutionItem>,
}

#[derive(Debug, Clone)]
pub struct AirPollutionItem {
    pub main: AqiData,
}

/// Air quality index, 1 (good) to 5 (very poor).
#[derive(Debug, Clone)]
pub struct AqiData {
    pub aqi: u32,
}

/// The UV report, in thousandths of an index step.
#[derive(Debug, Clone)]
pub struct UvResponse {
    pub value: i64,
}

/// The forecast report: one entry every three hours.
#[derive(Debug, Clone)]
pub struct ForecastResponse {
    pub list: Vec<ForecastItem>,
}

/// One forecast entry: its UNIX time, its readings, its conditions and its
/// time as text ("2024-01-01 12:00:00").
#[derive(Debug, Clone)]
pub struct ForecastItem {
    pub dt: i64,
    pub main: MainData,
    pub weather: Vec<WeatherCondition>,
    pub dt_txt: String,
}

/// One hour of the hourly forecast.
#[derive(Debug, Clone)]
pub struct HourlyForecast {
    pub time: String,
    pub temp: i64,
    pub icon: String,
}

/// One day of the daily forecast.
#[derive(Debug, Clone)]
pub struct DailyForecast {
    pub day: String,
    pub temp_min: i64,
    pub temp_max: i64,
    pub icon: String,
}

/// Everything the widget shows.
#[derive(Debug, Clone)]
pub struct WeatherData {
    pub current: CurrentWeather,
    pub details: WeatherDetails,
    pub hourly: Vec<HourlyForecast>,
    pub daily: Vec<DailyForecast>,
}

/// The current conditions.
#[derive(Debug, Clone)]
pub struct CurrentWeather {
    pub temp: i64,
    pub feels_like: i64,
    pub temp_min: i64,
    pub temp_max: i64,
    pub humidity: u32,
    pub description: String,
    pub icon: String,
}

/// The details panel: wind, humidity, visibility (metres), sun times, UV and
/// air quality.
#[derive(Debug, Clone)]
pub struct WeatherDetails {
    pub wind_speed: i64,
    pub wind_deg: Option<u32>,
    pub humidity: u32,
    pub feels_like: i64,
    pub visibility: Option<u32>,
    pub sunrise: String,
    pub sunset: String,
    pub uv_index: Option<i64>,
    pub aqi: Option<u32>,
}

} // verus!
