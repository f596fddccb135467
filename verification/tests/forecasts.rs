use wayther::api::{first_aqi, GeocodingClient, WeatherClient};
use wayther::clock::timestamp_supported;
use wayther::daily::{daily_from_parts, process_daily_forecast};
use wayther::models::{
    AirPollutionItem, AirPollutionResponse, AqiData, CurrentWeatherResponse, ForecastItem,
    ForecastResponse, Location, MainData, SysData, WeatherCondition, WindData,
};

fn cond(icon: &str, desc: &str) -> WeatherCondition {
    WeatherCondition { id: 800, main: "Clear".to_string(), description: desc.to_string(), icon: icon.to_string() }
}

fn main_data(temp: i64) -> MainData {
    MainData { temp, feels_like: temp - 1000, temp_min: temp - 2000, temp_max: temp + 2000, humidity: 50 }
}

fn item(dt: i64, temp: i64, icon: Option<&str>, txt: &str) -> ForecastItem {
    ForecastItem {
        dt,
        main: main_data(temp),
        weather: icon.map(|i| vec![cond(i, "x")]).unwrap_or_default(),
        dt_txt: txt.to_string(),
    }
}

fn current(weather: Vec<WeatherCondition>) -> CurrentWeatherResponse {
    CurrentWeatherResponse {
        main: main_data(12_340),
        weather,
        wind: WindData { speed: 3_600, deg: Some(180) },
        visibility: Some(10_000),
        sys: SysData { sunrise: 1_700_000_000, sunset: 1_700_040_000 },
        name: "Oslo".to_string(),
    }
}

fn place() -> Location {
    Location { name: "Oslo".to_string(), country: "NO".to_string(), lat: "59.9133".to_string(), lon: "10.739".to_string() }
}

#[test]
fn request_urls() {
    let c = WeatherClient::new("KEY".to_string());
    let l = place();
    assert_eq!(
        c.current_weather_url(&l),
        "https://api.openweathermap.org/data/2.5/weather?lat=59.9133&lon=10.739&appid=KEY&units=metric"
    );
    assert_eq!(
        c.forecast_url(&l),
        "https://api.openweathermap.org/data/2.5/forecast?lat=59.9133&lon=10.739&appid=KEY&units=metric"
    );
    assert_eq!(
        c.air_pollution_url(&l),
        "https://api.openweathermap.org/data/2.5/air_pollution?lat=59.9133&lon=10.739&appid=KEY"
    );
    assert_eq!(WeatherClient::get_icon_url("10d"), "https://openweathermap.org/img/wn/10d@2x.png");
    let g = GeocodingClient::new("KEY".to_string());
    assert_eq!(
        g.search_url("New York"),
        "http://api.openweathermap.org/geo/1.0/direct?q=New York&limit=5&appid=KEY"
    );
}

#[test]
fn location_display_name() {
    assert_eq!(place().display_name(), "Oslo, NO");
    assert_eq!(place().duplicate().display_name(), "Oslo, NO");
}

#[test]
fn current_weather_takes_the_first_condition() {
    let c = WeatherClient::new(String::new());
    let w = c.extract_current_weather(&current(vec![cond("02n", "few clouds"), cond("10d", "rain")]));
    assert_eq!(w.temp, 12_340);
    assert_eq!(w.temp_min, 10_340);
    assert_eq!(w.temp_max, 14_340);
    assert_eq!(w.humidity, 50);
    assert_eq!(w.description, "few clouds");
    assert_eq!(w.icon, "02n");
}

#[test]
fn current_weather_without_conditions() {
    let c = WeatherClient::new(String::new());
    let w = c.extract_current_weather(&current(vec![]));
    assert_eq!(w.description, "Unknown");
    assert_eq!(w.icon, "01d");
}

#[test]
fn details_keep_readings_and_trim_sun_times() {
    let c = WeatherClient::new(String::new());
    let d = c.details_from_parts(&current(vec![]), Some(2), " 7:04 AM", " 4:35 PM");
    assert_eq!(d.wind_speed, 3_600);
    assert_eq!(d.wind_deg, Some(180));
    assert_eq!(d.humidity, 50);
    assert_eq!(d.feels_like, 11_340);
    assert_eq!(d.visibility, Some(10_000));
    assert_eq!(d.sunrise, "7:04 AM");
    assert_eq!(d.sunset, "4:35 PM");
    assert_eq!(d.uv_index, None);
    assert_eq!(d.aqi, Some(2));
}

#[test]
fn details_with_the_local_clock() {
    let c = WeatherClient::new(String::new());
    let d = c.extract_weather_details(&current(vec![]), None);
    assert!(d.sunrise.ends_with("AM") || d.sunrise.ends_with("PM"));
    assert!(!d.sunrise.starts_with(' '));
    assert_eq!(d.aqi, None);
}

#[test]
fn hourly_covers_the_next_24_hours() {
    let c = WeatherClient::new(String::new());
    let list: Vec<ForecastItem> =
        (0..40).map(|i| item(1_700_000_000 + i * 10_800, i * 100, if i == 3 { None } else { Some("04d") }, "t")).collect();
    let hours: Vec<String> = (0..40).map(|i| format!(" {}PM ", i)).collect();
    let h = c.hourly_from_parts(&list, &hours);
    assert_eq!(h.len(), 8);
    assert_eq!(h[0].time, "0PM");
    assert_eq!(h[5].time, "5PM");
    assert_eq!(h[5].temp, 500);
    assert_eq!(h[3].icon, "01d");
    assert_eq!(h[4].icon, "04d");
    assert_eq!(h[7].temp, 700);
    let f = ForecastResponse { list };
    let h2 = c.process_hourly_forecast(&f);
    assert_eq!(h2.len(), 8);
    assert!(h2.iter().all(|x| x.time.ends_with("AM") || x.time.ends_with("PM")));
    assert!(h2.iter().all(|x| !x.time.starts_with(' ')));
}

#[test]
fn hourly_with_hourly_steps_shows_24_entries() {
    let c = WeatherClient::new(String::new());
    let list: Vec<ForecastItem> = (0..30).map(|i| item(1_700_000_000 + i * 3_600, i, Some("01d"), "t")).collect();
    let hours: Vec<String> = (0..30).map(|i| format!("{}AM", i)).collect();
    assert_eq!(c.hourly_from_parts(&list, &hours).len(), 24);
}

#[test]
fn hourly_stops_at_the_first_entry_a_day_later() {
    let c = WeatherClient::new(String::new());
    let list = vec![
        item(1_000_000, 1, Some("01d"), "t"),
        item(1_086_399, 2, Some("01d"), "t"),
        item(1_086_400, 3, Some("01d"), "t"),
        item(1_000_001, 4, Some("01d"), "t"),
    ];
    let hours: Vec<String> = (0..4).map(|i| format!("{}AM", i)).collect();
    let h = c.hourly_from_parts(&list, &hours);
    assert_eq!(h.len(), 2);
    assert_eq!(h[1].temp, 2);
    assert!(c.hourly_from_parts(&vec![], &vec![]).is_empty());
}

#[test]
fn hourly_with_few_entries() {
    let c = WeatherClient::new(String::new());
    let list = vec![item(1_700_000_000, 1_000, Some("01n"), "t")];
    let h = c.hourly_from_parts(&list, &vec!["9PM".to_string()]);
    assert_eq!(h.len(), 1);
    assert_eq!(h[0].time, "9PM");
}

#[test]
fn daily_groups_by_day_ascending() {
    let list = vec![
        item(1, 5_000, Some("01d"), "2024-01-05 09:00:00"),
        item(2, 9_000, Some("02d"), "2024-01-05 12:00:00"),
        item(3, 1_000, Some("03d"), "2024-01-06 00:00:00"),
        item(4, 7_000, None, "2024-01-06 03:00:00"),
        item(5, -2_000, Some("13d"), "2024-01-04 21:00:00"),
        item(6, 4_000, Some("10d"), "2024-01-06 06:00:00"),
    ];
    let days = vec![5i32, 5, 6, 6, 4, 6];
    let weekdays: Vec<String> = ["Fri", "Fri", "Sat", "Sat", "Thu", "Sat"].iter().map(|s| s.to_string()).collect();
    let d = daily_from_parts(&list, &days, &weekdays);
    assert_eq!(d.len(), 3);
    assert_eq!(d[0].day, "Today");
    assert_eq!(d[0].temp_min, -2_000);
    assert_eq!(d[0].temp_max, -2_000);
    assert_eq!(d[0].icon, "13d");
    assert_eq!(d[1].day, "Fri");
    assert_eq!(d[1].temp_min, 5_000);
    assert_eq!(d[1].temp_max, 9_000);
    assert_eq!(d[1].icon, "02d");
    assert_eq!(d[2].day, "Sat");
    assert_eq!(d[2].temp_min, 1_000);
    assert_eq!(d[2].temp_max, 7_000);
    assert_eq!(d[2].icon, "03d");
}

#[test]
fn daily_first_entry_icon_and_default() {
    let list = vec![item(1, 0, None, "2024-01-05 15:00:00"), item(2, 0, Some("09n"), "2024-01-05 18:00:00")];
    let d = daily_from_parts(&list, &vec![7, 7], &vec!["Mon".to_string(), "Mon".to_string()]);
    assert_eq!(d.len(), 1);
    assert_eq!(d[0].icon, "01d");
}

#[test]
fn daily_shows_at_most_ten_days() {
    let list: Vec<ForecastItem> = (0..12).map(|i| item(i, i * 1000, Some("01d"), "x")).collect();
    let days: Vec<i32> = (0..12).map(|i| 30 - i as i32).collect();
    let weekdays: Vec<String> = (0..12).map(|i| format!("D{}", i)).collect();
    let d = daily_from_parts(&list, &days, &weekdays);
    assert_eq!(d.len(), 10);
    assert_eq!(d[0].day, "Today");
    assert_eq!(d[0].temp_min, 11_000);
    assert_eq!(d[1].day, "D10");
    assert_eq!(d[9].day, "D2");
}

#[test]
fn daily_of_nothing_is_empty() {
    assert!(daily_from_parts(&vec![], &vec![], &vec![]).is_empty());
    assert!(process_daily_forecast(&vec![]).is_empty());
}

#[test]
fn daily_orders_by_date_across_new_year() {
    // 2023-12-31 is day 738885 from the common era, 2024-01-01 day 738886.
    let list = vec![
        item(1_704_020_400, 2_000, Some("01d"), "2023-12-31 11:00:00"),
        item(1_704_031_200, 3_000, Some("02d"), "2023-12-31 14:00:00"),
        item(1_704_106_800, -1_000, Some("13d"), "2024-01-01 11:00:00"),
    ];
    let days = vec![738_885i32, 738_885, 738_886];
    let weekdays: Vec<String> = ["Sun", "Sun", "Mon"].iter().map(|s| s.to_string()).collect();
    let d = daily_from_parts(&list, &days, &weekdays);
    assert_eq!(d.len(), 2);
    assert_eq!(d[0].day, "Today");
    assert_eq!(d[0].temp_min, 2_000);
    assert_eq!(d[0].temp_max, 3_000);
    assert_eq!(d[1].day, "Mon");
    assert_eq!(d[1].temp_min, -1_000);
    assert_eq!(d[1].icon, "13d");
}

#[test]
fn daily_with_the_local_clock() {
    let list: Vec<ForecastItem> =
        (0..40).map(|i| item(1_700_000_000 + i * 10_800, i * 100, Some("01d"), "2023-11-14 12:00:00")).collect();
    let d = process_daily_forecast(&list);
    assert!(d.len() >= 5 && d.len() <= 6);
    assert_eq!(d[0].day, "Today");
    for x in &d[1..] {
        assert!(["Sun", "Mon", "Tue", "Wed", "Thu", "Fri", "Sat"].contains(&x.day.as_str()));
        assert!(x.temp_min <= x.temp_max);
    }
}

#[test]
fn calendar_range() {
    assert!(timestamp_supported(0));
    assert!(timestamp_supported(8_210_266_876_799));
    assert!(!timestamp_supported(8_210_266_876_800));
    assert!(timestamp_supported(-8_334_601_228_800));
    assert!(!timestamp_supported(-8_334_601_228_801));
    let list: Vec<ForecastItem> = (0..16).map(|i| item(1_700_000_000 + i * 10_800, 0, None, "x")).collect();
    let d = process_daily_forecast(&list);
    assert!(d.len() >= 2 && d.len() <= 3);
    assert!(d[1].day == "Wed" || d[1].day == "Thu");
    let ends = vec![item(-8_334_601_228_800, 1, None, "x"), item(8_210_266_876_799, 2, None, "x")];
    let d = process_daily_forecast(&ends);
    assert_eq!(d.len(), 2);
    assert_eq!(d[0].temp_min, 1);
    assert_eq!(d[1].temp_min, 2);
}

#[test]
fn weather_from_responses_reports_first_error() {
    let c = WeatherClient::new(String::new());
    let f = ForecastResponse { list: vec![] };
    let r = c.weather_from_responses(Err("API error: 401".to_string()), Err("other".to_string()), Ok(1));
    assert_eq!(r.err(), Some("API error: 401".to_string()));
    let r = c.weather_from_responses(Ok(current(vec![])), Err("Parse error: x".to_string()), Ok(1));
    assert_eq!(r.err(), Some("Parse error: x".to_string()));
    let r = c.weather_from_responses(Ok(current(vec![cond("10d", "rain")])), Ok(f), Err("No AQI data".to_string()));
    let data = r.unwrap();
    assert_eq!(data.current.icon, "10d");
    assert_eq!(data.details.aqi, None);
    assert!(data.hourly.is_empty());
    assert!(data.daily.is_empty());
}

#[test]
fn air_quality_of_the_first_reading() {
    let r = AirPollutionResponse { list: vec![AirPollutionItem { main: AqiData { aqi: 3 } }, AirPollutionItem { main: AqiData { aqi: 5 } }] };
    assert_eq!(first_aqi(&r), Ok(3));
    assert_eq!(first_aqi(&AirPollutionResponse { list: vec![] }), Err("No AQI data".to_string()));
}

#[test]
fn calendar_range_is_chronos() {
    for ts in [
        0i64,
        -8_334_601_228_800,
        -8_334_601_228_801,
        -8_334_601_315_200,
        8_210_266_876_799,
        8_210_266_876_800,
        i64::MIN,
        i64::MAX,
    ] {
        assert_eq!(timestamp_supported(ts), chrono::DateTime::from_timestamp(ts, 0).is_some(), "{}", ts);
    }
}
