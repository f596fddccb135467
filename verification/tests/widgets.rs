use wayther::display::{aqi_label, current_texts, daily_rows, degrees, details_texts, hourly_rows, weather_error_message, wind};
use wayther::icon_cache::IconCache;
use wayther::models::{CurrentWeather, DailyForecast, HourlyForecast, WeatherDetails};
use wayther::search::{locate_default, search_result_view, search_start, select_result};
use wayther::models::Location;

fn place(name: &str) -> Location {
    Location { name: name.to_string(), country: "US".to_string(), lat: "1".to_string(), lon: "2".to_string() }
}

fn details() -> WeatherDetails {
    WeatherDetails {
        wind_speed: 6_400,
        wind_deg: None,
        humidity: 67,
        feels_like: -7_600,
        visibility: Some(9_500),
        sunrise: "7:04 AM".to_string(),
        sunset: "4:35 PM".to_string(),
        uv_index: None,
        aqi: Some(2),
    }
}

#[test]
fn temperature_and_wind_texts() {
    assert_eq!(degrees(-5_000), "-5°");
    assert_eq!(degrees(21_500), "22°");
    assert_eq!(degrees(-400), "0°");
    assert_eq!(wind(6_400), "23 km/h");
    assert_eq!(wind(0), "0 km/h");
}

#[test]
fn current_panel_texts() {
    let w = CurrentWeather {
        temp: 12_600,
        feels_like: 11_000,
        temp_min: 8_400,
        temp_max: 15_500,
        humidity: 40,
        description: "light rain".to_string(),
        icon: "10d".to_string(),
    };
    let t = current_texts(&w);
    assert_eq!(t.temp, "13°");
    assert_eq!(t.description, "Light rain");
    assert_eq!(t.high_low, "H:16° L:8°");
}

#[test]
fn details_panel_texts() {
    let t = details_texts(&details());
    assert_eq!(t.wind, "23 km/h");
    assert_eq!(t.humidity, "67%");
    assert_eq!(t.feels_like, "-8°");
    assert_eq!(t.visibility, "9.5 km");
    assert_eq!(t.sunrise, "7:04 AM");
    assert_eq!(t.sunset, "4:35 PM");
    assert_eq!(t.uv, "--");
    assert_eq!(t.aqi, "2 (Fair)");
    let mut d = details();
    d.visibility = None;
    d.aqi = None;
    d.uv_index = Some(3_250);
    let t = details_texts(&d);
    assert_eq!(t.visibility, "--");
    assert_eq!(t.aqi, "--");
    assert_eq!(t.uv, "3.2");
    d.visibility = Some(1_150);
    d.uv_index = Some(1_050);
    let t = details_texts(&d);
    assert_eq!(t.visibility, "1.1 km");
    assert_eq!(t.uv, "1.1");
}

#[test]
fn air_quality_words() {
    assert_eq!(aqi_label(1), "Good");
    assert_eq!(aqi_label(2), "Fair");
    assert_eq!(aqi_label(3), "Moderate");
    assert_eq!(aqi_label(4), "Poor");
    assert_eq!(aqi_label(5), "Very Poor");
    assert_eq!(aqi_label(0), "Unknown");
    assert_eq!(aqi_label(6), "Unknown");
}

#[test]
fn hourly_columns() {
    let f = vec![
        HourlyForecast { time: "3PM".to_string(), temp: 4_500, icon: "01d".to_string() },
        HourlyForecast { time: "6PM".to_string(), temp: 2_000, icon: "02n".to_string() },
    ];
    let r = hourly_rows(&f);
    assert_eq!(r.len(), 2);
    assert_eq!(r[0].time, "Now");
    assert_eq!(r[0].temp, "5°");
    assert_eq!(r[1].time, "6PM");
    assert_eq!(r[1].icon, "02n");
}

#[test]
fn daily_lines_and_bars() {
    let day = |d: &str, lo: i64, hi: i64| DailyForecast { day: d.to_string(), temp_min: lo, temp_max: hi, icon: "01d".to_string() };
    let f = vec![day("Today", 0, 10_000), day("Tue", 5_000, 5_500), day("Wed", -10_000, 0)];
    let r = daily_rows(&f);
    assert_eq!(r.len(), 3);
    assert_eq!(r[0].low, "0°");
    assert_eq!(r[0].high, "10°");
    assert_eq!((r[0].bar.numerator, r[0].bar.denominator), (10_000, 20_000));
    assert_eq!((r[1].bar.numerator, r[1].bar.denominator), (1, 10));
    assert_eq!((r[2].bar.numerator, r[2].bar.denominator), (10_000, 20_000));
    let flat = daily_rows(&vec![day("Today", 3_000, 3_000)]);
    assert_eq!((flat[0].bar.numerator, flat[0].bar.denominator), (1, 2));
}

#[test]
fn error_message() {
    assert_eq!(weather_error_message("timeout"), "Weather fetch error: timeout");
}

#[test]
fn search_start_needs_text() {
    let s = search_start("");
    assert!(!s.search);
    assert_eq!(s.status, "Enter a city name to search");
    let s = search_start("Paris");
    assert!(s.search);
    assert_eq!(s.status, "Searching...");
}

#[test]
fn search_answers() {
    let v = search_result_view(Ok(vec![]));
    assert_eq!(v.status, "No results found");
    assert!(v.rows.is_empty());
    assert!(v.results.is_none());
    let v = search_result_view(Ok(vec![place("Paris"), place("Paris, TX")]));
    assert_eq!(v.status, "Found 2 result(s)");
    assert_eq!(v.rows, vec!["Paris, US".to_string(), "Paris, TX, US".to_string()]);
    assert_eq!(v.results.unwrap().len(), 2);
    let v = search_result_view(Err("Request failed: dns".to_string()));
    assert_eq!(v.status, "Error: Request failed: dns");
}

#[test]
fn selecting_a_row() {
    let list = vec![place("A"), place("B")];
    assert_eq!(select_result(&list, 1).unwrap().name, "B");
    assert!(select_result(&list, 2).is_none());
}

#[test]
fn default_location() {
    assert_eq!(locate_default("Oslo", Ok(vec![place("Oslo"), place("X")])).unwrap().name, "Oslo");
    assert_eq!(locate_default("Nowhere", Ok(vec![])).err(), Some("No location found for: Nowhere".to_string()));
    assert_eq!(
        locate_default("Oslo", Err("API error".to_string())).err(),
        Some("Failed to geocode default location: API error".to_string())
    );
}

#[test]
fn icon_cache_lookup_after_store() {
    let mut c = IconCache::new();
    assert_eq!(c.lookup("01d"), None);
    c.store("01d".to_string(), vec![1, 2, 3]);
    c.store("02n".to_string(), vec![9]);
    assert_eq!(c.lookup("01d"), Some(vec![1, 2, 3]));
    c.store("01d".to_string(), vec![4]);
    assert_eq!(c.lookup("01d"), Some(vec![4]));
    assert_eq!(c.lookup("02n"), Some(vec![9]));
    assert_eq!(c.lookup("03d"), None);
}
