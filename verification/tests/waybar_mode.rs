use wayther::models::{CurrentWeather, Location, WeatherData, WeatherDetails};
use wayther::waybar::{waybar_after_geocode, waybar_after_weather, waybar_error, waybar_output, waybar_start, WaybarStep};

fn new_york() -> Location {
    Location { name: "New York".to_string(), country: "US".to_string(), lat: "40.7128".to_string(), lon: "-74.006".to_string() }
}

fn report() -> WeatherData {
    WeatherData {
        current: CurrentWeather {
            temp: -5_000,
            feels_like: -9_000,
            temp_min: -5_000,
            temp_max: 2_000,
            humidity: 67,
            description: "scattered clouds".to_string(),
            icon: "03d".to_string(),
        },
        details: WeatherDetails {
            wind_speed: 6_400,
            wind_deg: Some(270),
            humidity: 67,
            feels_like: -9_000,
            visibility: Some(10_000),
            sunrise: "7:10 AM".to_string(),
            sunset: "4:40 PM".to_string(),
            uv_index: None,
            aqi: None,
        },
        hourly: vec![],
        daily: vec![],
    }
}

#[test]
fn readme_example_line() {
    assert_eq!(
        waybar_output(&new_york(), &report()),
        "{\"class\":\"cloudy\",\"text\":\" -5°\",\"tooltip\":\"New York, US\\nScattered clouds\\nH: 2° L: -5°\\nHumidity: 67%\\nWind: 23 km/h\"}"
    );
}

#[test]
fn error_line() {
    assert_eq!(waybar_error("No API key"), "{\"class\":\"error\",\"text\":\" --°\",\"tooltip\":\"No API key\"}");
}

#[test]
fn start_without_key_or_location() {
    match waybar_start(None, Some("x".to_string())) {
        WaybarStep::Finish { output, success } => {
            assert!(!success);
            assert_eq!(output, waybar_error("No API key"));
        }
        _ => panic!("expected a failure"),
    }
    match waybar_start(Some("k".to_string()), None) {
        WaybarStep::Finish { output, success } => {
            assert!(!success);
            assert_eq!(output, waybar_error("No location"));
        }
        _ => panic!("expected a failure"),
    }
    match waybar_start(Some("k".to_string()), Some("Oslo".to_string())) {
        WaybarStep::Geocode { api_key, query } => {
            assert_eq!(api_key, "k");
            assert_eq!(query, "Oslo");
        }
        _ => panic!("expected a lookup"),
    }
}

#[test]
fn geocode_outcomes() {
    match waybar_after_geocode("k".to_string(), Ok(vec![new_york()])) {
        WaybarStep::FetchWeather { api_key, location } => {
            assert_eq!(api_key, "k");
            assert_eq!(location.name, "New York");
        }
        _ => panic!("expected a fetch"),
    }
    for r in [Ok(vec![]), Err("boom".to_string())] {
        match waybar_after_geocode("k".to_string(), r) {
            WaybarStep::Finish { output, success } => {
                assert!(!success);
                assert_eq!(output, waybar_error("Location not found"));
            }
            _ => panic!("expected a failure"),
        }
    }
}

#[test]
fn weather_outcomes() {
    match waybar_after_weather(&new_york(), &Ok(report())) {
        WaybarStep::Finish { output, success } => {
            assert!(success);
            assert!(output.starts_with("{\"class\":\"cloudy\""));
        }
        _ => panic!("expected the line"),
    }
    match waybar_after_weather(&new_york(), &Err("API error: 500".to_string())) {
        WaybarStep::Finish { output, success } => {
            assert!(!success);
            assert_eq!(output, waybar_error("API error: 500"));
        }
        _ => panic!("expected a failure"),
    }
}
