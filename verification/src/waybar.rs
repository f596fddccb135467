//! The `bar` mode: one JSON line for a waybar module. The caller reads the
//! settings and makes the requests; these functions decide what comes next
//! and what is printed.

use vstd::prelude::*;
use crate::conditions::{get_weather_class, get_weather_icon, weather_class_spec, weather_icon_spec};
use crate::display::{degrees_text, wind_text, degrees, wind};
use crate::doubles::{count_text, kmh_count};
use crate::numbers::whole_spec;
use crate::json::{waybar_object, waybar_object_spec};
use crate::models::{Location, WeatherData};
use crate::text::{capitalize, capitalize_spec, int_text, push_int, push_str, string_from_chars};

verus! {

/// The waybar text: the condition's glyph, a space and the temperature.
pub open spec fn waybar_text_spec(data: WeatherData) -> Seq<char> {
    weather_icon_spec(data.current.icon@) + " "@ + degrees_text(data.current.temp as int)
}

/// The tooltip: place, description, high and low, humidity and wind.
pub open spec fn waybar_tooltip_spec(location: Location, data: WeatherData) -> Seq<char> {
    location.display_name_spec() + "\n"@ + capitalize_spec(data.current.description@) + "\nH: "@
        + degrees_text(data.current.temp_max as int) + " L: "@ + degrees_text(data.current.temp_min as int)
        + "\nHumidity: "@ + int_text(data.details.humidity as int) + "%\nWind: "@ + wind_text(
        data.details.wind_speed as int,
    )
}

/// The line printed for a report.
pub open spec fn waybar_output_spec(location: Location, data: WeatherData) -> Seq<char> {
    waybar_object_spec(
        waybar_text_spec(data),
        waybar_tooltip_spec(location, data),
        weather_class_spec(data.current.icon@),
    )
}

/// The waybar line for a report: its text is the condition's glyph, a space
/// and the current temperature rounded to whole degrees with "°" (the day's
/// low and high, the description and the details do not enter it); its
/// tooltip names the place, the description with a capital first letter, the
/// day's high (`temp_max`) and low (`temp_min`), the humidity and the wind in
/// km/h; its class is that of the current condition's icon.
pub proof fn law_waybar_line(location: Location, data: WeatherData)
    ensures
        waybar_output_spec(location, data) == waybar_object_spec(
            weather_icon_spec(data.current.icon@) + " "@ + int_text(whole_spec(data.current.temp as int)) + "°"@,
            location.name@ + ", "@ + location.country@ + "\n"@ + capitalize_spec(data.current.description@)
                + "\nH: "@ + int_text(whole_spec(data.current.temp_max as int)) + "°"@ + " L: "@ + int_text(
                whole_spec(data.current.temp_min as int),
            ) + "°"@ + "\nHumidity: "@ + int_text(data.details.humidity as int) + "%\nWind: "@ + count_text(
                data.details.wind_speed < 0,
                kmh_count(data.details.wind_speed as int),
                false,
            ) + " km/h"@,
            weather_class_spec(data.current.icon@),
        ),
{
    let text = weather_icon_spec(data.current.icon@) + " "@ + int_text(whole_spec(data.current.temp as int)) + "°"@;
    assert(waybar_text_spec(data) =~= text);
    let tooltip = location.name@ + ", "@ + location.country@ + "\n"@ + capitalize_spec(data.current.description@)
        + "\nH: "@ + int_text(whole_spec(data.current.temp_max as int)) + "°"@ + " L: "@ + int_text(
        whole_spec(data.current.temp_min as int),
    ) + "°"@ + "\nHumidity: "@ + int_text(data.details.humidity as int) + "%\nWind: "@ + count_text(
        data.details.wind_speed < 0,
        kmh_count(data.details.wind_speed as int),
        false,
    ) + " km/h"@;
    assert(waybar_tooltip_spec(location, data) =~= tooltip);
}

/// The line printed when something failed: a dash for the temperature, the
/// message as tooltip and the class "error".
pub open spec fn waybar_error_spec(msg: Seq<char>) -> Seq<char> {
    waybar_object_spec(" --°"@, msg, "error"@)
}

/// The waybar line for the weather at a location.
pub fn waybar_output(location: &Location, data: &WeatherData) -> (r: String)
    ensures
        r@ == waybar_output_spec(*location, *data),
{
    let icon = get_weather_icon(data.current.icon.as_str());
    let temp = degrees(data.current.temp);
    let mut t: Vec<char> = Vec::new();
    push_str(icon, &mut t);
    push_str(" ", &mut t);
    push_str(temp.as_str(), &mut t);
    assert(t@ =~= waybar_text_spec(*data));
    let text = string_from_chars(t.as_slice());

    let name = location.display_name();
    let desc = capitalize(data.current.description.as_str());
    let hi = degrees(data.current.temp_max);
    let lo = degrees(data.current.temp_min);
    let w = wind(data.details.wind_speed);
    let mut tt: Vec<char> = Vec::new();
    push_str(name.as_str(), &mut tt);
    push_str("\n", &mut tt);
    push_str(desc.as_str(), &mut tt);
    push_str("\nH: ", &mut tt);
    push_str(hi.as_str(), &mut tt);
    push_str(" L: ", &mut tt);
    push_str(lo.as_str(), &mut tt);
    push_str("\nHumidity: ", &mut tt);
    push_int(data.details.humidity as i64, &mut tt);
    push_str("%\nWind: ", &mut tt);
    push_str(w.as_str(), &mut tt);
    assert(tt@ =~= waybar_tooltip_spec(*location, *data));
    let tooltip = string_from_chars(tt.as_slice());

    let class = get_weather_class(data.current.icon.as_str());
    waybar_object(text.as_str(), tooltip.as_str(), class)
}

/// The waybar line for a failure.
pub fn waybar_error(msg: &str) -> (r: String)
    ensures
        r@ == waybar_error_spec(msg@),
{
    waybar_object(" --°", msg, "error")
}

/// What the `bar` mode does next.
pub enum WaybarStep {
    /// Look the place up.
    Geocode { api_key: String, query: String },
    /// Fetch the weather at the place found.
    FetchWeather { api_key: String, location: Location },
    /// Print the line and exit, successfully or not.
    Finish { output: String, success: bool },
}

/// A failure with the given message.
pub open spec fn is_failure(step: WaybarStep, msg: Seq<char>) -> bool {
    step matches WaybarStep::Finish { output, success } && !success && output@ == waybar_error_spec(msg)
}

/// The first step, from the API key and the configured location: without a
/// key or without a location the mode fails with "No API key" or
/// "No location"; otherwise it looks the location up.
pub fn waybar_start(api_key: Option<String>, location: Option<String>) -> (r: WaybarStep)
    ensures
        api_key is None ==> is_failure(r, "No API key"@),
        api_key is Some && location is None ==> is_failure(r, "No location"@),
        (api_key is Some && location is Some) ==> (r matches WaybarStep::Geocode { api_key: k, query: q }
            && k == api_key->0 && q == location->0),
{
    let key = match api_key {
        Some(k) => k,
        None => return WaybarStep::Finish { output: waybar_error("No API key"), success: false },
    };
    let query = match location {
        Some(q) => q,
        None => return WaybarStep::Finish { output: waybar_error("No location"), success: false },
    };
    WaybarStep::Geocode { api_key: key, query }
}

/// After the lookup: the first place found, or a failure with
/// "Location not found" when the lookup failed or found nothing.
pub fn waybar_after_geocode(api_key: String, result: Result<Vec<Location>, String>) -> (r: WaybarStep)
    ensures
        (result matches Ok(v) && v@.len() > 0) ==> (r matches WaybarStep::FetchWeather {
            api_key: k,
            location: l,
        } && k == api_key && l == result->Ok_0@[0]),
        !(result matches Ok(v) && v@.len() > 0) ==> is_failure(r, "Location not found"@),
{
    match result {
        Ok(v) => {
            if v.len() > 0 {
                let mut v = v;
                let first = v.remove(0);
                WaybarStep::FetchWeather { api_key, location: first }
            } else {
                WaybarStep::Finish { output: waybar_error("Location not found"), success: false }
            }
        },
        Err(_) => WaybarStep::Finish { output: waybar_error("Location not found"), success: false },
    }
}

/// After the weather request: the weather line and success, or the error
/// message as a failure.
pub fn waybar_after_weather(location: &Location, result: &Result<WeatherData, String>) -> (r: WaybarStep)
    ensures
        result matches Ok(d) ==> (r matches WaybarStep::Finish { output, success } && success
            && output@ == waybar_output_spec(*location, *d)),
        result matches Err(e) ==> is_failure(r, e@),
{
    match result {
        Ok(d) => WaybarStep::Finish { output: waybar_output(location, d), success: true },
        Err(e) => WaybarStep::Finish { output: waybar_error(e.as_str()), success: false },
    }
}

} // verus!
