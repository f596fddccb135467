use vstd::prelude::*;
use crate::text::str_eq;

verus! {

/// The waybar class of an OpenWeatherMap icon code.
pub open spec fn weather_class_spec(code: Seq<char>) -> Seq<char> {
    if code == "01d"@ || code == "01n"@ {
        "clear"@
    } else if code == "02d"@ || code == "02n"@ || code == "03d"@ || code == "03n"@
        || code == "04d"@ || code == "04n"@ {
        "cloudy"@
    } else if code == "09d"@ || code == "09n"@ || code == "10d"@ || code == "10n"@ {
        "rainy"@
    } else if code == "11d"@ || code == "11n"@ {
        "stormy"@
    } else if code == "13d"@ || code == "13n"@ {
        "snowy"@
    } else if code == "50d"@ || code == "50n"@ {
        "foggy"@
    } else {
        "unknown"@
    }
}

/// The classes a waybar style sheet has to know: every icon code maps to
/// one of these seven.
pub proof fn law_class_is_known(code: Seq<char>)
    ensures
        weather_class_spec(code) == "clear"@ || weather_class_spec(code) == "cloudy"@
            || weather_class_spec(code) == "rainy"@ || weather_class_spec(code) == "stormy"@
            || weather_class_spec(code) == "snowy"@ || weather_class_spec(code) == "foggy"@
            || weather_class_spec(code) == "unknown"@,
{
}

proof fn lemma_code_eq(a: char, b: char, c: char, lit: &str)
    requires
        lit@.len() == 3,
    ensures
        (seq![a, b, c] == lit@) <==> (a == lit@[0] && b == lit@[1] && c == lit@[2]),
{
    if a == lit@[0] && b == lit@[1] && c == lit@[2] {
        assert(seq![a, b, c] =~= lit@);
    }
}

/// Day and night codes of a condition ("10d", "10n") have the same class.
pub proof fn law_class_same_day_and_night(a: char, b: char)
    ensures
        weather_class_spec(seq![a, b, 'd']) == weather_class_spec(seq![a, b, 'n']),
{
    reveal_strlit("01d");
    reveal_strlit("01n");
    reveal_strlit("02d");
    reveal_strlit("02n");
    reveal_strlit("03d");
    reveal_strlit("03n");
    reveal_strlit("04d");
    reveal_strlit("04n");
    reveal_strlit("09d");
    reveal_strlit("09n");
    reveal_strlit("10d");
    reveal_strlit("10n");
    reveal_strlit("11d");
    reveal_strlit("11n");
    reveal_strlit("13d");
    reveal_strlit("13n");
    reveal_strlit("50d");
    reveal_strlit("50n");
    lemma_code_eq(a, b, 'd', "01d");
    lemma_code_eq(a, b, 'n', "01n");
    lemma_code_eq(a, b, 'd', "02d");
    lemma_code_eq(a, b, 'n', "02n");
    lemma_code_eq(a, b, 'd', "03d");
    lemma_code_eq(a, b, 'n', "03n");
    lemma_code_eq(a, b, 'd', "04d");
    lemma_code_eq(a, b, 'n', "04n");
    lemma_code_eq(a, b, 'd', "09d");
    lemma_code_eq(a, b, 'n', "09n");
    lemma_code_eq(a, b, 'd', "10d");
    lemma_code_eq(a, b, 'n', "10n");
    lemma_code_eq(a, b, 'd', "11d");
    lemma_code_eq(a, b, 'n', "11n");
    lemma_code_eq(a, b, 'd', "13d");
    lemma_code_eq(a, b, 'n', "13n");
    lemma_code_eq(a, b, 'd', "50d");
    lemma_code_eq(a, b, 'n', "50n");
    lemma_code_eq(a, b, 'n', "01d");
    lemma_code_eq(a, b, 'n', "02d");
    lemma_code_eq(a, b, 'n', "03d");
    lemma_code_eq(a, b, 'n', "04d");
    lemma_code_eq(a, b, 'n', "09d");
    lemma_code_eq(a, b, 'n', "10d");
    lemma_code_eq(a, b, 'n', "11d");
    lemma_code_eq(a, b, 'n', "13d");
    lemma_code_eq(a, b, 'n', "50d");
    lemma_code_eq(a, b, 'd', "01n");
    lemma_code_eq(a, b, 'd', "02n");
    lemma_code_eq(a, b, 'd', "03n");
    lemma_code_eq(a, b, 'd', "04n");
    lemma_code_eq(a, b, 'd', "09n");
    lemma_code_eq(a, b, 'd', "10n");
    lemma_code_eq(a, b, 'd', "11n");
    lemma_code_eq(a, b, 'd', "13n");
    lemma_code_eq(a, b, 'd', "50n");
}

/// Maps an icon code to the CSS class that waybar styles.
pub fn get_weather_class(icon_code: &str) -> (r: &'static str)
    ensures
        r@ == weather_class_spec(icon_code@),
{
    if str_eq(icon_code, "01d") || str_eq(icon_code, "01n") {
        "clear"
    } else if str_eq(icon_code, "02d") || str_eq(icon_code, "02n") || str_eq(icon_code, "03d")
        || str_eq(icon_code, "03n") || str_eq(icon_code, "04d") || str_eq(icon_code, "04n") {
        "cloudy"
    } else if str_eq(icon_code, "09d") || str_eq(icon_code, "09n") || str_eq(icon_code, "10d")
        || str_eq(icon_code, "10n") {
        "rainy"
    } else if str_eq(icon_code, "11d") || str_eq(icon_code, "11n") {
        "stormy"
    } else if str_eq(icon_code, "13d") || str_eq(icon_code, "13n") {
        "snowy"
    } else if str_eq(icon_code, "50d") || str_eq(icon_code, "50n") {
        "foggy"
    } else {
        "unknown"
    }
}

/// The glyph shown before the temperature in the waybar text. Every code,
/// known or not, gets the empty glyph.
pub open spec fn weather_icon_spec(code: Seq<char>) -> Seq<char> {
    if code == "01d"@ || code == "01n"@ || code == "02d"@ || code == "02n"@ {
        ""@
    } else if code == "03d"@ || code == "03n"@ || code == "04d"@ || code == "04n"@ {
        ""@
    } else if code == "09d"@ || code == "09n"@ || code == "10d"@ || code == "10n"@ {
        ""@
    } else if code == "11d"@ || code == "11n"@ || code == "13d"@ || code == "13n"@ {
        ""@
    } else if code == "50d"@ || code == "50n"@ {
        ""@
    } else {
        ""@
    }
}

/// Maps an icon code to the glyph of the waybar text.
pub fn get_weather_icon(icon_code: &str) -> (r: &'static str)
    ensures
        r@ == weather_icon_spec(icon_code@),
{
    if str_eq(icon_code, "01d") || str_eq(icon_code, "01n") || str_eq(icon_code, "02d")
        || str_eq(icon_code, "02n") {
        ""
    } else if str_eq(icon_code, "03d") || str_eq(icon_code, "03n") || str_eq(icon_code, "04d")
        || str_eq(icon_code, "04n") {
        ""
    } else if str_eq(icon_code, "09d") || str_eq(icon_code, "09n") || str_eq(icon_code, "10d")
        || str_eq(icon_code, "10n") {
        ""
    } else if str_eq(icon_code, "11d") || str_eq(icon_code, "11n") || str_eq(icon_code, "13d")
        || str_eq(icon_code, "13n") {
        ""
    } else if str_eq(icon_code, "50d") || str_eq(icon_code, "50n") {
        ""
    } else {
        ""
    }
}

} // verus!
