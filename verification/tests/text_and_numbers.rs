use wayther::conditions::{get_weather_class, get_weather_icon};
use wayther::doubles::{kmh_text, thousandths_text};
use wayther::numbers::rounded_whole;
use wayther::text::{capitalize, contains, int_to_string, str_eq, string_chars, trim};

#[test]
fn classes_of_known_codes() {
    assert_eq!(get_weather_class("01d"), "clear");
    assert_eq!(get_weather_class("01n"), "clear");
    assert_eq!(get_weather_class("02d"), "cloudy");
    assert_eq!(get_weather_class("04n"), "cloudy");
    assert_eq!(get_weather_class("09d"), "rainy");
    assert_eq!(get_weather_class("10n"), "rainy");
    assert_eq!(get_weather_class("11d"), "stormy");
    assert_eq!(get_weather_class("13n"), "snowy");
    assert_eq!(get_weather_class("50d"), "foggy");
    assert_eq!(get_weather_class("99d"), "unknown");
    assert_eq!(get_weather_class(""), "unknown");
}

#[test]
fn class_same_for_day_and_night() {
    for p in ["01", "02", "03", "04", "09", "10", "11", "13", "50", "77"] {
        let d = format!("{}d", p);
        let n = format!("{}n", p);
        assert_eq!(get_weather_class(&d), get_weather_class(&n));
    }
}

#[test]
fn icon_glyph_is_empty_for_every_code() {
    for c in ["01d", "03n", "10d", "50n", "zzz", ""] {
        assert_eq!(get_weather_icon(c), "");
    }
}

#[test]
fn capitalize_first_letter() {
    assert_eq!(capitalize("scattered clouds"), "Scattered clouds");
    assert_eq!(capitalize(""), "");
    assert_eq!(capitalize("Rain"), "Rain");
    assert_eq!(capitalize("1 cloud"), "1 cloud");
    assert_eq!(capitalize("élan"), "Élan");
    assert_eq!(capitalize("ßx"), "SSx");
    assert_eq!(capitalize("heavy intensity RAIN"), "Heavy intensity RAIN");
    assert_eq!(capitalize("clear sky"), "Clear sky");
}

#[test]
fn capitalize_ascii_twice_changes_nothing() {
    for s in ["scattered clouds", "Rain", "", "x", "1 cloud", "heavy intensity RAIN", "zZ"] {
        let once = capitalize(s);
        assert_eq!(capitalize(&once), once);
        assert_eq!(once.len(), s.len());
        assert_eq!(&once.as_bytes()[1.min(s.len())..], &s.as_bytes()[1.min(s.len())..]);
    }
}

#[test]
fn trim_removes_white_space_at_both_ends() {
    assert_eq!(trim(" 7:04 AM"), "7:04 AM");
    assert_eq!(trim("\t x y \n"), "x y");
    assert_eq!(trim("\u{3000}abc\u{a0}"), "abc");
    assert_eq!(trim("   "), "");
    assert_eq!(trim(""), "");
    let once = trim("  a b  ");
    assert_eq!(trim(&once), once);
}

#[test]
fn contains_finds_runs() {
    assert!(contains("2024-01-01 12:00:00", "12:00"));
    assert!(!contains("2024-01-01 15:00:00", "12:00"));
    assert!(contains("abc", ""));
    assert!(!contains("12:0", "12:00"));
}

#[test]
fn string_helpers() {
    assert!(str_eq("abc", "abc"));
    assert!(!str_eq("abc", "abd"));
    assert!(!str_eq("ab", "abc"));
    assert_eq!(string_chars("h°i"), vec!['h', '°', 'i']);
    assert_eq!(int_to_string(0), "0");
    assert_eq!(int_to_string(-5), "-5");
    assert_eq!(int_to_string(1234567), "1234567");
    assert_eq!(int_to_string(i64::MIN), "-9223372036854775808");
    assert_eq!(int_to_string(i64::MAX), "9223372036854775807");
}

#[test]
fn rounding_halves_away_from_zero() {
    assert_eq!(rounded_whole(2500), 3);
    assert_eq!(rounded_whole(-2500), -3);
    assert_eq!(rounded_whole(2499), 2);
    assert_eq!(rounded_whole(-500), -1);
    assert_eq!(rounded_whole(-499), 0);
    assert_eq!(rounded_whole(0), 0);
    assert_eq!(rounded_whole(21_700), 22);
    assert_eq!(rounded_whole(i64::MAX), i32::MAX);
    assert_eq!(rounded_whole(i64::MIN), i32::MIN);
    for v in [-7_350i64, -1_200, 0, 499, 501, 12_345] {
        let f = v as f64 / 1000.0;
        assert_eq!(rounded_whole(v), f.round() as i32);
    }
}

#[test]
fn one_decimal_text_of_the_nearest_double() {
    assert_eq!(thousandths_text(1_150, true), "1.1");
    assert_eq!(thousandths_text(1_050, true), "1.1");
    assert_eq!(thousandths_text(1_050, true), format!("{:.1}", 1.05f64));
    assert_eq!(thousandths_text(1_150, true), format!("{:.1}", 1.15f64));
    assert_eq!(thousandths_text(1_250, true), "1.2");
    assert_eq!(thousandths_text(1_350, true), "1.4");
    assert_eq!(thousandths_text(10_000, true), "10.0");
    assert_eq!(thousandths_text(9_999, true), "10.0");
    assert_eq!(thousandths_text(-2_340, true), "-2.3");
    assert_eq!(thousandths_text(-40, true), "-0.0");
    assert_eq!(thousandths_text(0, true), "0.0");
    assert_eq!(thousandths_text(2_500, false), "2");
    assert_eq!(thousandths_text(3_500, false), "4");
    assert_eq!(thousandths_text(-400, false), "-0");
}

#[test]
fn one_decimal_text_matches_float_formatting() {
    for v in 0i64..=120_000 {
        let f = v as f64 / 1000.0;
        assert_eq!(thousandths_text(v, true), format!("{:.1}", f), "{}", v);
        if v > 0 {
            assert_eq!(thousandths_text(-v, true), format!("{:.1}", -f), "{}", -v);
        }
    }
    let mut v: i64 = 1;
    while v < (1i64 << 53) {
        for w in [v, v + 50, v + 150, 3 * v + 50] {
            let f = w as f64 / 1000.0;
            assert_eq!(thousandths_text(w, true), format!("{:.1}", f), "{}", w);
            assert_eq!(thousandths_text(w, false), format!("{:.0}", f), "{}", w);
        }
        v = v * 3 + 7;
    }
    let m = u32::MAX as i64;
    assert_eq!(thousandths_text(m, true), format!("{:.1}", m as f64 / 1000.0));
    assert!(!thousandths_text(i64::MIN, true).is_empty());
    assert!(!thousandths_text(i64::MAX, false).is_empty());
}

#[test]
fn kmh_text_matches_float_formatting() {
    assert_eq!(kmh_text(6_400), "23");
    assert_eq!(kmh_text(1_250), "4");
    assert_eq!(kmh_text(0), "0");
    for w in -60_000i64..=60_000 {
        let f = w as f64 / 1000.0 * 3.6;
        assert_eq!(kmh_text(w), format!("{:.0}", f), "{}", w);
    }
    let mut v: i64 = 1;
    while v < (1i64 << 53) {
        let f = v as f64 / 1000.0 * 3.6;
        assert_eq!(kmh_text(v), format!("{:.0}", f), "{}", v);
        v = v * 5 + 3;
    }
    assert!(!kmh_text(i64::MIN).is_empty());
    assert!(!kmh_text(i64::MAX).is_empty());
}

#[test]
fn rounded_whole_matches_float_rounding() {
    for v in -100_000i64..=100_000 {
        assert_eq!(rounded_whole(v), (v as f64 / 1000.0).round() as i32, "{}", v);
    }
    let mut v: i64 = 1;
    while v < (1i64 << 53) {
        for w in [v, v + 500, -v, -v - 500, 7 * v + 499] {
            assert_eq!(rounded_whole(w), (w as f64 / 1000.0).round() as i32, "{}", w);
        }
        v = v * 3 + 1;
    }
}
