use wayther::config::{get_api_key, get_location};
use wayther::waybar::waybar_error;

#[test]
fn api_key_prefers_a_set_environment_value() {
    let cfg = Some("api_key = \"from-file\"\n".to_string());
    assert_eq!(get_api_key(Some("from-env".to_string()), cfg.clone()), Some("from-env".to_string()));
    assert_eq!(get_api_key(Some(String::new()), cfg.clone()), Some("from-file".to_string()));
    assert_eq!(get_api_key(None, cfg), Some("from-file".to_string()));
    assert_eq!(get_api_key(None, None), None);
    assert_eq!(get_api_key(Some(String::new()), None), None);
}

#[test]
fn api_key_needs_a_string_entry() {
    assert_eq!(get_api_key(None, Some("api_key = 42".to_string())), None);
    assert_eq!(get_api_key(None, Some("location = \"Oslo\"".to_string())), None);
    assert_eq!(get_api_key(None, Some("this is not toml = = =".to_string())), None);
}

#[test]
fn location_from_config() {
    let cfg = "api_key = \"k\"\nlocation = \"New York, US\"\n".to_string();
    assert_eq!(get_location(Some(cfg)), Some("New York, US".to_string()));
    assert_eq!(get_location(Some("api_key = \"k\"".to_string())), None);
    assert_eq!(get_location(None), None);
}

#[test]
fn waybar_line_sorts_keys_and_escapes() {
    assert_eq!(waybar_error("tip"), "{\"class\":\"error\",\"text\":\" --°\",\"tooltip\":\"tip\"}");
    assert_eq!(
        waybar_error("x\ny\\z\"q"),
        "{\"class\":\"error\",\"text\":\" --°\",\"tooltip\":\"x\\ny\\\\z\\\"q\"}"
    );
    assert_eq!(waybar_error("\u{1}\t°\r"), "{\"class\":\"error\",\"text\":\" --°\",\"tooltip\":\"\\u0001\\t°\\r\"}");
    assert!(!waybar_error("a\nb\u{1f}").contains('\n'));
}
