//! The settings: the API key, from the environment or the configuration
//! file, and the default location, from the configuration file.

use vstd::prelude::*;

verus! {

/// What `str::parse::<toml::Table>` followed by a lookup of `key` and
/// `Value::as_str` gives for `content`: the string value of the top-level
/// entry `key`, or `None` if the text is not a TOML document, has no such
/// entry, or the entry is not a string.
pub uninterp spec fn toml_string_entry(content: Seq<char>, key: Seq<char>) -> Option<Seq<char>>;

/// Parses `content` as a TOML table and reads the top-level string entry
/// `key` from it. TOML's grammar is left to the name `toml_string_entry`.
#[verifier::external_body]
fn toml_entry(content: &str, key: &str) -> (r: Option<String>)
    ensures
        match r {
            Some(s) => toml_string_entry(content@, key@) == Some(s@),
            None => toml_string_entry(content@, key@) is None,
        },
{
    match content.parse::<toml::Table>() {
        Ok(table) => match table.get(key) {
            Some(value) => match value.as_str() {
                Some(s) => Some(s.to_string()),
                None => None,
            },
            None => None,
        },
        Err(_) => None,
    }
}

/// The string entry `key` of an optional configuration text.
pub open spec fn config_entry(config: Option<Seq<char>>, key: Seq<char>) -> Option<Seq<char>> {
    match config {
        Some(c) => toml_string_entry(c, key),
        None => None,
    }
}

/// The API key: the environment's value when it is set and not empty, else
/// the `api_key` entry of the configuration file.
pub open spec fn api_key_spec(env_value: Option<Seq<char>>, config: Option<Seq<char>>) -> Option<Seq<char>> {
    match env_value {
        Some(v) if v.len() > 0 => Some(v),
        _ => config_entry(config, "api_key"@),
    }
}

/// A key set in the environment and not empty is the API key, whatever the
/// configuration text is, and also when there is none. Otherwise the key is
/// the configuration's `api_key` string entry, and there is no key without
/// a configuration text; so two configurations can only give different keys
/// when the environment gives none.
pub proof fn law_environment_key_first(
    env_value: Option<Seq<char>>,
    config: Option<Seq<char>>,
    other_config: Option<Seq<char>>,
)
    ensures
        env_value matches Some(v) && v.len() > 0 ==> api_key_spec(env_value, config) == env_value
            && api_key_spec(env_value, None) == env_value && api_key_spec(env_value, config) == api_key_spec(
            env_value,
            other_config,
        ),
        !(env_value matches Some(v) && v.len() > 0) ==> (api_key_spec(env_value, None) is None
            && (config matches Some(c) ==> api_key_spec(env_value, config) == toml_string_entry(c, "api_key"@))),
{
}

/// The default location is the configuration's `location` string entry, and
/// there is none without a configuration text.
pub proof fn law_location_from_configuration(config: Option<Seq<char>>)
    ensures
        config_entry(None, "location"@) is None,
        config matches Some(c) ==> config_entry(config, "location"@) == toml_string_entry(c, "location"@),
{
}

pub open spec fn opt_view(o: Option<String>) -> Option<Seq<char>> {
    match o {
        Some(s) => Some(s@),
        None => None,
    }
}

/// Chooses the API key from the value of `OPENWEATHERMAP_API_KEY` (if it is
/// set) and the text of the configuration file (if it could be read).
pub fn get_api_key(env_value: Option<String>, config: Option<String>) -> (r: Option<String>)
    ensures
        opt_view(r) == api_key_spec(opt_view(env_value), opt_view(config)),
{
    if let Some(key) = env_value {
        if key.as_str().unicode_len() > 0 {
            return Some(key);
        }
    }
    match config {
        Some(c) => toml_entry(c.as_str(), "api_key"),
        None => None,
    }
}

/// The default location: the `location` entry of the configuration file.
pub fn get_location(config: Option<String>) -> (r: Option<String>)
    ensures
        opt_view(r) == config_entry(opt_view(config), "location"@),
{
    match config {
        Some(c) => toml_entry(c.as_str(), "location"),
        None => None,
    }
}

} // verus!
