//! Weather data processing for a Wayland weather widget: the rules that turn
//! OpenWeatherMap responses into the texts, forecasts and waybar output that
//! the widget shows.

pub mod api;
pub mod clock;
pub mod conditions;
pub mod config;
pub mod daily;
pub mod display;
pub mod doubles;
pub mod icon_cache;
pub mod json;
pub mod models;
pub mod numbers;
pub mod search;
pub mod text;
pub mod waybar;
