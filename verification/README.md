# wayther

A weather widget for Wayland compositors and a JSON module for waybar, built
around a library whose rules are proved with Verus.

- `src/` is the library: the request URLs, the processing of the
  OpenWeatherMap answers into current conditions, details, an hourly and a
  ten-day forecast, the texts of every panel, the waybar line, the search
  dialog's decisions, the settings and the icon cache. Readings that the
  service sends as decimal numbers are kept in thousandths of their unit.
- `app/` is the program: GTK widgets, the layer-shell window, HTTP requests
  with reqwest, reading the environment and `~/.config/wayther/config.toml`,
  and decoding JSON into the library's types.
- `tests/` runs the library on concrete values.

## Notes on the model

- The icon cache keeps its images in a `Vec` of (code, image) pairs with the
  invariant that no code occurs twice, viewed as a map from code to image.
  A `HashMap<String, Vec<u8>>` would be the natural container, but vstd's
  specification of `HashMap` says what `insert` and `get` do only for key
  types that obey its key model, and it grants that model to integer and
  `bool` keys alone; for `String` it could only be assumed, not proved, so
  `store` and `lookup` could not have stated what they do. The cache is small
  (one entry per icon code), so the linear search costs nothing noticeable.
- Local times depend on the UTC offset that the machine's time zone gives at
  each instant. The library states every clock text and local date exactly
  as a function of the timestamp and that offset, and leaves only the offset
  open (chrono keeps it within a day either way).
- The daily forecast groups entries by local date and lists the dates in
  calendar order; the hourly forecast shows the entries of the 24 hours that
  start with the first entry.
- A reading kept in thousandths stands for the double nearest it. Where the
  widget writes a reading with `{:.0}` or `{:.1}` (visibility, UV index, wind
  in km/h) or rounds it with `.round()` (temperatures), the library states
  and computes the result on that double: its 53-bit significand and scale,
  the product with the double of 3.6 for km/h, and the formatter's rounding
  of the exact binary value, halves to even. So 1150 m is written "1.1 km",
  as the double nearest 1.15 lies just below it.
