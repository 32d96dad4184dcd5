# eink — weekly weather for a Waveshare 7.5" e-paper panel

A 7-day forecast (Open-Meteo or met.no) rendered onto an 800×480 black/white
e-paper panel, or into a PNG preview on the host.

The crate is split in two:

- `src/` — the library, verified with Verus:
  - `config` — the configuration model, its defaults, the names its enums
    are written by in the file, and the Open-Meteo unit values and symbols;
  - `weather::model` — conditions (WMO codes, met.no symbols), dates (ISO
    parsing, weekdays, civil dates from day counts), `DD.MM HH:MM` timestamps and
    refresh times such as `Wed 17 Jun 22:05`;
  - `weather::geocode` — which geocoding hit to take, when a cached hit may be
    reused, how a place is named;
  - `weather::open_meteo`, `weather::met_no` — folding each provider's response
    into a `Forecast` (met.no's UTC timeseries into local days through
    chrono-tz);
  - `render` — the screen layout as a list of drawing operations;
  - `canvas` — the 1-bit framebuffer;
  - `output` — panel geometry for a rotation, pixel colours (with `invert`)
    and the power-enable pin;
  - `cli` — command-line arguments;
  - `text` — character-level parsing and formatting.
- `app/` — the program around it: TOML loading, HTTP requests and the geocode
  cache, turning the layout into pixels with `embedded-graphics` and
  `u8g2-fonts` (the icons, drawn in floating point, live there), PNG output,
  and the panel driver.

Temperatures travel through the library in thousandths of a degree and
probabilities in thousandths of a percent; the application converts the
providers' floating-point numbers at the edge.

Run the one-shot renderer with `--config config.toml --output forecast.png`.
On the Raspberry Pi (Linux on ARM, with SPI enabled) it drives the panel and writes a PNG only
when `--output` is given; elsewhere it writes `forecast.png` by default.
