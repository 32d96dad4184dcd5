//! User configuration.
//!
//! Units map directly onto Open-Meteo API query values, so the same enum drives
//! both the network request and the on-screen unit symbols.

use vstd::prelude::*;

use crate::text::str_eq;

verus! {

/// The whole configuration, as read from the TOML file.
#[derive(Debug, Clone)]
pub struct Config {
    pub location: Location,
    /// Weather data source.
    pub provider: WeatherProvider,
    /// UI language for labels, weekdays and months.
    pub language: Language,
    pub units: Units,
    pub display: Display,
    pub refresh: Refresh,
}

/// Weather data source. Open-Meteo needs no key; met.no (Norwegian
/// Meteorological Institute, the data behind Yr.no) also needs no key but
/// sends a descriptive User-Agent and derives the local timezone from the
/// geocoded coordinates.
#[derive(Debug, Clone, Copy, PartialEq, Eq, Structural)]
pub enum WeatherProvider {
    OpenMeteo,
    MetNo,
}

impl Default for WeatherProvider {
    fn default() -> (r: Self)
        ensures
            r == WeatherProvider::OpenMeteo,
    {
        WeatherProvider::OpenMeteo
    }
}

/// Display language. Croatian uses ASCII counterparts for diacritics
/// (c/z/s/d for č/ž/š/đ), which the bitmap fonts render cleanly.
#[derive(Debug, Clone, Copy, PartialEq, Eq, Structural)]
pub enum Language {
    En,
    Hr,
}

impl Default for Language {
    fn default() -> (r: Self)
        ensures
            r == Language::En,
    {
        Language::En
    }
}

impl Language {
    pub open spec fn code_spec(self) -> Seq<char> {
        match self {
            Language::En => "en"@,
            Language::Hr => "hr"@,
        }
    }

    /// ISO code for API query parameters (Open-Meteo geocoding `language`).
    pub fn code(self) -> (r: &'static str)
        ensures
            r@ == self.code_spec(),
    {
        match self {
            Language::En => "en",
            Language::Hr => "hr",
        }
    }

    /// The language whose configuration name (its code) is `name`.
    pub open spec fn named_spec(name: Seq<char>) -> Option<Language> {
        if name == "en"@ {
            Some(Language::En)
        } else if name == "hr"@ {
            Some(Language::Hr)
        } else {
            None
        }
    }

    /// The language written as `name` in the configuration file (`en`, `hr`).
    pub fn from_code(name: &str) -> (r: Option<Language>)
        ensures
            r == Language::named_spec(name@),
    {
        if str_eq(name, "en") {
            Some(Language::En)
        } else if str_eq(name, "hr") {
            Some(Language::Hr)
        } else {
            None
        }
    }

    pub open spec fn now_prefix_spec(self) -> Seq<char> {
        match self {
            Language::En => "Now:"@,
            Language::Hr => "Sada:"@,
        }
    }

    /// Prefix for the current-conditions line, e.g. "Now:".
    pub fn now_prefix(self) -> (r: &'static str)
        ensures
            r@ == self.now_prefix_spec(),
    {
        match self {
            Language::En => "Now:",
            Language::Hr => "Sada:",
        }
    }

    pub open spec fn refreshed_prefix_spec(self) -> Seq<char> {
        match self {
            Language::En => "Refreshed"@,
            Language::Hr => "Osvjezeno"@,
        }
    }

    /// Prefix for the refresh-time line, e.g. "Refreshed".
    pub fn refreshed_prefix(self) -> (r: &'static str)
        ensures
            r@ == self.refreshed_prefix_spec(),
    {
        match self {
            Language::En => "Refreshed",
            Language::Hr => "Osvjezeno",
        }
    }
}

#[derive(Debug, Clone)]
pub struct Location {
    /// City name used for geocoding, e.g. "Zagreb".
    pub city: String,
    /// Optional ISO country code (e.g. "HR") to disambiguate the geocoding hit.
    pub country: Option<String>,
}

#[derive(Debug, Clone, Copy)]
pub struct Units {
    pub temperature: TemperatureUnit,
    pub wind: WindUnit,
    pub precipitation: PrecipitationUnit,
}

impl Default for Units {
    fn default() -> (r: Self)
        ensures
            r.temperature == TemperatureUnit::Celsius,
            r.wind == WindUnit::Kmh,
            r.precipitation == PrecipitationUnit::Mm,
    {
        Units {
            temperature: TemperatureUnit::Celsius,
            wind: WindUnit::Kmh,
            precipitation: PrecipitationUnit::Mm,
        }
    }
}

#[derive(Debug, Clone, Copy, PartialEq, Eq, Structural)]
pub enum TemperatureUnit {
    Celsius,
    Fahrenheit,
}

impl TemperatureUnit {
    pub open spec fn api_spec(self) -> Seq<char> {
        match self {
            TemperatureUnit::Celsius => "celsius"@,
            TemperatureUnit::Fahrenheit => "fahrenheit"@,
        }
    }

    /// Value for the Open-Meteo `temperature_unit` query parameter.
    pub fn api(self) -> (r: &'static str)
        ensures
            r@ == self.api_spec(),
    {
        match self {
            TemperatureUnit::Celsius => "celsius",
            TemperatureUnit::Fahrenheit => "fahrenheit",
        }
    }

    /// The unit whose configuration name (its API value) is `name`.
    pub open spec fn named_spec(name: Seq<char>) -> Option<TemperatureUnit> {
        if name == "celsius"@ {
            Some(TemperatureUnit::Celsius)
        } else if name == "fahrenheit"@ {
            Some(TemperatureUnit::Fahrenheit)
        } else {
            None
        }
    }

    /// The unit written as `name` in the configuration file (`celsius`, `fahrenheit`).
    pub fn from_api(name: &str) -> (r: Option<TemperatureUnit>)
        ensures
            r == TemperatureUnit::named_spec(name@),
    {
        if str_eq(name, "celsius") {
            Some(TemperatureUnit::Celsius)
        } else if str_eq(name, "fahrenheit") {
            Some(TemperatureUnit::Fahrenheit)
        } else {
            None
        }
    }

    pub open spec fn symbol_spec(self) -> Seq<char> {
        match self {
            TemperatureUnit::Celsius => "°C"@,
            TemperatureUnit::Fahrenheit => "°F"@,
        }
    }

    /// Unit symbol shown next to temperatures.
    pub fn symbol(self) -> (r: &'static str)
        ensures
            r@ == self.symbol_spec(),
    {
        match self {
            TemperatureUnit::Celsius => "°C",
            TemperatureUnit::Fahrenheit => "°F",
        }
    }
}

#[derive(Debug, Clone, Copy, PartialEq, Eq, Structural)]
pub enum WindUnit {
    Kmh,
    Ms,
    Mph,
    Kn,
}

impl WindUnit {
    pub open spec fn api_spec(self) -> Seq<char> {
        match self {
            WindUnit::Kmh => "kmh"@,
            WindUnit::Ms => "ms"@,
            WindUnit::Mph => "mph"@,
            WindUnit::Kn => "kn"@,
        }
    }

    /// Value for the Open-Meteo `wind_speed_unit` query parameter.
    pub fn api(self) -> (r: &'static str)
        ensures
            r@ == self.api_spec(),
    {
        match self {
            WindUnit::Kmh => "kmh",
            WindUnit::Ms => "ms",
            WindUnit::Mph => "mph",
            WindUnit::Kn => "kn",
        }
    }

    /// The unit whose configuration name (its API value) is `name`.
    pub open spec fn named_spec(name: Seq<char>) -> Option<WindUnit> {
        if name == "kmh"@ {
            Some(WindUnit::Kmh)
        } else if name == "ms"@ {
            Some(WindUnit::Ms)
        } else if name == "mph"@ {
            Some(WindUnit::Mph)
        } else if name == "kn"@ {
            Some(WindUnit::Kn)
        } else {
            None
        }
    }

    /// The unit written as `name` in the configuration file (`kmh`, `ms`, `mph`, `kn`).
    pub fn from_api(name: &str) -> (r: Option<WindUnit>)
        ensures
            r == WindUnit::named_spec(name@),
    {
        if str_eq(name, "kmh") {
            Some(WindUnit::Kmh)
        } else if str_eq(name, "ms") {
            Some(WindUnit::Ms)
        } else if str_eq(name, "mph") {
            Some(WindUnit::Mph)
        } else if str_eq(name, "kn") {
            Some(WindUnit::Kn)
        } else {
            None
        }
    }

    pub open spec fn symbol_spec(self) -> Seq<char> {
        match self {
            WindUnit::Kmh => "km/h"@,
            WindUnit::Ms => "m/s"@,
            WindUnit::Mph => "mph"@,
            WindUnit::Kn => "kn"@,
        }
    }

    /// Unit symbol shown next to wind speeds.
    pub fn symbol(self) -> (r: &'static str)
        ensures
            r@ == self.symbol_spec(),
    {
        match self {
            WindUnit::Kmh => "km/h",
            WindUnit::Ms => "m/s",
            WindUnit::Mph => "mph",
            WindUnit::Kn => "kn",
        }
    }
}

#[derive(Debug, Clone, Copy, PartialEq, Eq, Structural)]
pub enum PrecipitationUnit {
    Mm,
    Inch,
}

impl PrecipitationUnit {
    pub open spec fn api_spec(self) -> Seq<char> {
        match self {
            PrecipitationUnit::Mm => "mm"@,
            PrecipitationUnit::Inch => "inch"@,
        }
    }

    /// Value for the Open-Meteo `precipitation_unit` query parameter.
    pub fn api(self) -> (r: &'static str)
        ensures
            r@ == self.api_spec(),
    {
        match self {
            PrecipitationUnit::Mm => "mm",
            PrecipitationUnit::Inch => "inch",
        }
    }

    /// The unit whose configuration name (its API value) is `name`.
    pub open spec fn named_spec(name: Seq<char>) -> Option<PrecipitationUnit> {
        if name == "mm"@ {
            Some(PrecipitationUnit::Mm)
        } else if name == "inch"@ {
            Some(PrecipitationUnit::Inch)
        } else {
            None
        }
    }

    /// The unit written as `name` in the configuration file (`mm`, `inch`).
    pub fn from_api(name: &str) -> (r: Option<PrecipitationUnit>)
        ensures
            r == PrecipitationUnit::named_spec(name@),
    {
        if str_eq(name, "mm") {
            Some(PrecipitationUnit::Mm)
        } else if str_eq(name, "inch") {
            Some(PrecipitationUnit::Inch)
        } else {
            None
        }
    }
}

#[derive(Debug, Clone)]
pub struct Display {
    /// epd-waveshare module identifier, e.g. "epd7in5_v2".
    pub model: String,
    /// Rotation in degrees (0, 90, 180, 270).
    pub rotation: u16,
    /// Swap black/white if the panel renders colors inverted (background black).
    pub invert: bool,
    pub pins: Pins,
}

impl Default for Display {
    fn default() -> (r: Self)
        ensures
            r.model@ == "epd7in5_v2"@,
            r.rotation == 0,
            !r.invert,
            r.pins == Pins::default_spec(),
    {
        Display {
            model: "epd7in5_v2".to_owned(),
            rotation: 0,
            invert: false,
            pins: Pins::default(),
        }
    }
}

/// BCM GPIO pin numbers for the standard Waveshare e-Paper HAT wiring.
/// Chip-select uses SPI0 CE0 and is handled by the SPI peripheral.
#[derive(Debug, Clone, Copy, PartialEq, Eq, Structural)]
pub struct Pins {
    pub reset: u8,
    pub dc: u8,
    pub busy: u8,
    /// Power-enable pin. Newer HATs gate panel power on this line; it must be
    /// driven high before the controller will respond. Set to 255 to disable.
    pub power: u8,
}

impl Pins {
    pub open spec fn default_spec() -> Pins {
        Pins { reset: 17, dc: 25, busy: 24, power: 18 }
    }
}

impl Default for Pins {
    fn default() -> (r: Self)
        ensures
            r == Pins::default_spec(),
    {
        Pins { reset: 17, dc: 25, busy: 24, power: 18 }
    }
}

#[derive(Debug, Clone, Copy, PartialEq, Eq, Structural)]
pub struct Refresh {
    pub interval_minutes: u32,
}

impl Default for Refresh {
    fn default() -> (r: Self)
        ensures
            r.interval_minutes == 60,
    {
        Refresh { interval_minutes: 60 }
    }
}

/// Reading back the configuration name of a language gives that language.
pub proof fn law_language_code_round_trip(lang: Language)
    ensures
        Language::named_spec(lang.code_spec()) == Some(lang),
{
    reveal_strlit("en");
    reveal_strlit("hr");
    assert("en"@[0] != "hr"@[0]);
}

/// Reading back the configuration name of a temperature unit, which is also
/// its Open-Meteo value, gives that unit.
pub proof fn law_temperature_name_round_trip(unit: TemperatureUnit)
    ensures
        TemperatureUnit::named_spec(unit.api_spec()) == Some(unit),
{
    reveal_strlit("celsius");
    reveal_strlit("fahrenheit");
    assert("celsius"@.len() != "fahrenheit"@.len());
}

/// Reading back the configuration name of a wind unit, which is also its
/// Open-Meteo value, gives that unit.
pub proof fn law_wind_name_round_trip(unit: WindUnit)
    ensures
        WindUnit::named_spec(unit.api_spec()) == Some(unit),
{
    reveal_strlit("kmh");
    reveal_strlit("ms");
    reveal_strlit("mph");
    reveal_strlit("kn");
    assert("kmh"@.len() != "ms"@.len());
    assert("kmh"@[0] != "mph"@[0]);
    assert("kmh"@.len() != "kn"@.len());
    assert("ms"@.len() != "mph"@.len());
    assert("ms"@[0] != "kn"@[0]);
    assert("mph"@.len() != "kn"@.len());
}

/// Reading back the configuration name of a precipitation unit, which is
/// also its Open-Meteo value, gives that unit.
pub proof fn law_precipitation_name_round_trip(unit: PrecipitationUnit)
    ensures
        PrecipitationUnit::named_spec(unit.api_spec()) == Some(unit),
{
    reveal_strlit("mm");
    reveal_strlit("inch");
    assert("mm"@.len() != "inch"@.len());
}

} // verus!
