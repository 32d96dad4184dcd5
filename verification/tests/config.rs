use eink::config::{
    Display, Language, Pins, PrecipitationUnit, Refresh, TemperatureUnit, Units, WeatherProvider,
    WindUnit,
};
use eink::output::{canvas_size, panel_black, power_pin, rotation, Rotation};

#[test]
fn defaults_match_the_documented_configuration() {
    let units = Units::default();
    assert_eq!(units.temperature, TemperatureUnit::Celsius);
    assert_eq!(units.wind, WindUnit::Kmh);
    assert_eq!(units.precipitation, PrecipitationUnit::Mm);
    let display = Display::default();
    assert_eq!(display.model, "epd7in5_v2");
    assert_eq!(display.rotation, 0);
    assert!(!display.invert);
    assert_eq!(display.pins, Pins { reset: 17, dc: 25, busy: 24, power: 18 });
    assert_eq!(Refresh::default().interval_minutes, 60);
    assert_eq!(WeatherProvider::default(), WeatherProvider::OpenMeteo);
    assert_eq!(Language::default(), Language::En);
}

#[test]
fn maps_units_to_api_values_and_symbols() {
    assert_eq!(TemperatureUnit::Celsius.api(), "celsius");
    assert_eq!(TemperatureUnit::Fahrenheit.api(), "fahrenheit");
    assert_eq!(TemperatureUnit::Celsius.symbol(), "°C");
    assert_eq!(TemperatureUnit::Fahrenheit.symbol(), "°F");
    assert_eq!(WindUnit::Kmh.api(), "kmh");
    assert_eq!(WindUnit::Ms.api(), "ms");
    assert_eq!(WindUnit::Mph.api(), "mph");
    assert_eq!(WindUnit::Kn.api(), "kn");
    assert_eq!(WindUnit::Kmh.symbol(), "km/h");
    assert_eq!(WindUnit::Ms.symbol(), "m/s");
    assert_eq!(PrecipitationUnit::Mm.api(), "mm");
    assert_eq!(PrecipitationUnit::Inch.api(), "inch");
}

#[test]
fn language_strings() {
    assert_eq!(Language::En.code(), "en");
    assert_eq!(Language::Hr.code(), "hr");
    assert_eq!(Language::En.now_prefix(), "Now:");
    assert_eq!(Language::Hr.now_prefix(), "Sada:");
    assert_eq!(Language::En.refreshed_prefix(), "Refreshed");
    assert_eq!(Language::Hr.refreshed_prefix(), "Osvjezeno");
}

fn config_with_rotation(degrees: u16) -> eink::config::Config {
    let mut display = Display::default();
    display.rotation = degrees;
    eink::config::Config {
        location: eink::config::Location { city: "Zagreb".to_string(), country: None },
        provider: WeatherProvider::OpenMeteo,
        language: Language::En,
        units: Units::default(),
        display,
        refresh: Refresh::default(),
    }
}

#[test]
fn quarter_turns_swap_the_canvas() {
    assert_eq!(canvas_size(&config_with_rotation(0)), (800, 480));
    assert_eq!(canvas_size(&config_with_rotation(90)), (480, 800));
    assert_eq!(canvas_size(&config_with_rotation(180)), (800, 480));
    assert_eq!(canvas_size(&config_with_rotation(270)), (480, 800));
    assert_eq!(canvas_size(&config_with_rotation(45)), (800, 480));
}

#[test]
fn maps_rotation_angles() {
    assert_eq!(rotation(0), Rotation::Rotate0);
    assert_eq!(rotation(90), Rotation::Rotate90);
    assert_eq!(rotation(180), Rotation::Rotate180);
    assert_eq!(rotation(270), Rotation::Rotate270);
    assert_eq!(rotation(360), Rotation::Rotate0);
}

#[test]
fn reads_back_configuration_names() {
    for lang in [Language::En, Language::Hr] {
        assert_eq!(Language::from_code(lang.code()), Some(lang));
    }
    for unit in [TemperatureUnit::Celsius, TemperatureUnit::Fahrenheit] {
        assert_eq!(TemperatureUnit::from_api(unit.api()), Some(unit));
    }
    for unit in [WindUnit::Kmh, WindUnit::Ms, WindUnit::Mph, WindUnit::Kn] {
        assert_eq!(WindUnit::from_api(unit.api()), Some(unit));
    }
    for unit in [PrecipitationUnit::Mm, PrecipitationUnit::Inch] {
        assert_eq!(PrecipitationUnit::from_api(unit.api()), Some(unit));
    }
    assert_eq!(Language::from_code("EN"), None);
    assert_eq!(Language::from_code("de"), None);
    assert_eq!(TemperatureUnit::from_api("kelvin"), None);
    assert_eq!(WindUnit::from_api("km/h"), None);
    assert_eq!(PrecipitationUnit::from_api(""), None);
}

#[test]
fn picks_panel_colours_and_power_pin() {
    assert!(panel_black(true, false));
    assert!(!panel_black(false, false));
    assert!(!panel_black(true, true));
    assert!(panel_black(false, true));
    let mut pins = Display::default().pins;
    assert_eq!(power_pin(&pins), Some(18));
    pins.power = 255;
    assert_eq!(power_pin(&pins), None);
}
