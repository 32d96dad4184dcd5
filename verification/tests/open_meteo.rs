use eink::config::{
    Config, Display, Language, Location, Refresh, TemperatureUnit, Units, WeatherProvider,
};
use eink::weather::geocode::Place;
use eink::weather::model::Condition;
use eink::weather::open_meteo::{
    build_days, forecast_at, localized_country, now_local_secs, CurrentBlock, DailyBlock, ForecastResponse,
};
use eink::weather::WeatherError;

fn open_meteo_fixture() -> ForecastResponse {
    ForecastResponse {
        utc_offset_seconds: 0,
        current: CurrentBlock { temperature_2m: 21_400, weather_code: 2 },
        daily: DailyBlock {
            time: vec![
                "2026-06-17".to_string(),
                "2026-06-18".to_string(),
                "2026-06-19".to_string(),
            ],
            weather_code: vec![Some(2), Some(61), Some(95)],
            temperature_2m_max: vec![Some(25_100), Some(22_000), Some(19_500)],
            temperature_2m_min: vec![Some(14_200), Some(13_000), Some(12_100)],
            precipitation_probability_max: vec![Some(10_000), Some(80_000), None],
        },
    }
}

fn open_meteo_config(language: Language) -> Config {
    Config {
        location: Location { city: "Zagreb".to_string(), country: Some("HR".to_string()) },
        provider: WeatherProvider::OpenMeteo,
        language,
        units: Units::default(),
        display: Display::default(),
        refresh: Refresh::default(),
    }
}

#[test]
fn parses_forecast_fixture() {
    let raw = open_meteo_fixture();
    assert_eq!(raw.current.weather_code, 2);

    let days = build_days(&raw.daily).unwrap();
    assert_eq!(days.len(), 3);
    assert_eq!(days[0].condition, Condition::PartlyCloudy);
    assert_eq!(days[1].condition, Condition::Rain);
    assert_eq!(days[1].precip_prob, Some(80));
    assert_eq!(days[2].precip_prob, None);
    assert_eq!(days[0].date.weekday_short(Language::En), "Wed");
}

#[test]
fn skips_unparseable_slots_and_fills_missing_values() {
    let daily = DailyBlock {
        time: vec!["garbage".to_string(), "2026-06-18".to_string()],
        weather_code: vec![Some(61)],
        temperature_2m_max: vec![],
        temperature_2m_min: vec![Some(1_000), None],
        precipitation_probability_max: vec![],
    };
    let days = build_days(&daily).unwrap();
    assert_eq!(days.len(), 1);
    assert_eq!((days[0].date.month, days[0].date.day), (6, 18));
    assert_eq!(days[0].condition, Condition::Unknown);
    assert_eq!(days[0].temp_max, 0);
    assert_eq!(days[0].temp_min, 0);
    assert_eq!(days[0].precip_prob, None);
}

#[test]
fn reads_weather_codes_as_bytes() {
    // Codes are read as bytes: 317 as u8 == 61 (rain).
    let daily = DailyBlock {
        time: vec!["2026-06-18".to_string()],
        weather_code: vec![Some(317)],
        temperature_2m_max: vec![Some(1)],
        temperature_2m_min: vec![Some(1)],
        precipitation_probability_max: vec![Some(-3_000)],
    };
    let days = build_days(&daily).unwrap();
    assert_eq!(days[0].condition, Condition::Rain);
    assert_eq!(days[0].precip_prob, Some(0));
}

#[test]
fn reports_empty_daily_blocks() {
    let empty = DailyBlock {
        time: vec![],
        weather_code: vec![],
        temperature_2m_max: vec![],
        temperature_2m_min: vec![],
        precipitation_probability_max: vec![],
    };
    assert_eq!(build_days(&empty).unwrap_err(), WeatherError::NoDailyEntries);
    let unparseable = DailyBlock { time: vec!["soon".to_string()], ..empty };
    assert_eq!(build_days(&unparseable).unwrap_err(), WeatherError::NoParseableDailyEntries);
}

#[test]
fn localizes_croatia_for_croatian_only() {
    assert_eq!(
        localized_country(Some("hr"), Some("Republika Hrvatska".to_string()), Language::Hr),
        Some("Hrvatska".to_string())
    );
    assert_eq!(
        localized_country(Some("HR"), Some("Croatia".to_string()), Language::En),
        Some("Croatia".to_string())
    );
    assert_eq!(localized_country(Some("DE"), None, Language::Hr), None);
}

#[test]
fn assembles_open_meteo_forecast() {
    let place = Place {
        name: "Zagreb".to_string(),
        country: Some("Croatia".to_string()),
        country_code: Some("HR".to_string()),
        timezone: None,
    };
    let f = forecast_at(&place, &open_meteo_fixture(), &open_meteo_config(Language::En), 1_781_733_900).unwrap();
    assert_eq!(f.location_name, "Zagreb, Croatia");
    assert_eq!(f.current.temperature, 21_400);
    assert_eq!(f.current.condition, Condition::PartlyCloudy);
    assert_eq!(f.days.len(), 3);
    assert_eq!(f.temperature_symbol, "°C");
    assert_eq!(f.refreshed_at, "Wed 17 Jun 22:05");

    let f = forecast_at(&place, &open_meteo_fixture(), &open_meteo_config(Language::Hr), 0).unwrap();
    assert_eq!(f.location_name, "Zagreb, Hrvatska");

    let mut units = Units::default();
    units.temperature = TemperatureUnit::Fahrenheit;
    let mut cfg = open_meteo_config(Language::En);
    cfg.units = units;
    let f = forecast_at(&place, &open_meteo_fixture(), &cfg, 0).unwrap();
    assert_eq!(f.temperature_symbol, "°F");
}

#[test]
fn shifts_the_clock_by_the_reported_offset() {
    assert_eq!(now_local_secs(1_781_733_900, 7_200), 1_781_741_100);
    assert_eq!(now_local_secs(100, -3_600), -3_500);
    assert_eq!(now_local_secs(i64::MAX, 1), i64::MIN);
}
