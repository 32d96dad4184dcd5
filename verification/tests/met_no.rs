use eink::config::{
    Config, Display, Language, Location, Refresh, TemperatureUnit, Units, WeatherProvider,
};
use eink::weather::geocode::Place;
use eink::weather::met_no::{
    assemble, fold_series, forecast_from_response, temperatures_in_range, forecast_at, local_secs, resolve_zone, Entry, EntryData, Instant,
    InstantDetails, LocalTime, MetResponse, Period, PeriodDetails, Properties, Summary,
};
use eink::weather::model::Condition;
use eink::weather::WeatherError;

fn period(symbol: &str, max: Option<i64>, min: Option<i64>, prob: Option<i64>) -> Period {
    Period {
        summary: Summary { symbol_code: Some(symbol.to_string()) },
        details: Some(PeriodDetails {
            air_temperature_max: max,
            air_temperature_min: min,
            probability_of_precipitation: prob,
        }),
    }
}

fn entry(time: &str, temp: Option<i64>, next_1: Option<Period>, next_6: Option<Period>) -> Entry {
    Entry {
        time: time.to_string(),
        data: EntryData {
            instant: Instant { details: InstantDetails { air_temperature: temp } },
            next_1_hours: next_1,
            next_6_hours: next_6,
        },
    }
}

fn met_no_fixture() -> MetResponse {
    MetResponse {
        properties: Properties {
            timeseries: vec![
                entry(
                    "2026-06-22T10:00:00Z",
                    Some(19_000),
                    Some(period("clearsky_day", None, None, Some(5_000))),
                    Some(period("fair_day", Some(26_000), Some(15_000), Some(10_000))),
                ),
                entry(
                    "2026-06-22T22:00:00Z",
                    Some(14_000),
                    None,
                    Some(period("rain", Some(16_000), Some(12_000), Some(70_000))),
                ),
                entry(
                    "2026-06-23T12:00:00Z",
                    Some(22_000),
                    None,
                    Some(period(
                        "heavyrainshowersandthunder_day",
                        Some(24_000),
                        Some(18_000),
                        Some(90_000),
                    )),
                ),
            ],
        },
    }
}

#[test]
fn assembles_forecast_in_local_timezone() {
    let raw = met_no_fixture();
    // Europe/Zagreb is UTC+2 in June, so 2026-06-22T22:00Z is still the 23rd
    // locally — verify the day grouping respects the local timezone.
    let (current, days) = assemble(&raw, "Europe/Zagreb", TemperatureUnit::Celsius).unwrap();

    assert_eq!(current.temperature, 19_000);
    assert_eq!(current.condition, Condition::Clear);

    // 22:00Z -> 00:00 local on the 23rd, so it lands on day two, not day one.
    assert_eq!(days.len(), 2);
    let (jun22, jun23) = (&days[0], &days[1]);

    assert_eq!((jun22.date.month, jun22.date.day), (6, 22));
    assert_eq!(jun22.temp_max, 26_000);
    assert_eq!(jun22.temp_min, 15_000);
    assert_eq!(jun22.precip_prob, Some(10));
    // 10:00Z == 12:00 local: the noon-closest sample, whose finer-grained
    // next_1_hours symbol ("clearsky_day") wins.
    assert_eq!(jun22.condition, Condition::Clear);

    assert_eq!((jun23.date.month, jun23.date.day), (6, 23));
    assert_eq!(jun23.temp_max, 24_000);
    assert_eq!(jun23.precip_prob, Some(90));
    assert_eq!(jun23.condition, Condition::Thunderstorm);
}

#[test]
fn converts_to_fahrenheit() {
    let raw = met_no_fixture();
    let (current, _) = assemble(&raw, "Europe/Zagreb", TemperatureUnit::Fahrenheit).unwrap();
    // 19 C == 66.2 F
    assert_eq!(current.temperature, 66_200);
}

#[test]
fn groups_by_utc_days_in_utc() {
    let (_, days) = assemble(&met_no_fixture(), "UTC", TemperatureUnit::Celsius).unwrap();
    assert_eq!(days.len(), 2);
    assert_eq!((days[0].date.month, days[0].date.day), (6, 22));
    assert_eq!(days[0].temp_min, 12_000);
    assert_eq!(days[0].precip_prob, Some(70));
    assert_eq!(days[1].temp_max, 24_000);
}

#[test]
fn keeps_at_most_seven_days() {
    let mut timeseries = Vec::new();
    for day in 1..=9 {
        timeseries.push(entry(&format!("2026-07-0{day}T12:00:00Z"), Some(day * 1_000), None, None));
    }
    let raw = MetResponse { properties: Properties { timeseries } };
    let (_, days) = assemble(&raw, "UTC", TemperatureUnit::Celsius).unwrap();
    assert_eq!(days.len(), 7);
    assert_eq!(days[6].date.day, 7);
    assert_eq!(days[6].temp_max, 7_000);
    assert_eq!(days[6].condition, Condition::Unknown);
    assert_eq!(days[6].precip_prob, None);
}

#[test]
fn reports_each_assembly_error() {
    let empty = MetResponse { properties: Properties { timeseries: vec![] } };
    assert_eq!(
        assemble(&empty, "UTC", TemperatureUnit::Celsius).unwrap_err(),
        WeatherError::NoTimeseries
    );
    let no_temp = MetResponse {
        properties: Properties { timeseries: vec![entry("2026-07-01T12:00:00Z", None, None, None)] },
    };
    assert_eq!(
        assemble(&no_temp, "UTC", TemperatureUnit::Celsius).unwrap_err(),
        WeatherError::MissingCurrentTemperature
    );
    let bad_time = MetResponse {
        properties: Properties { timeseries: vec![entry("yesterday", Some(1), None, None)] },
    };
    assert_eq!(
        assemble(&bad_time, "UTC", TemperatureUnit::Celsius).unwrap_err(),
        WeatherError::NoParseableDays
    );
}

#[test]
fn falls_back_to_utc_for_unknown_zones() {
    let mut place = Place {
        name: "Zagreb".to_string(),
        country: Some("Croatia".to_string()),
        country_code: Some("HR".to_string()),
        timezone: Some("Europe/Zagreb".to_string()),
    };
    assert_eq!(resolve_zone(&place), "Europe/Zagreb");
    place.timezone = Some("Mars/Olympus".to_string());
    assert_eq!(resolve_zone(&place), "UTC");
    place.timezone = None;
    assert_eq!(resolve_zone(&place), "UTC");
}

#[test]
fn shifts_into_local_time() {
    // 2026-06-22T10:00Z: Zagreb is two hours ahead in summer, one in winter.
    assert_eq!(local_secs("Europe/Zagreb", 1_782_122_400), 1_782_122_400 + 7_200);
    assert_eq!(local_secs("Europe/Zagreb", 1_767_225_600), 1_767_225_600 + 3_600);
    assert_eq!(local_secs("UTC", 1_767_225_600), 1_767_225_600);
}

#[test]
fn assembles_met_no_forecast() {
    let place = Place {
        name: "Zagreb".to_string(),
        country: Some("Republika Hrvatska".to_string()),
        country_code: Some("HR".to_string()),
        timezone: Some("Europe/Zagreb".to_string()),
    };
    let config = Config {
        location: Location { city: "Zagreb".to_string(), country: None },
        provider: WeatherProvider::MetNo,
        language: Language::Hr,
        units: Units::default(),
        display: Display::default(),
        refresh: Refresh::default(),
    };
    let f = forecast_at(&place, &met_no_fixture(), &config, 0).unwrap();
    assert_eq!(f.location_name, "Zagreb, Hrvatska");
    assert_eq!(f.days.len(), 2);
    assert_eq!(f.refreshed_at, "Thu 1 Jan 00:00");
    assert_eq!(f.temperature_symbol, "°C");
}

fn local(month: u32, day: u32, hour: u32) -> Option<LocalTime> {
    Some(LocalTime { year: 2026, month, day, hour, minute: 0 })
}

#[test]
fn folds_series_by_the_given_local_times() {
    let raw = met_no_fixture();
    // The local times of the Zagreb case, handed in directly.
    let locals = vec![local(6, 22, 12), local(6, 23, 0), local(6, 23, 14)];
    let (current, days) = fold_series(&raw, &locals, TemperatureUnit::Celsius).unwrap();
    assert_eq!(current.temperature, 19_000);
    assert_eq!(days.len(), 2);
    assert_eq!((days[0].date.month, days[0].date.day), (6, 22));
    assert_eq!(days[0].precip_prob, Some(10));
    assert_eq!(days[0].condition, Condition::Clear);
    assert_eq!((days[1].date.month, days[1].date.day), (6, 23));
    assert_eq!(days[1].temp_max, 24_000);
    assert_eq!(days[1].precip_prob, Some(90));
    assert_eq!(days[1].condition, Condition::Thunderstorm);

    // An entry without a local time joins no day.
    let locals = vec![local(6, 22, 12), local(6, 23, 0), None];
    let (_, days) = fold_series(&raw, &locals, TemperatureUnit::Celsius).unwrap();
    assert_eq!(days.len(), 2);
    assert_eq!(days[1].temp_max, 16_000);
    assert_eq!(days[1].precip_prob, Some(70));

    // No entry with a local time: no day at all.
    let err = fold_series(&raw, &vec![None, None, None], TemperatureUnit::Celsius).unwrap_err();
    assert_eq!(err, WeatherError::NoParseableDays);
}

#[test]
fn converts_to_the_nearest_thousandth_of_a_degree() {
    for (celsius, fahrenheit) in [(1, 32_002), (-1, 31_998), (-17_778, 0), (100_000, 212_000)] {
        let raw = MetResponse {
            properties: Properties {
                timeseries: vec![entry("2026-07-01T12:00:00Z", Some(celsius), None, None)],
            },
        };
        let (current, _) = assemble(&raw, "UTC", TemperatureUnit::Fahrenheit).unwrap();
        assert_eq!(current.temperature, fahrenheit, "{celsius}");
    }
}

#[test]
fn refuses_fahrenheit_beyond_the_temperature_limit() {
    let place = Place {
        name: "Zagreb".to_string(),
        country: None,
        country_code: None,
        timezone: Some("UTC".to_string()),
    };
    let mut config = Config {
        location: Location { city: "Zagreb".to_string(), country: None },
        provider: WeatherProvider::MetNo,
        language: Language::En,
        units: Units::default(),
        display: Display::default(),
        refresh: Refresh::default(),
    };
    let hot = MetResponse {
        properties: Properties {
            timeseries: vec![entry("2026-07-01T12:00:00Z", Some(i64::MAX), None, None)],
        },
    };
    assert!(!temperatures_in_range(&hot));
    assert!(temperatures_in_range(&met_no_fixture()));
    let f = forecast_from_response(&place, &hot, &config).unwrap().unwrap();
    assert_eq!(f.current.temperature, i64::MAX);
    assert!(f.refreshed_at.len() >= 15);
    config.units.temperature = TemperatureUnit::Fahrenheit;
    assert!(forecast_from_response(&place, &hot, &config).is_none());
    let f = forecast_from_response(&place, &met_no_fixture(), &config).unwrap().unwrap();
    assert_eq!(f.current.temperature, 66_200);
}
