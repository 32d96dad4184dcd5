use eink::config::{
    Config, Display, Language, Location, Refresh, Units, WeatherProvider,
};
use eink::weather::geocode::{cache_usable, choose_hit, display_name, geo_key, Place};

fn place(name: &str, code: Option<&str>, tz: Option<&str>) -> Place {
    Place {
        name: name.to_string(),
        country: Some(format!("{name} land")),
        country_code: code.map(|c| c.to_string()),
        timezone: tz.map(|t| t.to_string()),
    }
}

fn geo_config(city: &str, country: Option<&str>, language: Language) -> Config {
    Config {
        location: Location { city: city.to_string(), country: country.map(|c| c.to_string()) },
        provider: WeatherProvider::MetNo,
        language,
        units: Units::default(),
        display: Display::default(),
        refresh: Refresh::default(),
    }
}

#[test]
fn prefers_a_hit_in_the_configured_country() {
    let hits = vec![
        place("Split", Some("US"), None),
        place("Split", None, None),
        place("Split", Some("hr"), None),
        place("Split", Some("HR"), None),
    ];
    assert_eq!(choose_hit(&hits, &Some("HR".to_string())), Some(2));
    assert_eq!(choose_hit(&hits, &Some("DE".to_string())), Some(0));
    assert_eq!(choose_hit(&hits, &None), Some(0));
    assert_eq!(choose_hit(&vec![], &None), None);
}

#[test]
fn reuses_cache_only_for_same_key_with_timezone() {
    let key = geo_key(&geo_config("Zagreb", Some("HR"), Language::Hr));
    assert_eq!(key.city, "Zagreb");
    assert_eq!(key.country, Some("HR".to_string()));
    assert_eq!(key.language, "hr");
    let with_tz = place("Zagreb", Some("HR"), Some("Europe/Zagreb"));
    let without_tz = place("Zagreb", Some("HR"), None);
    assert!(cache_usable(&key, &with_tz, &key));
    assert!(!cache_usable(&key, &without_tz, &key));
    let other = geo_key(&geo_config("Zagreb", Some("HR"), Language::En));
    assert!(!cache_usable(&other, &with_tz, &key));
    let other = geo_key(&geo_config("Zagreb", None, Language::Hr));
    assert!(!cache_usable(&other, &with_tz, &key));
}

#[test]
fn names_places_with_their_country() {
    let mut p = place("Zagreb", Some("HR"), None);
    p.country = Some("Republika Hrvatska".to_string());
    assert_eq!(display_name(&p, Language::Hr), "Zagreb, Hrvatska");
    assert_eq!(display_name(&p, Language::En), "Zagreb, Republika Hrvatska");
    p.country = None;
    p.country_code = None;
    assert_eq!(display_name(&p, Language::En), "Zagreb");
}
