use eink::config::Language;
use eink::weather::model::{
    format_local_timestamp, format_refreshed_at, round_percent, Condition, Date,
};

#[test]
fn parses_iso_date_and_weekday() {
    let d = Date::parse("2026-06-17").unwrap();
    assert_eq!((d.year, d.month, d.day), (2026, 6, 17));
    // 2026-06-17 is a Wednesday.
    assert_eq!(d.weekday_short(Language::En), "Wed");
    assert_eq!(d.weekday_short(Language::Hr), "Sri");
    assert_eq!(d.month_short(Language::En), "Jun");
    assert_eq!(d.month_short(Language::Hr), "Lip");
}

#[test]
fn parses_date_from_timestamp() {
    let d = Date::parse("2026-12-25T13:00").unwrap();
    assert_eq!(d.weekday_short(Language::En), "Fri");
}

#[test]
fn maps_wmo_codes() {
    assert_eq!(Condition::from_wmo(0), Condition::Clear);
    assert_eq!(Condition::from_wmo(2), Condition::PartlyCloudy);
    assert_eq!(Condition::from_wmo(65), Condition::Rain);
    assert_eq!(Condition::from_wmo(95), Condition::Thunderstorm);
    assert_eq!(Condition::from_wmo(200), Condition::Unknown);
}

#[test]
fn maps_every_wmo_group() {
    assert_eq!(Condition::from_wmo(1), Condition::MainlyClear);
    assert_eq!(Condition::from_wmo(3), Condition::Overcast);
    assert_eq!(Condition::from_wmo(48), Condition::Fog);
    assert_eq!(Condition::from_wmo(53), Condition::Drizzle);
    assert_eq!(Condition::from_wmo(66), Condition::FreezingRain);
    assert_eq!(Condition::from_wmo(77), Condition::Snow);
    assert_eq!(Condition::from_wmo(81), Condition::Showers);
    assert_eq!(Condition::from_wmo(86), Condition::SnowShowers);
    assert_eq!(Condition::from_wmo(99), Condition::Thunderstorm);
    assert_eq!(Condition::from_wmo(4), Condition::Unknown);
}

#[test]
fn maps_met_symbols() {
    assert_eq!(Condition::from_met_symbol("clearsky_day"), Condition::Clear);
    assert_eq!(Condition::from_met_symbol("fair_night"), Condition::MainlyClear);
    assert_eq!(Condition::from_met_symbol("partlycloudy_polartwilight"), Condition::PartlyCloudy);
    assert_eq!(Condition::from_met_symbol("cloudy"), Condition::Overcast);
    assert_eq!(Condition::from_met_symbol("fog"), Condition::Fog);
    assert_eq!(Condition::from_met_symbol("rain"), Condition::Rain);
    assert_eq!(Condition::from_met_symbol("lightrainshowers_day"), Condition::Showers);
    assert_eq!(Condition::from_met_symbol("heavysleet"), Condition::FreezingRain);
    assert_eq!(Condition::from_met_symbol("snowshowers_night"), Condition::SnowShowers);
    assert_eq!(Condition::from_met_symbol("lightsnow"), Condition::Snow);
    assert_eq!(
        Condition::from_met_symbol("heavyrainshowersandthunder_day"),
        Condition::Thunderstorm
    );
    assert_eq!(Condition::from_met_symbol("sunny"), Condition::Unknown);
}

#[test]
fn labels_conditions_in_both_languages() {
    assert_eq!(Condition::PartlyCloudy.label(Language::En), "Partly cloudy");
    assert_eq!(Condition::PartlyCloudy.label(Language::Hr), "Djelomicno oblacno");
    assert_eq!(Condition::Unknown.label(Language::En), "—");
    assert_eq!(Condition::Unknown.label(Language::Hr), "—");
}

#[test]
fn rejects_malformed_dates() {
    assert_eq!(Date::parse(""), None);
    assert_eq!(Date::parse("2026"), None);
    assert_eq!(Date::parse("2026-06"), None);
    assert_eq!(Date::parse("2026-13-01"), None);
    assert_eq!(Date::parse("2026-00-01"), None);
    assert_eq!(Date::parse("2026-06-32"), None);
    assert_eq!(Date::parse("2026-06-00"), None);
    assert_eq!(Date::parse("2026-06-1x"), None);
    assert_eq!(Date::parse("x026-06-17"), None);
    assert_eq!(Date::parse("99999999999-06-17"), None);
}

#[test]
fn parses_dates_as_rust_integers_do() {
    // Signs are accepted where `str::parse` accepts them; extra fields are ignored.
    assert_eq!(
        Date::parse("+2026-+6-17"),
        Some(Date { year: 2026, month: 6, day: 17 })
    );
    assert_eq!(
        Date::parse("2026-06-17-extra"),
        Some(Date { year: 2026, month: 6, day: 17 })
    );
    assert_eq!(
        Date::parse("2026-06-17 08:00"),
        Some(Date { year: 2026, month: 6, day: 17 })
    );
    assert_eq!(Date::parse("-2026-06-17"), None);
}

#[test]
fn names_months_and_weekdays() {
    let d = Date { year: 2024, month: 2, day: 29 };
    assert_eq!(d.weekday_short(Language::En), "Thu");
    assert_eq!(d.month_short(Language::Hr), "Velj");
    let d = Date { year: 2000, month: 1, day: 1 };
    assert_eq!(d.weekday_short(Language::En), "Sat");
    assert_eq!(d.weekday_short(Language::Hr), "Sub");
    assert_eq!(d.month_short(Language::En), "Jan");
}

#[test]
fn formats_local_timestamps() {
    // 2026-06-17 22:05 UTC
    assert_eq!(format_local_timestamp(1_781_733_900), "17.06 22:05");
    assert_eq!(format_local_timestamp(0), "01.01 00:00");
    assert_eq!(format_local_timestamp(-1), "31.12 23:59");
    // 2024-02-29 12:34:56
    assert_eq!(format_local_timestamp(1_709_210_096), "29.02 12:34");
}

#[test]
fn rounds_and_clamps_percentages() {
    assert_eq!(round_percent(10_000), 10);
    assert_eq!(round_percent(10_499), 10);
    assert_eq!(round_percent(10_500), 11);
    assert_eq!(round_percent(-400), 0);
    assert_eq!(round_percent(-600), 0);
    assert_eq!(round_percent(150_000), 100);
}

#[test]
fn epoch_day_is_a_thursday() {
    // Day 0 is 1970-01-01, a Thursday; the weekday advances one per day.
    let d = Date::parse("1970-01-01").unwrap();
    assert_eq!(d.weekday_short(Language::En), "Thu");
    assert_eq!(format_local_timestamp(0), "01.01 00:00");
    let d = Date::parse("1970-01-02").unwrap();
    assert_eq!(d.weekday_short(Language::En), "Fri");
    assert_eq!(format_local_timestamp(86_400), "02.01 00:00");
    // 2000-02-29 exists (400-year rule), 2100-02-29 does not.
    assert_eq!(format_local_timestamp(951_782_400), "29.02 00:00");
    assert_eq!(format_local_timestamp(4_107_542_400), "01.03 00:00");
}

#[test]
fn counts_days_from_the_unix_epoch() {
    let cases = [
        (0, 1970, 1, 1, "Thu"),
        (19_000, 2022, 1, 8, "Sat"),
        (-1, 1969, 12, 31, "Wed"),
        (-719_162, 1, 1, 1, "Mon"),
        (20_626, 2026, 6, 22, "Mon"),
    ];
    for (n, year, month, day, weekday) in cases {
        let d = Date::from_days_since_epoch(n);
        assert_eq!((d.year, d.month, d.day), (year, month, day), "day {n}");
        assert_eq!(d.weekday_short(Language::En), weekday, "day {n}");
    }
}

#[test]
fn formats_refresh_times() {
    // 2026-06-17 22:05, a Wednesday.
    assert_eq!(format_refreshed_at(1_781_733_900), "Wed 17 Jun 22:05");
    assert_eq!(format_refreshed_at(0), "Thu 1 Jan 00:00");
    assert_eq!(format_refreshed_at(-1), "Wed 31 Dec 23:59");
    // 2024-02-29 12:34:56, a Thursday.
    assert_eq!(format_refreshed_at(1_709_210_096), "Thu 29 Feb 12:34");
}

#[test]
fn reads_back_decimal_dates() {
    for (y, m, d) in [(2026, 6, 17), (0, 1, 1), (12, 12, 31), (2026, 2, 31)] {
        let parsed = Date::parse(&format!("{y}-{m}-{d}")).unwrap();
        assert_eq!((parsed.year, parsed.month, parsed.day), (y, m, d));
    }
    for (y, m, d) in [(2026, 0, 1), (2026, 13, 1), (2026, 6, 0), (2026, 6, 32)] {
        assert!(Date::parse(&format!("{y}-{m}-{d}")).is_none());
    }
}

#[test]
fn timestamps_are_eleven_characters_of_whole_minutes() {
    for t in [0i64, -1, 59, 1_781_733_900, 1_781_733_959, -86_401, 1_000_000_000_000] {
        let text = format_local_timestamp(t);
        assert_eq!(text.chars().count(), 11, "{t}");
        assert_eq!(format_local_timestamp(t - t.rem_euclid(60)), text, "{t}");
        assert_eq!(format_refreshed_at(t - t.rem_euclid(60)), format_refreshed_at(t), "{t}");
    }
}
