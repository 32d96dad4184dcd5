//! Open-Meteo forecasts folded into the display model.
//!
//! The response's numbers arrive here as integers: temperatures in thousandths
//! of a degree and probabilities in thousandths of a percent.

use vstd::prelude::*;

use crate::config::{Config, Language};
use crate::text::{eq_ignore_ascii_case, str_eq_ignore_ascii_case};

use super::geocode::{opt_str_view, opt_view, Place};
use super::model::{
    format_refreshed_at, refreshed_text, parse_date_spec, percent_from_milli,
    round_percent, wmo_condition, Condition, Current, Date, Day, Forecast,
};
use super::WeatherError;

verus! {

/// Forecast days requested from Open-Meteo.
pub const FORECAST_DAYS: u32 = 7;

/// The `current` block of a forecast response.
#[derive(Debug, Clone, Copy)]
pub struct CurrentBlock {
    /// Thousandths of a degree.
    pub temperature_2m: i64,
    pub weather_code: i64,
}

/// The `daily` block of a forecast response: parallel arrays, one slot per day.
#[derive(Debug, Clone)]
pub struct DailyBlock {
    pub time: Vec<String>,
    pub weather_code: Vec<Option<i64>>,
    /// Thousandths of a degree.
    pub temperature_2m_max: Vec<Option<i64>>,
    /// Thousandths of a degree.
    pub temperature_2m_min: Vec<Option<i64>>,
    /// Thousandths of a percent.
    pub precipitation_probability_max: Vec<Option<i64>>,
}

/// A forecast response.
#[derive(Debug, Clone)]
pub struct ForecastResponse {
    pub utc_offset_seconds: i64,
    pub current: CurrentBlock,
    pub daily: DailyBlock,
}

/// Slot `i` of a daily array, `None` where the array is shorter.
pub open spec fn slot(v: Seq<Option<i64>>, i: int) -> Option<i64> {
    if 0 <= i < v.len() {
        v[i]
    } else {
        None
    }
}

/// The condition of a WMO code as the response gives it (`code as u8`).
pub open spec fn code_condition(code: i64) -> Condition {
    wmo_condition(code as u8)
}

/// The day that slot `i` of `daily` describes, dated `date`.
pub open spec fn day_at(daily: DailyBlock, i: int, date: Date) -> Day {
    Day {
        date,
        temp_max: match slot(daily.temperature_2m_max@, i) {
            Some(t) => t,
            None => 0,
        },
        temp_min: match slot(daily.temperature_2m_min@, i) {
            Some(t) => t,
            None => 0,
        },
        precip_prob: match slot(daily.precipitation_probability_max@, i) {
            Some(p) => Some(percent_from_milli(p as int)),
            None => None,
        },
        condition: match slot(daily.weather_code@, i) {
            Some(c) => code_condition(c),
            None => Condition::Unknown,
        },
    }
}

/// The days of the first `n` slots whose date parses, in order.
pub open spec fn days_upto(daily: DailyBlock, n: int) -> Seq<Day>
    decreases n,
{
    if n <= 0 {
        seq![]
    } else {
        let prev = days_upto(daily, n - 1);
        match parse_date_spec(daily.time@[n - 1]@) {
            Some(date) => prev.push(day_at(daily, n - 1, date)),
            None => prev,
        }
    }
}

/// Whether `day` is what slot `i` of `daily` says: the slot's date parses to
/// the day's date, the maximum and minimum temperatures are the slot's
/// `temperature_2m_max` and `temperature_2m_min` (0 where missing), the
/// probability is the slot's rounded to a whole percent, and the condition is
/// that of the slot's WMO code (unknown where missing).
pub open spec fn describes_slot(daily: DailyBlock, i: int, day: Day) -> bool {
    &&& 0 <= i < daily.time@.len()
    &&& parse_date_spec(daily.time@[i]@) == Some(day.date)
    &&& day.temp_max == (if i < daily.temperature_2m_max@.len() && daily.temperature_2m_max@[i] is Some {
        daily.temperature_2m_max@[i]->0
    } else {
        0
    })
    &&& day.temp_min == (if i < daily.temperature_2m_min@.len() && daily.temperature_2m_min@[i] is Some {
        daily.temperature_2m_min@[i]->0
    } else {
        0
    })
    &&& day.precip_prob == (if i < daily.precipitation_probability_max@.len()
        && daily.precipitation_probability_max@[i] is Some {
        Some(percent_from_milli(daily.precipitation_probability_max@[i]->0 as int))
    } else {
        None
    })
    &&& day.condition == (if i < daily.weather_code@.len() && daily.weather_code@[i] is Some {
        wmo_condition(daily.weather_code@[i]->0 as u8)
    } else {
        Condition::Unknown
    })
}

/// Whether `day` is what one of the first `n` slots of `daily` says.
pub open spec fn from_some_slot(daily: DailyBlock, n: int, day: Day) -> bool {
    exists|i: int| 0 <= i < n && #[trigger] describes_slot(daily, i, day)
}

/// Each built day is what one slot with a parseable date says, and every slot
/// with a parseable date gives a day.
pub proof fn law_days_follow_slots(daily: DailyBlock, n: int)
    requires
        0 <= n <= daily.time@.len(),
    ensures
        forall|k: int|
            0 <= k < days_upto(daily, n).len() ==> from_some_slot(daily, n, #[trigger] days_upto(daily, n)[k]),
        forall|i: int|
            0 <= i < n && (#[trigger] parse_date_spec(daily.time@[i]@)) is Some ==> exists|k: int|
                0 <= k < days_upto(daily, n).len() && describes_slot(daily, i, days_upto(daily, n)[k]),
    decreases n,
{
    if n > 0 {
        law_days_follow_slots(daily, n - 1);
        let prev = days_upto(daily, n - 1);
        let cur = days_upto(daily, n);
        assert forall|k: int| 0 <= k < cur.len() implies from_some_slot(daily, n, #[trigger] cur[k]) by {
            if k < prev.len() {
                assert(cur[k] == prev[k]);
                assert(from_some_slot(daily, n - 1, prev[k]));
                let i = choose|i: int| 0 <= i < n - 1 && #[trigger] describes_slot(daily, i, prev[k]);
                assert(describes_slot(daily, i, cur[k]));
            } else {
                assert(describes_slot(daily, n - 1, cur[k]));
            }
        }
        assert forall|i: int|
            0 <= i < n && (#[trigger] parse_date_spec(daily.time@[i]@)) is Some implies exists|k: int|
                0 <= k < cur.len() && describes_slot(daily, i, cur[k]) by {
            if i < n - 1 {
                let k = choose|k: int| 0 <= k < prev.len() && describes_slot(daily, i, prev[k]);
                assert(cur[k] == prev[k]);
            } else {
                assert(describes_slot(daily, i, cur[prev.len() as int]));
            }
        }
    }
}

fn slot_exec(v: &Vec<Option<i64>>, i: usize) -> (r: Option<i64>)
    ensures
        r == slot(v@, i as int),
{
    if i < v.len() {
        v[i]
    } else {
        None
    }
}

/// One `Day` per daily slot whose date parses (slots with an unparseable date
/// are skipped); missing values read as 0 (temperatures), no probability, or
/// an unknown condition.
pub fn build_days(daily: &DailyBlock) -> (r: Result<Vec<Day>, WeatherError>)
    ensures
        daily.time@.len() == 0 ==> r == Err::<Vec<Day>, WeatherError>(WeatherError::NoDailyEntries),
        daily.time@.len() > 0 && days_upto(*daily, daily.time@.len() as int).len() == 0 ==> r
            == Err::<Vec<Day>, WeatherError>(WeatherError::NoParseableDailyEntries),
        r matches Ok(days) ==> days@ == days_upto(*daily, daily.time@.len() as int) && days@.len()
            > 0,
        r is Ok <==> days_upto(*daily, daily.time@.len() as int).len() > 0,
{
    let len = daily.time.len();
    if len == 0 {
        return Err(WeatherError::NoDailyEntries);
    }
    let mut days: Vec<Day> = Vec::new();
    for i in 0..len
        invariant
            len == daily.time@.len(),
            days@ == days_upto(*daily, i as int),
    {
        match super::model::Date::parse(daily.time[i].as_str()) {
            None => {},
            Some(date) => {
                let condition = match slot_exec(&daily.weather_code, i) {
                    Some(c) => Condition::from_wmo(c as u8),
                    None => Condition::Unknown,
                };
                let temp_max = match slot_exec(&daily.temperature_2m_max, i) {
                    Some(t) => t,
                    None => 0,
                };
                let temp_min = match slot_exec(&daily.temperature_2m_min, i) {
                    Some(t) => t,
                    None => 0,
                };
                let precip_prob = match slot_exec(&daily.precipitation_probability_max, i) {
                    Some(p) => Some(round_percent(p)),
                    None => None,
                };
                days.push(Day { date, temp_max, temp_min, precip_prob, condition });
            },
        }
    }
    if days.len() == 0 {
        return Err(WeatherError::NoParseableDailyEntries);
    }
    Ok(days)
}

/// Preferred display name for a country. The geocoder's localized name can be
/// formal (e.g. "Republika Hrvatska"); override the cases we care about.
pub open spec fn localized_country_spec(
    code: Option<Seq<char>>,
    api_name: Option<Seq<char>>,
    lang: Language,
) -> Option<Seq<char>> {
    if lang == Language::Hr && (code matches Some(c) && eq_ignore_ascii_case(c, "HR"@)) {
        Some("Hrvatska"@)
    } else {
        api_name
    }
}

/// Preferred display name for a country. The geocoder's localized name can be
/// formal (e.g. "Republika Hrvatska"); override the cases we care about.
pub fn localized_country(code: Option<&str>, api_name: Option<String>, lang: Language) -> (r:
    Option<String>)
    ensures
        opt_view(r) == localized_country_spec(opt_str_view(code), opt_view(api_name), lang),
{
    if lang == Language::Hr {
        if let Some(c) = code {
            if str_eq_ignore_ascii_case(c, "HR") {
                return Some("Hrvatska".to_owned());
            }
        }
    }
    api_name
}

/// `now_utc + utc_offset_seconds`, wrapping at the ends of the `i64` range,
/// where it has no meaning as a time.
pub open spec fn shifted_secs(now_utc: int, utc_offset_seconds: int) -> int {
    if now_utc + utc_offset_seconds > i64::MAX {
        now_utc + utc_offset_seconds - 0x1_0000_0000_0000_0000
    } else if now_utc + utc_offset_seconds < i64::MIN {
        now_utc + utc_offset_seconds + 0x1_0000_0000_0000_0000
    } else {
        now_utc + utc_offset_seconds
    }
}

/// Current wall-clock time, shifted into the location's local timezone using
/// the offset Open-Meteo reports for the requested coordinates. `now_utc` is
/// the clock's reading in seconds since the Unix epoch.
pub fn now_local_secs(now_utc: i64, utc_offset_seconds: i64) -> (r: i64)
    ensures
        r == shifted_secs(now_utc as int, utc_offset_seconds as int),
{
    now_utc.wrapping_add(utc_offset_seconds)
}

/// The clock's reading in seconds since the Unix epoch, 0 when the clock
/// reads before the epoch (the seconds wrap into `i64` past its end).
fn utc_now_secs() -> i64 {
    match super::clock_since_epoch() {
        Ok(secs) => secs as i64,
        Err(_) => 0,
    }
}

/// "Name, Country" with the localized country, or the bare name.
pub open spec fn location_name_spec(place: Place, lang: Language) -> Seq<char> {
    match localized_country_spec(opt_view(place.country_code), opt_view(place.country), lang) {
        Some(country) => place.name@ + ", "@ + country,
        None => place.name@,
    }
}

/// The forecast for `place` from a response, refreshed at the local second
/// count `now_local`.
pub fn forecast_at(place: &Place, raw: &ForecastResponse, config: &Config, now_local: i64) -> (r:
    Result<Forecast, WeatherError>)
    ensures
        r is Ok <==> days_upto(raw.daily, raw.daily.time@.len() as int).len() > 0,
        r matches Err(e) ==> e == (if raw.daily.time@.len() == 0 {
            WeatherError::NoDailyEntries
        } else {
            WeatherError::NoParseableDailyEntries
        }),
        r matches Ok(f) ==> {
            &&& f.location_name@ == location_name_spec(*place, config.language)
            &&& f.current == Current {
                temperature: raw.current.temperature_2m,
                condition: code_condition(raw.current.weather_code),
            }
            &&& f.days@ == days_upto(raw.daily, raw.daily.time@.len() as int)
            &&& f.temperature_symbol@ == config.units.temperature.symbol_spec()
            &&& f.refreshed_at@ == refreshed_text(now_local as int)
        },
{
    let current = Current {
        temperature: raw.current.temperature_2m,
        condition: Condition::from_wmo(raw.current.weather_code as u8),
    };
    let days = match build_days(&raw.daily) {
        Ok(days) => days,
        Err(e) => {
            return Err(e);
        },
    };
    let country = localized_country(
        super::geocode::opt_as_str(&place.country_code),
        clone_opt(&place.country),
        config.language,
    );
    let location_name = match country {
        Some(country) => {
            let mut out = crate::text::chars_of(place.name.as_str());
            crate::text::push_str(&mut out, ", ");
            crate::text::push_str(&mut out, country.as_str());
            crate::text::string_from_chars(out)
        },
        None => place.name.clone(),
    };
    Ok(
        Forecast {
            location_name,
            current,
            days,
            temperature_symbol: config.units.temperature.symbol(),
            refreshed_at: format_refreshed_at(now_local),
        },
    )
}

/// The forecast for `place` from a response, refreshed now: the clock's
/// reading shifted by the offset Open-Meteo reports for the place.
pub fn forecast_from_response(place: &Place, raw: &ForecastResponse, config: &Config) -> (r:
    Result<Forecast, WeatherError>)
    ensures
        r is Ok <==> days_upto(raw.daily, raw.daily.time@.len() as int).len() > 0,
        r matches Err(e) ==> e == (if raw.daily.time@.len() == 0 {
            WeatherError::NoDailyEntries
        } else {
            WeatherError::NoParseableDailyEntries
        }),
        r matches Ok(f) ==> {
            &&& f.location_name@ == location_name_spec(*place, config.language)
            &&& f.current == Current {
                temperature: raw.current.temperature_2m,
                condition: code_condition(raw.current.weather_code),
            }
            &&& f.days@ == days_upto(raw.daily, raw.daily.time@.len() as int)
            &&& f.temperature_symbol@ == config.units.temperature.symbol_spec()
            &&& exists|now_utc: i64|
                f.refreshed_at@ == refreshed_text(
                    #[trigger] shifted_secs(now_utc as int, raw.utc_offset_seconds as int),
                )
        },
{
    let now_utc = utc_now_secs();
    let now_local = now_local_secs(now_utc, raw.utc_offset_seconds);
    forecast_at(place, raw, config, now_local)
}

fn clone_opt(o: &Option<String>) -> (r: Option<String>)
    ensures
        opt_view(r) == opt_view(*o),
{
    match o {
        Some(s) => Some(s.clone()),
        None => None,
    }
}

} // verus!
