//! met.no (Norwegian Meteorological Institute) Locationforecast data — the
//! data behind Yr.no — folded into the display model.
//!
//! Forecasts arrive as a UTC timeseries (hourly near-term, 6-hourly later),
//! which is folded into local calendar days using the IANA timezone of the
//! resolved place. Temperatures arrive in thousandths of a degree Celsius and
//! probabilities in thousandths of a percent.

use chrono::{Datelike, Offset, TimeZone, Timelike};
use vstd::prelude::*;

use crate::config::{Config, TemperatureUnit};

use super::geocode::{display_name, display_name_spec, Place};
use super::model::{
    format_refreshed_at, refreshed_text, met_condition, percent_from_milli,
    round_percent, tdiv, Condition, Current, Date, Day, Forecast,
};
use super::WeatherError;

verus! {

/// Today plus the next six days.
pub const FORECAST_DAYS: usize = 7;

// --- met.no Locationforecast response ---------------------------------------

#[derive(Debug, Clone)]
pub struct MetResponse {
    pub properties: Properties,
}

#[derive(Debug, Clone)]
pub struct Properties {
    pub timeseries: Vec<Entry>,
}

#[derive(Debug, Clone)]
pub struct Entry {
    /// RFC 3339 timestamp (UTC).
    pub time: String,
    pub data: EntryData,
}

#[derive(Debug, Clone)]
pub struct EntryData {
    pub instant: Instant,
    pub next_1_hours: Option<Period>,
    pub next_6_hours: Option<Period>,
}

#[derive(Debug, Clone, Copy)]
pub struct Instant {
    pub details: InstantDetails,
}

#[derive(Debug, Clone, Copy)]
pub struct InstantDetails {
    /// Thousandths of a degree Celsius.
    pub air_temperature: Option<i64>,
}

#[derive(Debug, Clone)]
pub struct Period {
    pub summary: Summary,
    pub details: Option<PeriodDetails>,
}

#[derive(Debug, Clone)]
pub struct Summary {
    pub symbol_code: Option<String>,
}

#[derive(Debug, Clone, Copy)]
pub struct PeriodDetails {
    /// Thousandths of a degree Celsius.
    pub air_temperature_max: Option<i64>,
    /// Thousandths of a degree Celsius.
    pub air_temperature_min: Option<i64>,
    /// Thousandths of a percent.
    pub probability_of_precipitation: Option<i64>,
}

pub open spec fn period_symbol(p: Option<Period>) -> Option<Seq<char>> {
    match p {
        Some(p) => match p.summary.symbol_code {
            Some(s) => Some(s@),
            None => None,
        },
        None => None,
    }
}

pub open spec fn period_probability(p: Option<Period>) -> Option<i64> {
    match p {
        Some(p) => match p.details {
            Some(d) => d.probability_of_precipitation,
            None => None,
        },
        None => None,
    }
}

impl EntryData {
    /// Symbol code, preferring the finer-grained near-term block.
    pub open spec fn symbol_code_spec(self) -> Option<Seq<char>> {
        match period_symbol(self.next_1_hours) {
            Some(s) => Some(s),
            None => period_symbol(self.next_6_hours),
        }
    }

    /// The larger of the two blocks' precipitation probabilities, or the one
    /// that is present.
    pub open spec fn precipitation_probability_spec(self) -> Option<i64> {
        match (period_probability(self.next_1_hours), period_probability(self.next_6_hours)) {
            (Some(a), Some(b)) => Some(if a >= b { a } else { b }),
            (Some(a), None) => Some(a),
            (None, b) => b,
        }
    }

    /// Symbol code, preferring the finer-grained near-term block.
    pub fn symbol_code(&self) -> (r: Option<&str>)
        ensures
            match r {
                Some(s) => self.symbol_code_spec() == Some(s@),
                None => self.symbol_code_spec() is None,
            },
    {
        let near = match &self.next_1_hours {
            Some(p) => match &p.summary.symbol_code {
                Some(s) => Some(s.as_str()),
                None => None,
            },
            None => None,
        };
        match near {
            Some(s) => Some(s),
            None => match &self.next_6_hours {
                Some(p) => match &p.summary.symbol_code {
                    Some(s) => Some(s.as_str()),
                    None => None,
                },
                None => None,
            },
        }
    }

    /// The larger of the two blocks' precipitation probabilities, or the one
    /// that is present.
    pub fn precipitation_probability(&self) -> (r: Option<i64>)
        ensures
            r == self.precipitation_probability_spec(),
    {
        let a = match &self.next_1_hours {
            Some(p) => match &p.details {
                Some(d) => d.probability_of_precipitation,
                None => None,
            },
            None => None,
        };
        let b = match &self.next_6_hours {
            Some(p) => match &p.details {
                Some(d) => d.probability_of_precipitation,
                None => None,
            },
            None => None,
        };
        match (a, b) {
            (Some(a), Some(b)) => Some(if a >= b { a } else { b }),
            (Some(a), None) => Some(a),
            (None, b) => b,
        }
    }
}

// --- Time zones (chrono / chrono-tz) -----------------------------------------

/// A local date and time of day.
#[derive(Debug, Clone, Copy, PartialEq, Eq, Structural)]
pub struct LocalTime {
    pub year: i32,
    pub month: u32,
    pub day: u32,
    pub hour: u32,
    pub minute: u32,
}

/// Whether chrono-tz knows the IANA time zone `name`.
pub uninterp spec fn known_zone(name: Seq<char>) -> bool;

/// The local date and time in zone `zone` of the RFC 3339 timestamp `time`
/// (`None` when either does not parse).
pub uninterp spec fn local_time_of(time: Seq<char>, zone: Seq<char>) -> Option<LocalTime>;

/// The offset from UTC, in seconds, of zone `zone` at the instant `utc_secs`
/// seconds after the Unix epoch (`None` when either is out of chrono's range).
pub uninterp spec fn utc_offset_of(zone: Seq<char>, utc_secs: i64) -> Option<i32>;

/// `name.parse::<chrono_tz::Tz>().is_ok()`: whether chrono-tz's zone table
/// has the name. Claimed: the answer is `known_zone(name)`.
#[verifier::external_body]
fn zone_is_known(name: &str) -> (r: bool)
    ensures
        r == known_zone(name@),
{
    name.parse::<chrono_tz::Tz>().is_ok()
}

/// `chrono::DateTime::parse_from_rfc3339(time)` converted with
/// `with_timezone` into the chrono-tz zone named `zone`, read back through
/// `Datelike` / `Timelike`. Claimed: the result is `local_time_of(time, zone)`,
/// and (as chrono documents for `month`, `day`, `hour`, `minute`) a month of
/// 1 to 12, a day of 1 to 31, an hour of 0 to 23 and a minute of 0 to 59.
#[verifier::external_body]
fn local_time(time: &str, zone: &str) -> (r: Option<LocalTime>)
    ensures
        r == local_time_of(time@, zone@),
        r matches Some(t) ==> 1 <= t.month <= 12 && 1 <= t.day <= 31 && t.hour < 24 && t.minute
            < 60,
{
    let tz: chrono_tz::Tz = match zone.parse() {
        Ok(tz) => tz,
        Err(_) => return None,
    };
    match chrono::DateTime::parse_from_rfc3339(time) {
        Ok(t) => {
            let l = t.with_timezone(&tz);
            Some(LocalTime { year: l.year(), month: l.month(), day: l.day(), hour: l.hour(), minute: l.minute() })
        },
        Err(_) => None,
    }
}

/// `offset_from_utc_datetime` of the chrono-tz zone named `zone` at
/// `chrono::DateTime::from_timestamp(utc_secs, 0)`, as `fix().local_minus_utc()`.
/// Claimed: the result is `utc_offset_of(zone, utc_secs)`; when present it lies
/// strictly between -86 400 and 86 400 (the range `FixedOffset` enforces), and
/// `from_timestamp` accepted `utc_secs`, so its day count
/// `utc_secs.div_euclid(86_400) + 719_163` lies in the `i32` range.
#[verifier::external_body]
fn utc_offset(zone: &str, utc_secs: i64) -> (r: Option<i32>)
    ensures
        r == utc_offset_of(zone@, utc_secs),
        r matches Some(o) ==> -86_400 < o < 86_400 && i32::MIN <= (utc_secs as int) / 86_400
            + 719_163 <= i32::MAX,
{
    let tz: chrono_tz::Tz = match zone.parse() {
        Ok(tz) => tz,
        Err(_) => return None,
    };
    let at = chrono::DateTime::from_timestamp(utc_secs, 0)?;
    Some(tz.offset_from_utc_datetime(&at.naive_utc()).fix().local_minus_utc())
}

/// The zone the place's days are counted in: its own when chrono-tz knows it,
/// else UTC.
pub open spec fn resolved_zone(place: Place) -> Seq<char> {
    match place.timezone {
        Some(name) => if known_zone(name@) {
            name@
        } else {
            "UTC"@
        },
        None => "UTC"@,
    }
}

/// The zone the place's days are counted in: its own when chrono-tz knows it,
/// else UTC.
pub fn resolve_zone(place: &Place) -> (r: String)
    ensures
        r@ == resolved_zone(*place),
{
    match &place.timezone {
        Some(name) => if zone_is_known(name.as_str()) {
            name.clone()
        } else {
            "UTC".to_owned()
        },
        None => "UTC".to_owned(),
    }
}

/// `utc_secs` shifted into zone `zone` when its offset there is known,
/// else unchanged.
pub open spec fn local_secs_spec(zone: Seq<char>, utc_secs: i64) -> int {
    match utc_offset_of(zone, utc_secs) {
        Some(o) => utc_secs + o,
        None => utc_secs as int,
    }
}

/// `utc_secs` shifted into zone `zone` when its offset there is known,
/// else unchanged.
pub fn local_secs(zone: &str, utc_secs: i64) -> (r: i64)
    ensures
        r == local_secs_spec(zone@, utc_secs),
{
    match utc_offset(zone, utc_secs) {
        Some(o) => {
            assert(-200_000_000_000_000 < utc_secs < 200_000_000_000_000) by (nonlinear_arith)
                requires
                    i32::MIN <= (utc_secs as int) / 86_400 + 719_163 <= i32::MAX,
            ;
            utc_secs + o as i64
        },
        None => utc_secs,
    }
}

/// Current wall-clock time in the zone, as a local Unix second count for
/// `format_refreshed_at`: the clock's reading (negative before the epoch),
/// shifted into the zone.
pub fn now_local_secs(zone: &str) -> (r: i64)
    ensures
        exists|now: i64| r == #[trigger] local_secs_spec(zone@, now),
{
    let now: i64 = match super::clock_since_epoch() {
        Ok(secs) => if secs <= 0x7fff_ffff_ffff_ffff {
            secs as i64
        } else {
            i64::MAX
        },
        Err(secs) => if secs <= 0x7fff_ffff_ffff_ffff {
            0 - (secs as i64)
        } else {
            i64::MIN
        },
    };
    let r = local_secs(zone, now);
    assert(r == local_secs_spec(zone@, now));
    r
}

// --- Folding the timeseries into days -----------------------------------------

/// Minutes between a local time of day and noon.
pub open spec fn minutes_from_noon_spec(t: LocalTime) -> int {
    let m = t.hour * 60 + t.minute - 720;
    if m < 0 {
        -m
    } else {
        m
    }
}

fn minutes_from_noon(local: &LocalTime) -> (r: i64)
    ensures
        r == minutes_from_noon_spec(*local),
{
    let minute_of_day = (local.hour as i64) * 60 + (local.minute as i64);
    let d = minute_of_day - 12 * 60;
    if d < 0 {
        -d
    } else {
        d
    }
}

/// Largest magnitude of a temperature (thousandths of a degree) that the
/// Fahrenheit conversion handles within the `i64` range.
pub const TEMP_LIMIT: i64 = 1_000_000_000_000_000_000;

/// `celsius * 9 / 5 + 32` on thousandths of a degree, to the nearest
/// thousandth (a fifth never falls halfway between two thousandths).
pub open spec fn convert_temp_spec(celsius: i64, unit: TemperatureUnit) -> i64 {
    match unit {
        TemperatureUnit::Celsius => celsius,
        TemperatureUnit::Fahrenheit => (nearest_fifth(celsius * 9) + 32_000) as i64,
    }
}

/// `a / 5` rounded to the nearest integer.
pub open spec fn nearest_fifth(a: int) -> int {
    if a >= 0 {
        tdiv(a + 2, 5)
    } else {
        tdiv(a - 2, 5)
    }
}

fn convert_temp(celsius: i64, unit: TemperatureUnit) -> (r: i64)
    requires
        unit == TemperatureUnit::Fahrenheit ==> -TEMP_LIMIT <= celsius <= TEMP_LIMIT,
    ensures
        r == convert_temp_spec(celsius, unit),
        unit == TemperatureUnit::Fahrenheit ==> r == nearest_fifth(celsius * 9) + 32_000,
{
    match unit {
        TemperatureUnit::Celsius => celsius,
        TemperatureUnit::Fahrenheit => {
            let a = celsius * 9;
            let q = if a >= 0 {
                (a + 2) / 5
            } else {
                (a - 2) / 5
            };
            assert(q == nearest_fifth(a as int));
            q + 32_000
        },
    }
}

pub open spec fn min_into(slot: Option<i64>, value: i64) -> Option<i64> {
    match slot {
        Some(cur) => Some(if value < cur { value } else { cur }),
        None => Some(value),
    }
}

pub open spec fn max_into(slot: Option<i64>, value: i64) -> Option<i64> {
    match slot {
        Some(cur) => Some(if value > cur { value } else { cur }),
        None => Some(value),
    }
}

fn push_min(slot: &mut Option<i64>, value: i64)
    ensures
        *final(slot) == min_into(*old(slot), value),
{
    *slot = Some(
        match *slot {
            Some(cur) => if value < cur {
                value
            } else {
                cur
            },
            None => value,
        },
    );
}

fn push_max(slot: &mut Option<i64>, value: i64)
    ensures
        *final(slot) == max_into(*old(slot), value),
{
    *slot = Some(
        match *slot {
            Some(cur) => if value > cur {
                value
            } else {
                cur
            },
            None => value,
        },
    );
}

/// Per-day accumulator over the timeseries entries that fall on that local day.
struct DayAcc {
    date: Date,
    temp_min: Option<i64>,
    temp_max: Option<i64>,
    precip_prob: Option<i64>,
    /// Representative symbol, chosen from the entry closest to local noon.
    symbol: Option<String>,
    symbol_distance: i64,
}

/// What a `DayAcc` holds.
pub struct DayAccView {
    pub date: Date,
    pub temp_min: Option<i64>,
    pub temp_max: Option<i64>,
    pub precip_prob: Option<i64>,
    pub symbol: Option<Seq<char>>,
    pub symbol_distance: int,
}

impl View for DayAcc {
    type V = DayAccView;

    closed spec fn view(&self) -> DayAccView {
        DayAccView {
            date: self.date,
            temp_min: self.temp_min,
            temp_max: self.temp_max,
            precip_prob: self.precip_prob,
            symbol: match self.symbol {
                Some(s) => Some(s@),
                None => None,
            },
            symbol_distance: self.symbol_distance as int,
        }
    }
}

/// A fresh accumulator for `date`.
pub open spec fn new_acc(date: Date) -> DayAccView {
    DayAccView {
        date,
        temp_min: None,
        temp_max: None,
        precip_prob: None,
        symbol: None,
        symbol_distance: i64::MAX as int,
    }
}

/// The accumulator after taking in `entry`, whose local time lies
/// `distance_from_noon` minutes from noon: temperatures widen the day's range
/// (instant temperature, then the 6-hour block's minimum and maximum), the
/// probability keeps the day's maximum, and the symbol is the one closest to
/// noon (the first such, on ties).
pub open spec fn absorb_spec(acc: DayAccView, entry: Entry, distance_from_noon: int) -> DayAccView {
    let (min1, max1) = match entry.data.instant.details.air_temperature {
        Some(t) => (min_into(acc.temp_min, t), max_into(acc.temp_max, t)),
        None => (acc.temp_min, acc.temp_max),
    };
    let six = match entry.data.next_6_hours {
        Some(p) => p.details,
        None => None,
    };
    let (min2, max2) = match six {
        Some(d) => (
            match d.air_temperature_min {
                Some(t) => min_into(min1, t),
                None => min1,
            },
            match d.air_temperature_max {
                Some(t) => max_into(max1, t),
                None => max1,
            },
        ),
        None => (min1, max1),
    };
    let precip = match entry.data.precipitation_probability_spec() {
        Some(p) => max_into(acc.precip_prob, p),
        None => acc.precip_prob,
    };
    let (symbol, distance) = match entry.data.symbol_code_spec() {
        Some(code) => if distance_from_noon < acc.symbol_distance {
            (Some(code), distance_from_noon)
        } else {
            (acc.symbol, acc.symbol_distance)
        },
        None => (acc.symbol, acc.symbol_distance),
    };
    DayAccView {
        date: acc.date,
        temp_min: min2,
        temp_max: max2,
        precip_prob: precip,
        symbol,
        symbol_distance: distance,
    }
}

/// The day an accumulator stands for, in `unit`: missing temperatures read as
/// 0, the probability is rounded to a whole percent, and the condition comes
/// from the chosen symbol.
pub open spec fn finish_spec(acc: DayAccView, unit: TemperatureUnit) -> Day {
    Day {
        date: acc.date,
        temp_max: convert_temp_spec(
            match acc.temp_max {
                Some(t) => t,
                None => 0,
            },
            unit,
        ),
        temp_min: convert_temp_spec(
            match acc.temp_min {
                Some(t) => t,
                None => 0,
            },
            unit,
        ),
        precip_prob: match acc.precip_prob {
            Some(p) => Some(percent_from_milli(p as int)),
            None => None,
        },
        condition: match acc.symbol {
            Some(s) => met_condition(s),
            None => Condition::Unknown,
        },
    }
}

/// Every temperature that `entry` carries lies within `TEMP_LIMIT`.
pub open spec fn entry_temps_bounded(entry: Entry) -> bool {
    &&& (entry.data.instant.details.air_temperature matches Some(t) ==> -TEMP_LIMIT <= t
        <= TEMP_LIMIT)
    &&& (entry.data.next_6_hours matches Some(p) ==> (p.details matches Some(d) ==> {
        &&& (d.air_temperature_min matches Some(t) ==> -TEMP_LIMIT <= t <= TEMP_LIMIT)
        &&& (d.air_temperature_max matches Some(t) ==> -TEMP_LIMIT <= t <= TEMP_LIMIT)
    }))
}

pub open spec fn acc_temps_bounded(acc: DayAccView) -> bool {
    &&& (acc.temp_min matches Some(t) ==> -TEMP_LIMIT <= t <= TEMP_LIMIT)
    &&& (acc.temp_max matches Some(t) ==> -TEMP_LIMIT <= t <= TEMP_LIMIT)
}

impl DayAcc {
    fn new(date: Date) -> (r: Self)
        ensures
            r@ == new_acc(date),
    {
        DayAcc {
            date,
            temp_min: None,
            temp_max: None,
            precip_prob: None,
            symbol: None,
            symbol_distance: i64::MAX,
        }
    }

    fn absorb(&mut self, entry: &Entry, distance_from_noon: i64)
        ensures
            final(self)@ == absorb_spec(old(self)@, *entry, distance_from_noon as int),
    {
        if let Some(t) = entry.data.instant.details.air_temperature {
            push_min(&mut self.temp_min, t);
            push_max(&mut self.temp_max, t);
        }
        let six = match &entry.data.next_6_hours {
            Some(p) => p.details,
            None => None,
        };
        if let Some(details) = six {
            if let Some(t) = details.air_temperature_min {
                push_min(&mut self.temp_min, t);
            }
            if let Some(t) = details.air_temperature_max {
                push_max(&mut self.temp_max, t);
            }
        }
        if let Some(p) = entry.data.precipitation_probability() {
            push_max(&mut self.precip_prob, p);
        }
        if let Some(code) = entry.data.symbol_code() {
            if distance_from_noon < self.symbol_distance {
                self.symbol = Some(code.to_owned());
                self.symbol_distance = distance_from_noon;
            }
        }
    }

    fn finish(&self, unit: TemperatureUnit) -> (r: Day)
        requires
            unit == TemperatureUnit::Fahrenheit ==> acc_temps_bounded(self@),
        ensures
            r == finish_spec(self@, unit),
    {
        let temp_max = match self.temp_max {
            Some(t) => t,
            None => 0,
        };
        let temp_min = match self.temp_min {
            Some(t) => t,
            None => 0,
        };
        Day {
            date: self.date,
            temp_max: convert_temp(temp_max, unit),
            temp_min: convert_temp(temp_min, unit),
            precip_prob: match self.precip_prob {
                Some(p) => Some(round_percent(p)),
                None => None,
            },
            condition: match &self.symbol {
                Some(s) => Condition::from_met_symbol(s.as_str()),
                None => Condition::Unknown,
            },
        }
    }
}

/// The local calendar date of a local time, if there is one.
pub open spec fn local_date(l: Option<LocalTime>) -> Option<Date> {
    match l {
        Some(t) => Some(Date { year: t.year, month: t.month, day: t.day }),
        None => None,
    }
}

/// Minutes from local noon of a local time (0 when there is none).
pub open spec fn local_distance(l: Option<LocalTime>) -> int {
    match l {
        Some(t) => minutes_from_noon_spec(t),
        None => 0,
    }
}

/// The local times of the entries' timestamps in zone `zone`.
pub open spec fn zone_locals(es: Seq<Entry>, zone: Seq<char>) -> Seq<Option<LocalTime>> {
    Seq::new(es.len(), |i: int| local_time_of(es[i].time@, zone))
}

/// The days of the first `n` entries: their distinct local dates in order of
/// first appearance, at most `FORECAST_DAYS` of them.
pub open spec fn day_dates(ls: Seq<Option<LocalTime>>, n: int) -> Seq<Date>
    decreases n,
{
    if n <= 0 {
        seq![]
    } else {
        let prev = day_dates(ls, n - 1);
        match local_date(ls[n - 1]) {
            Some(d) => if prev.contains(d) || prev.len() >= FORECAST_DAYS {
                prev
            } else {
                prev.push(d)
            },
            None => prev,
        }
    }
}

/// The accumulator of date `d` over the first `n` entries: every entry whose
/// local date is `d`, absorbed in order.
pub open spec fn acc_upto(es: Seq<Entry>, ls: Seq<Option<LocalTime>>, d: Date, n: int) -> DayAccView
    decreases n,
{
    if n <= 0 {
        new_acc(d)
    } else {
        let prev = acc_upto(es, ls, d, n - 1);
        if local_date(ls[n - 1]) == Some(d) {
            absorb_spec(prev, es[n - 1], local_distance(ls[n - 1]))
        } else {
            prev
        }
    }
}

/// The forecast days of a timeseries whose entries have the local times `ls`,
/// in `unit`.
pub open spec fn assembled_days(es: Seq<Entry>, ls: Seq<Option<LocalTime>>, unit: TemperatureUnit) -> Seq<Day> {
    day_dates(ls, es.len() as int).map_values(
        |d: Date| finish_spec(acc_upto(es, ls, d, es.len() as int), unit),
    )
}

/// The current conditions of a timeseries: the first entry's temperature
/// (required) and symbol.
pub open spec fn current_of(first: Entry, unit: TemperatureUnit) -> Current {
    Current {
        temperature: convert_temp_spec(
            match first.data.instant.details.air_temperature {
                Some(t) => t,
                None => 0,
            },
            unit,
        ),
        condition: match first.data.symbol_code_spec() {
            Some(s) => met_condition(s),
            None => Condition::Unknown,
        },
    }
}

/// What `assemble` returns for the timeseries `es` in zone `zone`.
pub open spec fn assemble_spec(es: Seq<Entry>, zone: Seq<char>, unit: TemperatureUnit) -> Result<
    (Current, Seq<Day>),
    WeatherError,
> {
    fold_spec(es, zone_locals(es, zone), unit)
}

/// What `fold_series` returns for the timeseries `es` whose entries have the
/// local times `ls`: an error for an empty series, for a first entry without a
/// temperature, and for a series with no local time; else the current
/// conditions and the days.
pub open spec fn fold_spec(es: Seq<Entry>, ls: Seq<Option<LocalTime>>, unit: TemperatureUnit) -> Result<
    (Current, Seq<Day>),
    WeatherError,
> {
    if es.len() == 0 {
        Err(WeatherError::NoTimeseries)
    } else if es[0].data.instant.details.air_temperature is None {
        Err(WeatherError::MissingCurrentTemperature)
    } else if day_dates(ls, es.len() as int).len() == 0 {
        Err(WeatherError::NoParseableDays)
    } else {
        Ok((current_of(es[0], unit), assembled_days(es, ls, unit)))
    }
}

proof fn lemma_day_dates_props(es: Seq<Entry>, ls: Seq<Option<LocalTime>>, n: int)
    requires
        0 <= n <= es.len(),
    ensures
        day_dates(ls, n).len() <= FORECAST_DAYS,
        day_dates(ls, n).no_duplicates(),
        forall|k: int|
            0 <= k < n && (#[trigger] local_date(ls[k])) is Some ==> (day_dates(ls, n,
            ).contains(local_date(ls[k])->0) || day_dates(ls, n).len()
                == FORECAST_DAYS),
        forall|d: Date|
            #![trigger day_dates(ls, n).contains(d)]
            day_dates(ls, n).contains(d) ==> exists|k: int|
                0 <= k < n && local_date(#[trigger] ls[k]) == Some(d),
    decreases n,
{
    if n > 0 {
        lemma_day_dates_props(es, ls, n - 1);
        let prev = day_dates(ls, n - 1);
        let cur = day_dates(ls, n);
        assert forall|k: int|
            0 <= k < n && (#[trigger] local_date(ls[k])) is Some implies (cur.contains(
            local_date(ls[k])->0,
        ) || cur.len() == FORECAST_DAYS) by {
            let d = local_date(ls[k])->0;
            if k < n - 1 {
                if prev.contains(d) {
                    let w = choose|w: int| 0 <= w < prev.len() && prev[w] == d;
                    assert(cur[w] == d);
                }
            } else {
                if !prev.contains(d) && prev.len() < FORECAST_DAYS {
                    assert(cur[prev.len() as int] == d);
                }
            }
        }
        assert forall|d: Date| #[trigger] cur.contains(d) implies exists|k: int|
            0 <= k < n && local_date(#[trigger] ls[k]) == Some(d) by {
            if prev.contains(d) {
                let k = choose|k: int| 0 <= k < n - 1 && local_date(#[trigger] ls[k]) == Some(d);
                assert(0 <= k < n && local_date(ls[k]) == Some(d));
            } else {
                let w = choose|w: int| 0 <= w < cur.len() && cur[w] == d;
                assert(local_date(ls[n - 1]) == Some(d));
            }
        }
    }
}

/// The folded days are at most `FORECAST_DAYS`, all of different dates, each
/// the local date of some entry; and every entry's date is among them unless
/// the limit of days was reached.
pub proof fn law_days_distinct_and_bounded(es: Seq<Entry>, ls: Seq<Option<LocalTime>>)
    ensures
        day_dates(ls, es.len() as int).len() <= FORECAST_DAYS,
        day_dates(ls, es.len() as int).no_duplicates(),
        forall|d: Date|
            #![trigger day_dates(ls, es.len() as int).contains(d)]
            day_dates(ls, es.len() as int).contains(d) ==> exists|k: int|
                0 <= k < es.len() && local_date(#[trigger] ls[k]) == Some(d),
        forall|k: int|
            0 <= k < es.len() && (#[trigger] local_date(ls[k])) is Some ==> (day_dates(ls, es.len() as int,
            ).contains(local_date(ls[k])->0) || day_dates(ls, es.len() as int).len()
                == FORECAST_DAYS),
{
    lemma_day_dates_props(es, ls, es.len() as int);
}

/// A day's precipitation probability is the largest of its entries': at
/// least each entry's, and equal to one of them; absent only when no entry of
/// the day has one.
pub proof fn law_precipitation_is_daily_maximum(es: Seq<Entry>, ls: Seq<Option<LocalTime>>, d: Date, n: int)
    requires
        0 <= n <= es.len(),
    ensures
        forall|k: int|
            0 <= k < n && local_date(ls[k]) == Some(d) && (
            #[trigger] es[k].data.precipitation_probability_spec()) is Some ==> (acc_upto(es, ls, d,
                n,
            ).precip_prob matches Some(q) && q >= es[k].data.precipitation_probability_spec()->0),
        acc_upto(es, ls, d, n).precip_prob matches Some(q) ==> exists|k: int|
            0 <= k < n && local_date(ls[k]) == Some(d) && (
            #[trigger] es[k].data.precipitation_probability_spec()) == Some(q),
    decreases n,
{
    if n > 0 {
        law_precipitation_is_daily_maximum(es, ls, d, n - 1);
        let prev = acc_upto(es, ls, d, n - 1);
        let cur = acc_upto(es, ls, d, n);
        if let Some(q) = cur.precip_prob {
            if local_date(ls[n - 1]) == Some(d) && cur.precip_prob != prev.precip_prob {
                assert(es[n - 1].data.precipitation_probability_spec() == Some(q));
            } else {
                let k = choose|k: int|
                    0 <= k < n - 1 && local_date(ls[k]) == Some(d) && (
                    #[trigger] es[k].data.precipitation_probability_spec()) == prev.precip_prob;
                assert(0 <= k < n && local_date(ls[k]) == Some(d) && es[k].data.precipitation_probability_spec()
                    == Some(q));
            }
        }
    }
}

/// A day's temperature range covers the instant temperature of each of its
/// entries.
pub proof fn law_temperature_range_covers_entries(es: Seq<Entry>, ls: Seq<Option<LocalTime>>, d: Date, n: int)
    requires
        0 <= n <= es.len(),
    ensures
        forall|k: int|
            0 <= k < n && local_date(ls[k]) == Some(d) && (
            #[trigger] es[k].data.instant.details.air_temperature) is Some ==> ({
                let t = es[k].data.instant.details.air_temperature->0;
                &&& acc_upto(es, ls, d, n).temp_min matches Some(lo) && lo <= t
                &&& acc_upto(es, ls, d, n).temp_max matches Some(hi) && t <= hi
            }),
    decreases n,
{
    if n > 0 {
        law_temperature_range_covers_entries(es, ls, d, n - 1);
    }
}

/// A day's symbol is that of one of its entries, the one closest to local noon
/// (the first such, on ties): no entry of the day with a symbol lies closer.
pub proof fn law_symbol_closest_to_noon(es: Seq<Entry>, ls: Seq<Option<LocalTime>>, d: Date, n: int)
    requires
        0 <= n <= es.len(),
        forall|k: int| 0 <= k < n ==> local_distance(#[trigger] ls[k]) < i64::MAX,
    ensures
        forall|k: int|
            0 <= k < n && local_date(ls[k]) == Some(d) && (
            #[trigger] es[k].data.symbol_code_spec()) is Some ==> acc_upto(es, ls, d,
                n,
            ).symbol is Some && acc_upto(es, ls, d, n).symbol_distance <= local_distance(ls[k]),
        acc_upto(es, ls, d, n).symbol matches Some(s) ==> exists|k: int|
            0 <= k < n && local_date(ls[k]) == Some(d) && (#[trigger] es[k].data.symbol_code_spec())
                == Some(s) && local_distance(ls[k]) == acc_upto(es, ls, d, n).symbol_distance,
        acc_upto(es, ls, d, n).symbol is None ==> acc_upto(es, ls, d, n).symbol_distance
            == i64::MAX,
    decreases n,
{
    if n > 0 {
        law_symbol_closest_to_noon(es, ls, d, n - 1);
        let prev = acc_upto(es, ls, d, n - 1);
        let cur = acc_upto(es, ls, d, n);
        if let Some(s) = cur.symbol {
            if local_date(ls[n - 1]) == Some(d) && cur.symbol_distance != prev.symbol_distance {
                assert(es[n - 1].data.symbol_code_spec() == Some(s));
            } else if local_date(ls[n - 1]) == Some(d) && cur.symbol != prev.symbol {
                assert(es[n - 1].data.symbol_code_spec() == Some(s));
            } else {
                let k = choose|k: int|
                    0 <= k < n - 1 && local_date(ls[k]) == Some(d) && (
                    #[trigger] es[k].data.symbol_code_spec()) == prev.symbol && local_distance(ls[k]) == prev.symbol_distance;
                assert(0 <= k < n && local_date(ls[k]) == Some(d));
            }
        }
        assert(local_distance(ls[n - 1]) < i64::MAX);
    }
}

/// An accumulator of a date that no entry so far falls on is still fresh.
proof fn lemma_acc_fresh(es: Seq<Entry>, ls: Seq<Option<LocalTime>>, d: Date, n: int)
    requires
        0 <= n <= es.len(),
        forall|k: int| 0 <= k < n ==> local_date(#[trigger] ls[k]) != Some(d),
    ensures
        acc_upto(es, ls, d, n) == new_acc(d),
    decreases n,
{
    if n > 0 {
        lemma_acc_fresh(es, ls, d, n - 1);
    }
}

/// Fold the UTC timeseries into current conditions and up to `FORECAST_DAYS`
/// local days of zone `zone`. Pure (no network) so it can be checked against
/// a fixture.
pub fn assemble(raw: &MetResponse, zone: &str, unit: TemperatureUnit) -> (r: Result<
    (Current, Vec<Day>),
    WeatherError,
>)
    requires
        unit == TemperatureUnit::Fahrenheit ==> forall|k: int|
            0 <= k < raw.properties.timeseries@.len() ==> entry_temps_bounded(
                #[trigger] raw.properties.timeseries@[k],
            ),
    ensures
        match r {
            Ok((current, days)) => assemble_spec(raw.properties.timeseries@, zone@, unit) == Ok::<
                (Current, Seq<Day>),
                WeatherError,
            >((current, days@)),
            Err(e) => assemble_spec(raw.properties.timeseries@, zone@, unit) == Err::<
                (Current, Seq<Day>),
                WeatherError,
            >(e),
        },
{
    let series = &raw.properties.timeseries;
    let mut locals: Vec<Option<LocalTime>> = Vec::new();
    for i in 0..series.len()
        invariant
            series@ == raw.properties.timeseries@,
            locals@ == zone_locals(series@, zone@).take(i as int),
    {
        let local = local_time(series[i].time.as_str(), zone);
        locals.push(local);
        assert(locals@ =~= zone_locals(series@, zone@).take(i + 1));
    }
    assert(locals@ =~= zone_locals(series@, zone@));
    fold_series(raw, &locals, unit)
}

/// Fold the UTC timeseries, whose entries have the local times `locals`
/// (`None` where a timestamp does not parse), into current conditions and up
/// to `FORECAST_DAYS` local days.
pub fn fold_series(raw: &MetResponse, locals: &Vec<Option<LocalTime>>, unit: TemperatureUnit) -> (r:
    Result<(Current, Vec<Day>), WeatherError>)
    requires
        locals@.len() == raw.properties.timeseries@.len(),
        unit == TemperatureUnit::Fahrenheit ==> forall|k: int|
            0 <= k < raw.properties.timeseries@.len() ==> entry_temps_bounded(
                #[trigger] raw.properties.timeseries@[k],
            ),
    ensures
        match r {
            Ok((current, days)) => fold_spec(raw.properties.timeseries@, locals@, unit) == Ok::<
                (Current, Seq<Day>),
                WeatherError,
            >((current, days@)),
            Err(e) => fold_spec(raw.properties.timeseries@, locals@, unit) == Err::<
                (Current, Seq<Day>),
                WeatherError,
            >(e),
        },
{
    let ghost ls = locals@;
    let series = &raw.properties.timeseries;
    let ghost es = series@;
    if series.len() == 0 {
        return Err(WeatherError::NoTimeseries);
    }
    let first = &series[0];
    let t0 = match first.data.instant.details.air_temperature {
        Some(t) => t,
        None => {
            return Err(WeatherError::MissingCurrentTemperature);
        },
    };
    proof {
        if unit == TemperatureUnit::Fahrenheit {
            assert(entry_temps_bounded(es[0]));
        }
    }
    let current = Current {
        temperature: convert_temp(t0, unit),
        condition: match first.data.symbol_code() {
            Some(code) => Condition::from_met_symbol(code),
            None => Condition::Unknown,
        },
    };

    let n = series.len();
    let mut acc: Vec<DayAcc> = Vec::new();
    for i in 0..n
        invariant
            n == es.len(),
            es == raw.properties.timeseries@,
            series@ == es,
            ls == locals@,
            ls.len() == n,
            acc@.len() == day_dates(ls, i as int).len(),
            forall|j: int|
                0 <= j < acc@.len() ==> (#[trigger] acc@[j])@ == acc_upto(es, ls, day_dates(ls, i as int)[j],
                    i as int,
                ),
    {
        proof {
            lemma_day_dates_props(es, ls, i as int);
            assert forall|j: int| 0 <= j < acc@.len() implies (#[trigger] acc@[j])@.date == day_dates(ls, i as int,
            )[j] by {
                lemma_acc_date(es, ls, day_dates(ls, i as int)[j], i as int);
            }
        }
        let entry = &series[i];
        match locals[i] {
            None => {
                assert(local_date(ls[i as int]) is None);
                assert(day_dates(ls, i + 1) == day_dates(ls, i as int));
                assert forall|j: int| 0 <= j < acc@.len() implies (#[trigger] acc@[j])@ == acc_upto(es, ls, day_dates(ls, i + 1)[j],
                    i + 1,
                ) by {}
            },
            Some(local) => {
                let date = Date { year: local.year, month: local.month, day: local.day };
                let distance = minutes_from_noon(&local);
                let ghost dates = day_dates(ls, i as int);
                assert(local_date(ls[i as int]) == Some(date));
                assert(local_distance(ls[i as int]) == distance);
                let mut k: usize = 0;
                while k < acc.len() && !(acc[k].date == date)
                    invariant
                        k <= acc@.len(),
                        acc@.len() == dates.len(),
                        forall|j: int| 0 <= j < acc@.len() ==> (#[trigger] acc@[j])@.date == dates[j],
                        forall|j: int| 0 <= j < k ==> dates[j] != date,
                    decreases acc@.len() - k,
                {
                    k = k + 1;
                }
                if k < acc.len() {
                    assert(dates[k as int] == date);
                    assert(dates.contains(date));
                    assert(day_dates(ls, i + 1) == dates);
                    let ghost before = acc@;
                    acc[k].absorb(entry, distance);
                    assert forall|j: int| 0 <= j < acc@.len() implies (#[trigger] acc@[j])@ == acc_upto(es, ls, day_dates(ls, i + 1)[j],
                        i + 1,
                    ) by {
                        if j != k {
                            assert(dates[j] != dates[k as int]);
                            assert(acc@[j] == before[j]);
                        }
                    }
                } else if acc.len() < FORECAST_DAYS {
                    assert(!dates.contains(date));
                    assert forall|kk: int| 0 <= kk < i implies local_date(#[trigger] ls[kk])
                        != Some(date) by {}
                    proof {
                        lemma_acc_fresh(es, ls, date, i as int);
                    }
                    let mut fresh = DayAcc::new(date);
                    fresh.absorb(entry, distance);
                    let ghost before = acc@;
                    acc.push(fresh);
                    assert(day_dates(ls, i + 1) == dates.push(date));
                    assert forall|j: int| 0 <= j < acc@.len() implies (#[trigger] acc@[j])@ == acc_upto(es, ls, day_dates(ls, i + 1)[j],
                        i + 1,
                    ) by {
                        if j < before.len() {
                            assert(acc@[j] == before[j]);
                            assert(dates[j] != date);
                        }
                    }
                } else {
                    assert(!dates.contains(date));
                    assert(day_dates(ls, i + 1) == dates);
                    assert forall|j: int| 0 <= j < acc@.len() implies (#[trigger] acc@[j])@ == acc_upto(es, ls, day_dates(ls, i + 1)[j],
                        i + 1,
                    ) by {
                        assert(dates[j] != date);
                    }
                }
            },
        }
    }

    let ghost dates = day_dates(ls, n as int);
    let mut days: Vec<Day> = Vec::new();
    for j in 0..acc.len()
        invariant
            n == es.len(),
            acc@.len() == dates.len(),
            dates == day_dates(ls, n as int),
            unit == TemperatureUnit::Fahrenheit ==> forall|k: int|
                0 <= k < es.len() ==> entry_temps_bounded(#[trigger] es[k]),
            forall|jj: int|
                0 <= jj < acc@.len() ==> (#[trigger] acc@[jj])@ == acc_upto(es, ls, dates[jj],
                    n as int,
                ),
            days@ == dates.take(j as int).map_values(
                |d: Date| finish_spec(acc_upto(es, ls, d, n as int), unit),
            ),
    {
        proof {
            if unit == TemperatureUnit::Fahrenheit {
                lemma_acc_bounded(es, ls, dates[j as int], n as int);
            }
        }
        let day = acc[j].finish(unit);
        days.push(day);
        assert(dates.take(j + 1) =~= dates.take(j as int).push(dates[j as int]));
    }
    assert(dates.take(acc@.len() as int) =~= dates);
    if days.len() == 0 {
        return Err(WeatherError::NoParseableDays);
    }
    Ok((current, days))
}

/// Whether `fahrenheit` is `celsius` (both in thousandths of a degree)
/// converted to Fahrenheit and rounded to the nearest thousandth: five times
/// its distance from 32 °F lies within two thousandths of nine times `celsius`.
pub open spec fn is_fahrenheit_of(celsius: int, fahrenheit: int) -> bool {
    -2 <= 5 * (fahrenheit - 32_000) - 9 * celsius <= 2
}

proof fn lemma_convert_fahrenheit(c: i64)
    requires
        -TEMP_LIMIT <= c <= TEMP_LIMIT,
    ensures
        is_fahrenheit_of(c as int, convert_temp_spec(c, TemperatureUnit::Fahrenheit) as int),
{
    let a = 9 * (c as int);
    let q = nearest_fifth(a);
    if a >= 0 {
        assert(-2 <= 5 * q - a <= 2 && 0 <= q <= a) by (nonlinear_arith)
            requires
                a >= 0,
                q == (a + 2) / 5,
        ;
    } else {
        assert(-2 <= 5 * q - a <= 2 && a <= q <= 0) by (nonlinear_arith)
            requires
                a < 0,
                q == -((-(a - 2)) / 5),
        ;
    }
}

/// A forecast in Fahrenheit is the forecast in Celsius with every temperature
/// converted (to the nearest thousandth of a degree), the current one and each
/// day's minimum and maximum; everything else, and whether it fails and how,
/// is the same in both units.
pub proof fn law_fahrenheit_converts_every_temperature(es: Seq<Entry>, ls: Seq<Option<LocalTime>>)
    requires
        forall|k: int| 0 <= k < es.len() ==> entry_temps_bounded(#[trigger] es[k]),
    ensures
        fold_spec(es, ls, TemperatureUnit::Fahrenheit) is Ok <==> fold_spec(es, ls, TemperatureUnit::Celsius) is Ok,
        fold_spec(es, ls, TemperatureUnit::Fahrenheit) matches Err(e) ==> fold_spec(
            es,
            ls,
            TemperatureUnit::Celsius,
        ) == Err::<(Current, Seq<Day>), WeatherError>(e),
        fold_spec(es, ls, TemperatureUnit::Fahrenheit) matches Ok((cf, df)) ==> (fold_spec(
            es,
            ls,
            TemperatureUnit::Celsius,
        ) matches Ok((cc, dc)) && {
            &&& is_fahrenheit_of(cc.temperature as int, cf.temperature as int)
            &&& cf.condition == cc.condition
            &&& df.len() == dc.len()
            &&& forall|k: int|
                0 <= k < df.len() ==> {
                    &&& is_fahrenheit_of(dc[k].temp_min as int, #[trigger] df[k].temp_min as int)
                    &&& is_fahrenheit_of(dc[k].temp_max as int, df[k].temp_max as int)
                    &&& df[k].date == dc[k].date
                    &&& df[k].precip_prob == dc[k].precip_prob
                    &&& df[k].condition == dc[k].condition
                }
        }),
{
    let n = es.len() as int;
    if fold_spec(es, ls, TemperatureUnit::Fahrenheit) is Ok {
        assert(entry_temps_bounded(es[0]));
        lemma_convert_fahrenheit(es[0].data.instant.details.air_temperature->0);
        let dates = day_dates(ls, n);
        let df = assembled_days(es, ls, TemperatureUnit::Fahrenheit);
        let dc = assembled_days(es, ls, TemperatureUnit::Celsius);
        assert forall|k: int| 0 <= k < df.len() implies {
            &&& is_fahrenheit_of(dc[k].temp_min as int, #[trigger] df[k].temp_min as int)
            &&& is_fahrenheit_of(dc[k].temp_max as int, df[k].temp_max as int)
            &&& df[k].date == dc[k].date
            &&& df[k].precip_prob == dc[k].precip_prob
            &&& df[k].condition == dc[k].condition
        } by {
            let acc = acc_upto(es, ls, dates[k], n);
            lemma_acc_bounded(es, ls, dates[k], n);
            let lo: i64 = match acc.temp_min {
                Some(t) => t,
                None => 0,
            };
            let hi: i64 = match acc.temp_max {
                Some(t) => t,
                None => 0,
            };
            lemma_convert_fahrenheit(lo);
            lemma_convert_fahrenheit(hi);
        }
    }
}

proof fn lemma_acc_bounded(es: Seq<Entry>, ls: Seq<Option<LocalTime>>, d: Date, n: int)
    requires
        0 <= n <= es.len(),
        forall|k: int| 0 <= k < es.len() ==> entry_temps_bounded(#[trigger] es[k]),
    ensures
        acc_temps_bounded(acc_upto(es, ls, d, n)),
    decreases n,
{
    if n > 0 {
        lemma_acc_bounded(es, ls, d, n - 1);
        assert(entry_temps_bounded(es[n - 1]));
    }
}

proof fn lemma_acc_date(es: Seq<Entry>, ls: Seq<Option<LocalTime>>, d: Date, n: int)
    ensures
        acc_upto(es, ls, d, n).date == d,
    decreases n,
{
    if n > 0 {
        lemma_acc_date(es, ls, d, n - 1);
    }
}

/// The forecast for `place` from a met.no response, refreshed at the local
/// second count `now_local`.
pub fn forecast_at(place: &Place, raw: &MetResponse, config: &Config, now_local: i64) -> (r:
    Result<Forecast, WeatherError>)
    requires
        config.units.temperature == TemperatureUnit::Fahrenheit ==> forall|k: int|
            0 <= k < raw.properties.timeseries@.len() ==> entry_temps_bounded(
                #[trigger] raw.properties.timeseries@[k],
            ),
    ensures
        match r {
            Ok(f) => {
                &&& assemble_spec(
                    raw.properties.timeseries@,
                    resolved_zone(*place),
                    config.units.temperature,
                ) == Ok::<(Current, Seq<Day>), WeatherError>((f.current, f.days@))
                &&& f.location_name@ == display_name_spec(*place, config.language)
                &&& f.temperature_symbol@ == config.units.temperature.symbol_spec()
                &&& f.refreshed_at@ == refreshed_text(now_local as int)
            },
            Err(e) => assemble_spec(
                raw.properties.timeseries@,
                resolved_zone(*place),
                config.units.temperature,
            ) == Err::<(Current, Seq<Day>), WeatherError>(e),
        },
{
    let zone = resolve_zone(place);
    let (current, days) = match assemble(raw, zone.as_str(), config.units.temperature) {
        Ok(parts) => parts,
        Err(e) => {
            return Err(e);
        },
    };
    Ok(
        Forecast {
            location_name: display_name(place, config.language),
            current,
            days,
            temperature_symbol: config.units.temperature.symbol(),
            refreshed_at: format_refreshed_at(now_local),
        },
    )
}

/// Whether an entry's temperature is within `TEMP_LIMIT` (or absent).
fn temp_in_range(t: Option<i64>) -> (r: bool)
    ensures
        r == (t matches Some(v) ==> -TEMP_LIMIT <= v <= TEMP_LIMIT),
{
    match t {
        Some(v) => -TEMP_LIMIT <= v && v <= TEMP_LIMIT,
        None => true,
    }
}

/// Whether every temperature of the series lies within `TEMP_LIMIT`, the
/// range the Fahrenheit conversion handles.
pub fn temperatures_in_range(raw: &MetResponse) -> (r: bool)
    ensures
        r == forall|k: int|
            0 <= k < raw.properties.timeseries@.len() ==> entry_temps_bounded(
                #[trigger] raw.properties.timeseries@[k],
            ),
{
    let n = raw.properties.timeseries.len();
    for i in 0..n
        invariant
            n == raw.properties.timeseries@.len(),
            forall|k: int| 0 <= k < i ==> entry_temps_bounded(#[trigger] raw.properties.timeseries@[k]),
    {
        let e = &raw.properties.timeseries[i];
        let mut ok = temp_in_range(e.data.instant.details.air_temperature);
        if let Some(p) = &e.data.next_6_hours {
            if let Some(d) = &p.details {
                ok = ok && temp_in_range(d.air_temperature_min) && temp_in_range(
                    d.air_temperature_max,
                );
            }
        }
        if !ok {
            assert(!entry_temps_bounded(raw.properties.timeseries@[i as int]));
            return false;
        }
    }
    true
}

/// The forecast for `place` from a met.no response, refreshed now (the clock
/// read in the place's zone). `None`, before the clock is read, when Fahrenheit
/// is asked for and a temperature lies beyond `TEMP_LIMIT`.
pub fn forecast_from_response(place: &Place, raw: &MetResponse, config: &Config) -> (r: Option<
    Result<Forecast, WeatherError>,
>)
    ensures
        r is None <==> (config.units.temperature == TemperatureUnit::Fahrenheit && !(forall|k: int|
            0 <= k < raw.properties.timeseries@.len() ==> entry_temps_bounded(
                #[trigger] raw.properties.timeseries@[k],
            ))),
        r matches Some(Ok(f)) ==> {
            &&& assemble_spec(
                raw.properties.timeseries@,
                resolved_zone(*place),
                config.units.temperature,
            ) == Ok::<(Current, Seq<Day>), WeatherError>((f.current, f.days@))
            &&& f.location_name@ == display_name_spec(*place, config.language)
            &&& f.temperature_symbol@ == config.units.temperature.symbol_spec()
            &&& exists|now: i64|
                f.refreshed_at@ == refreshed_text(
                    #[trigger] local_secs_spec(resolved_zone(*place), now),
                )
        },
        r matches Some(Err(e)) ==> assemble_spec(
            raw.properties.timeseries@,
            resolved_zone(*place),
            config.units.temperature,
        ) == Err::<(Current, Seq<Day>), WeatherError>(e),
{
    if config.units.temperature == TemperatureUnit::Fahrenheit && !temperatures_in_range(raw) {
        return None;
    }
    let zone = resolve_zone(place);
    let now = now_local_secs(zone.as_str());
    Some(forecast_at(place, raw, config, now))
}

} // verus!
