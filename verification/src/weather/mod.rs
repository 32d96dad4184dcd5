//! Weather data: the display-facing domain model and the folding of each
//! provider's response into it.

pub mod geocode;
pub mod model;
pub mod met_no;
pub mod open_meteo;

pub use model::{Condition, Current, Date, Day, Forecast};

use vstd::prelude::*;

verus! {

/// Why a provider's response could not be folded into a forecast.
#[derive(Debug, Clone, Copy, PartialEq, Eq, Structural)]
pub enum WeatherError {
    /// The Open-Meteo response held no daily entries.
    NoDailyEntries,
    /// No Open-Meteo daily entry had a parseable date.
    NoParseableDailyEntries,
    /// The met.no response held no timeseries entries.
    NoTimeseries,
    /// The first met.no entry carried no air temperature.
    MissingCurrentTemperature,
    /// No met.no entry had a parseable time.
    NoParseableDays,
}

/// `std::time::UNIX_EPOCH.elapsed()`: the system clock's current reading in
/// whole seconds, `Ok` with the seconds since the Unix epoch, or `Err` with the
/// seconds before it when the clock reads earlier (`SystemTime::elapsed`
/// returns an error there, which carries that distance). The reading depends
/// on the clock, so nothing is stated of it.
#[verifier::external_body]
pub(crate) fn clock_since_epoch() -> Result<u64, u64> {
    match std::time::UNIX_EPOCH.elapsed() {
        Ok(d) => Ok(d.as_secs()),
        Err(e) => Err(e.duration().as_secs()),
    }
}

} // verus!
