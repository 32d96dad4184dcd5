//! The display-facing weather model, decoupled from the providers' JSON shapes.
//!
//! Temperatures are held in thousandths of a degree and probabilities in whole
//! percent, so that every computation on them is exact integer arithmetic.

use vstd::prelude::*;

use crate::config::Language;
use crate::text::{lemma_decimal_digits, lemma_find_char, lemma_parse_i32_decimal, lemma_parse_u32_decimal, is_digit, push_two_digits, push_decimal, push_str, decimal, string_from_chars, two_digits, find_char, find_char_in, parse_i32, parse_i32_spec, parse_u32, parse_u32_spec, chars_of, contains_chars, contains_seq, ends_with, ends_with_chars};

verus! {

/// A weather condition, derived from a WMO weather interpretation code or a
/// met.no symbol code.
#[derive(Debug, Clone, Copy, PartialEq, Eq, Structural)]
pub enum Condition {
    Clear,
    MainlyClear,
    PartlyCloudy,
    Overcast,
    Fog,
    Drizzle,
    Rain,
    FreezingRain,
    Snow,
    Showers,
    SnowShowers,
    Thunderstorm,
    Unknown,
}

/// The condition that a WMO weather code stands for.
pub open spec fn wmo_condition(code: u8) -> Condition {
    if code == 0 {
        Condition::Clear
    } else if code == 1 {
        Condition::MainlyClear
    } else if code == 2 {
        Condition::PartlyCloudy
    } else if code == 3 {
        Condition::Overcast
    } else if code == 45 || code == 48 {
        Condition::Fog
    } else if code == 51 || code == 53 || code == 55 {
        Condition::Drizzle
    } else if code == 56 || code == 57 || code == 66 || code == 67 {
        Condition::FreezingRain
    } else if code == 61 || code == 63 || code == 65 {
        Condition::Rain
    } else if code == 71 || code == 73 || code == 75 || code == 77 {
        Condition::Snow
    } else if code == 80 || code == 81 || code == 82 {
        Condition::Showers
    } else if code == 85 || code == 86 {
        Condition::SnowShowers
    } else if code == 95 || code == 96 || code == 99 {
        Condition::Thunderstorm
    } else {
        Condition::Unknown
    }
}

/// A met.no symbol code without its `_day` / `_night` / `_polartwilight`
/// variant suffix.
pub open spec fn met_symbol_base(s: Seq<char>) -> Seq<char> {
    if ends_with(s, "_day"@) {
        s.subrange(0, s.len() - 4)
    } else if ends_with(s, "_night"@) {
        s.subrange(0, s.len() - 6)
    } else if ends_with(s, "_polartwilight"@) {
        s.subrange(0, s.len() - 14)
    } else {
        s
    }
}

/// The condition that a met.no symbol code stands for.
pub open spec fn met_condition(s: Seq<char>) -> Condition {
    let base = met_symbol_base(s);
    if contains_seq(base, "thunder"@) {
        Condition::Thunderstorm
    } else if base == "clearsky"@ {
        Condition::Clear
    } else if base == "fair"@ {
        Condition::MainlyClear
    } else if base == "partlycloudy"@ {
        Condition::PartlyCloudy
    } else if base == "cloudy"@ {
        Condition::Overcast
    } else if base == "fog"@ {
        Condition::Fog
    } else if contains_seq(base, "sleet"@) {
        Condition::FreezingRain
    } else if contains_seq(base, "snowshowers"@) {
        Condition::SnowShowers
    } else if contains_seq(base, "snow"@) {
        Condition::Snow
    } else if contains_seq(base, "rainshowers"@) {
        Condition::Showers
    } else if contains_seq(base, "rain"@) {
        Condition::Rain
    } else {
        Condition::Unknown
    }
}

impl Condition {
    /// Map a WMO weather code (as returned by Open-Meteo) to a condition.
    pub fn from_wmo(code: u8) -> (r: Self)
        ensures
            r == wmo_condition(code),
    {
        match code {
            0 => Condition::Clear,
            1 => Condition::MainlyClear,
            2 => Condition::PartlyCloudy,
            3 => Condition::Overcast,
            45 | 48 => Condition::Fog,
            51 | 53 | 55 => Condition::Drizzle,
            56 | 57 | 66 | 67 => Condition::FreezingRain,
            61 | 63 | 65 => Condition::Rain,
            71 | 73 | 75 | 77 => Condition::Snow,
            80 | 81 | 82 => Condition::Showers,
            85 | 86 => Condition::SnowShowers,
            95 | 96 | 99 => Condition::Thunderstorm,
            _ => Condition::Unknown,
        }
    }

    /// Map a met.no symbol code (e.g. "clearsky_day", "lightrainshowers_night")
    /// to a condition. Any code with thunder is a thunderstorm; sleet counts as
    /// freezing rain.
    pub fn from_met_symbol(code: &str) -> (r: Self)
        ensures
            r == met_condition(code@),
    {
        let s = chars_of(code);
        let len = s.len();
        let day = chars_of("_day");
        let night = chars_of("_night");
        let twilight = chars_of("_polartwilight");
        proof {
            reveal_strlit("_day");
            reveal_strlit("_night");
            reveal_strlit("_polartwilight");
        }
        let base_len = if ends_with_chars(&s, &day) {
            len - 4
        } else if ends_with_chars(&s, &night) {
            len - 6
        } else if ends_with_chars(&s, &twilight) {
            len - 14
        } else {
            len
        };
        let base = prefix_of(&s, base_len);
        assert(base@ == met_symbol_base(code@));
        if contains_chars(&base, &chars_of("thunder")) {
            Condition::Thunderstorm
        } else if chars_eq(&base, &chars_of("clearsky")) {
            Condition::Clear
        } else if chars_eq(&base, &chars_of("fair")) {
            Condition::MainlyClear
        } else if chars_eq(&base, &chars_of("partlycloudy")) {
            Condition::PartlyCloudy
        } else if chars_eq(&base, &chars_of("cloudy")) {
            Condition::Overcast
        } else if chars_eq(&base, &chars_of("fog")) {
            Condition::Fog
        } else if contains_chars(&base, &chars_of("sleet")) {
            Condition::FreezingRain
        } else if contains_chars(&base, &chars_of("snowshowers")) {
            Condition::SnowShowers
        } else if contains_chars(&base, &chars_of("snow")) {
            Condition::Snow
        } else if contains_chars(&base, &chars_of("rainshowers")) {
            Condition::Showers
        } else if contains_chars(&base, &chars_of("rain")) {
            Condition::Rain
        } else {
            Condition::Unknown
        }
    }

    /// Short human-readable label for the header.
    pub open spec fn label_spec(self, lang: Language) -> Seq<char> {
        match lang {
            Language::En => match self {
                Condition::Clear => "Clear"@,
                Condition::MainlyClear => "Mainly clear"@,
                Condition::PartlyCloudy => "Partly cloudy"@,
                Condition::Overcast => "Overcast"@,
                Condition::Fog => "Fog"@,
                Condition::Drizzle => "Drizzle"@,
                Condition::Rain => "Rain"@,
                Condition::FreezingRain => "Freezing rain"@,
                Condition::Snow => "Snow"@,
                Condition::Showers => "Showers"@,
                Condition::SnowShowers => "Snow showers"@,
                Condition::Thunderstorm => "Thunderstorm"@,
                Condition::Unknown => "—"@,
            },
            Language::Hr => match self {
                Condition::Clear => "Vedro"@,
                Condition::MainlyClear => "Pretezno vedro"@,
                Condition::PartlyCloudy => "Djelomicno oblacno"@,
                Condition::Overcast => "Oblacno"@,
                Condition::Fog => "Magla"@,
                Condition::Drizzle => "Rosulja"@,
                Condition::Rain => "Kisa"@,
                Condition::FreezingRain => "Ledena kisa"@,
                Condition::Snow => "Snijeg"@,
                Condition::Showers => "Pljuskovi"@,
                Condition::SnowShowers => "Snjezni pljuskovi"@,
                Condition::Thunderstorm => "Grmljavina"@,
                Condition::Unknown => "—"@,
            },
        }
    }

    /// Short human-readable label for the header.
    pub fn label(self, lang: Language) -> (r: &'static str)
        ensures
            r@ == self.label_spec(lang),
    {
        match lang {
            Language::En => match self {
                Condition::Clear => "Clear",
                Condition::MainlyClear => "Mainly clear",
                Condition::PartlyCloudy => "Partly cloudy",
                Condition::Overcast => "Overcast",
                Condition::Fog => "Fog",
                Condition::Drizzle => "Drizzle",
                Condition::Rain => "Rain",
                Condition::FreezingRain => "Freezing rain",
                Condition::Snow => "Snow",
                Condition::Showers => "Showers",
                Condition::SnowShowers => "Snow showers",
                Condition::Thunderstorm => "Thunderstorm",
                Condition::Unknown => "—",
            },
            Language::Hr => match self {
                Condition::Clear => "Vedro",
                Condition::MainlyClear => "Pretezno vedro",
                Condition::PartlyCloudy => "Djelomicno oblacno",
                Condition::Overcast => "Oblacno",
                Condition::Fog => "Magla",
                Condition::Drizzle => "Rosulja",
                Condition::Rain => "Kisa",
                Condition::FreezingRain => "Ledena kisa",
                Condition::Snow => "Snijeg",
                Condition::Showers => "Pljuskovi",
                Condition::SnowShowers => "Snjezni pljuskovi",
                Condition::Thunderstorm => "Grmljavina",
                Condition::Unknown => "—",
            },
        }
    }
}

/// A calendar date, parsed from an ISO `YYYY-MM-DD` string.
#[derive(Debug, Clone, Copy, PartialEq, Eq, Structural)]
pub struct Date {
    pub year: i32,
    pub month: u32,
    pub day: u32,
}

/// Characters that end the date portion of an ISO timestamp.
pub open spec fn is_date_sep(c: char) -> bool {
    c == 'T' || c == ' '
}

/// Length of the date portion of `s`: everything before the first `T` or space.
pub open spec fn date_part_len(s: Seq<char>) -> int
    decreases s.len(),
{
    if s.len() == 0 {
        0
    } else if is_date_sep(s[0]) {
        0
    } else {
        1 + date_part_len(s.drop_first())
    }
}

/// The date portion of `s`: everything before the first `T` or space.
pub open spec fn date_part(s: Seq<char>) -> Seq<char> {
    s.take(date_part_len(s))
}

/// The first three `-`-separated fields of `d`, when it has at least two `-`.
pub open spec fn dash_fields(d: Seq<char>) -> Option<(Seq<char>, Seq<char>, Seq<char>)> {
    match find_char(d, '-') {
        None => None,
        Some(i) => {
            let r1 = d.skip(i + 1);
            match find_char(r1, '-') {
                None => None,
                Some(j) => {
                    let r2 = r1.skip(j + 1);
                    let f2 = match find_char(r2, '-') {
                        Some(k) => r2.take(k),
                        None => r2,
                    };
                    Some((d.take(i), r1.take(j), f2))
                },
            }
        },
    }
}

/// What `Date::parse` returns for `s`: the date portion split on `-`, its
/// first three fields read as an `i32` year and `u32` month and day, accepted
/// when the month is 1 to 12 and the day 1 to 31.
pub open spec fn parse_date_spec(s: Seq<char>) -> Option<Date> {
    match dash_fields(date_part(s)) {
        None => None,
        Some((y, m, d)) => match (parse_i32_spec(y), parse_u32_spec(m), parse_u32_spec(d)) {
            (Some(year), Some(month), Some(day)) => if 1 <= month <= 12 && 1 <= day <= 31 {
                Some(Date { year, month, day })
            } else {
                None
            },
            _ => None,
        },
    }
}

/// Parsing the decimal text `y-m-d` of a year from 0 on gives back `y`, `m`
/// and `d` exactly when the month is 1 to 12 and the day 1 to 31; the day is
/// not checked against the month (`2026-02-31` parses).
pub proof fn law_parse_decimal_date(y: i32, m: u32, d: u32)
    requires
        y >= 0,
    ensures
        parse_date_spec(
            decimal(y as nat) + seq!['-'] + decimal(m as nat) + seq!['-'] + decimal(d as nat),
        ) == if 1 <= m <= 12 && 1 <= d <= 31 {
            Some(Date { year: y, month: m, day: d })
        } else {
            None
        },
{
    let ys = decimal(y as nat);
    let ms = decimal(m as nat);
    let ds = decimal(d as nat);
    lemma_decimal_digits(y as nat);
    lemma_decimal_digits(m as nat);
    lemma_decimal_digits(d as nat);
    lemma_parse_i32_decimal(y);
    lemma_parse_u32_decimal(m);
    lemma_parse_u32_decimal(d);
    let tail = ms + seq!['-'] + ds;
    let full = ys + seq!['-'] + tail;
    assert(full =~= ys + seq!['-'] + ms + seq!['-'] + ds);
    assert forall|j: int| 0 <= j < full.len() implies !is_date_sep(#[trigger] full[j]) by {
        if j < ys.len() {
            assert(full[j] == ys[j] && is_digit(ys[j]));
        } else if j == ys.len() {
        } else if j < ys.len() + 1 + ms.len() {
            assert(full[j] == ms[j - ys.len() - 1] && is_digit(ms[j - ys.len() - 1]));
        } else if j == ys.len() + 1 + ms.len() {
        } else {
            assert(full[j] == ds[j - ys.len() - 2 - ms.len()]);
            assert(is_digit(ds[j - ys.len() - 2 - ms.len()]));
        }
    }
    lemma_date_part_len(full, full.len() as int);
    assert(date_part(full) =~= full);
    assert forall|j: int| 0 <= j < ys.len() implies full[j] != '-' by {
        assert(full[j] == ys[j] && is_digit(ys[j]));
    }
    lemma_find_char(full, '-', ys.len() as int);
    let r1 = full.skip(ys.len() + 1int);
    assert(r1 =~= tail);
    assert forall|j: int| 0 <= j < ms.len() implies tail[j] != '-' by {
        assert(tail[j] == ms[j] && is_digit(ms[j]));
    }
    lemma_find_char(tail, '-', ms.len() as int);
    let r2 = tail.skip(ms.len() + 1int);
    assert(r2 =~= ds);
    assert forall|j: int| 0 <= j < ds.len() implies ds[j] != '-' by {
        assert(is_digit(ds[j]));
    }
    lemma_find_char(ds, '-', ds.len() as int);
    assert(full.take(ys.len() as int) =~= ys);
    assert(tail.take(ms.len() as int) =~= ms);
    assert(dash_fields(full) == Some((ys, ms, ds)));
}

proof fn lemma_date_part_len(s: Seq<char>, k: int)
    requires
        0 <= k <= s.len(),
        forall|j: int| 0 <= j < k ==> !is_date_sep(s[j]),
        k == s.len() || is_date_sep(s[k]),
    ensures
        date_part_len(s) == k,
    decreases k,
{
    if k > 0 {
        lemma_date_part_len(s.drop_first(), k - 1);
    }
}

/// Truncating division (Rust's `/` on signed integers) by a positive divisor.
pub open spec fn tdiv(a: int, b: int) -> int {
    if a >= 0 {
        a / b
    } else {
        -((-a) / b)
    }
}

/// Sakamoto's month offsets.
pub open spec fn sakamoto_offset(m: int) -> int {
    if m == 0 { 0 } else if m == 1 { 3 } else if m == 2 { 2 } else if m == 3 { 5 }
    else if m == 4 { 0 } else if m == 5 { 3 } else if m == 6 { 5 } else if m == 7 { 1 }
    else if m == 8 { 4 } else if m == 9 { 6 } else if m == 10 { 2 } else { 4 }
}

/// `day as i32`: the day number, wrapped into the `i32` range.
pub open spec fn day_as_i32(day: u32) -> int {
    if day <= 0x7fff_ffff {
        day as int
    } else {
        day - 0x1_0000_0000
    }
}

/// Day of week by Sakamoto's algorithm: 0 = Sunday ... 6 = Saturday.
pub open spec fn weekday_spec(d: Date) -> int {
    let y: int = if d.month < 3 {
        d.year - 1
    } else {
        d.year as int
    };
    let sum = y + tdiv(y, 4) - tdiv(y, 100) + tdiv(y, 400) + sakamoto_offset(d.month - 1)
        + day_as_i32(d.day);
    sum % 7
}

pub open spec fn weekday_name(lang: Language, i: int) -> Seq<char> {
    match lang {
        Language::En => if i == 0 { "Sun"@ } else if i == 1 { "Mon"@ } else if i == 2 { "Tue"@ }
            else if i == 3 { "Wed"@ } else if i == 4 { "Thu"@ } else if i == 5 { "Fri"@ }
            else { "Sat"@ },
        Language::Hr => if i == 0 { "Ned"@ } else if i == 1 { "Pon"@ } else if i == 2 { "Uto"@ }
            else if i == 3 { "Sri"@ } else if i == 4 { "Cet"@ } else if i == 5 { "Pet"@ }
            else { "Sub"@ },
    }
}

pub open spec fn month_name(lang: Language, m: int) -> Seq<char> {
    match lang {
        Language::En => if m == 1 { "Jan"@ } else if m == 2 { "Feb"@ } else if m == 3 { "Mar"@ }
            else if m == 4 { "Apr"@ } else if m == 5 { "May"@ } else if m == 6 { "Jun"@ }
            else if m == 7 { "Jul"@ } else if m == 8 { "Aug"@ } else if m == 9 { "Sep"@ }
            else if m == 10 { "Oct"@ } else if m == 11 { "Nov"@ } else { "Dec"@ },
        Language::Hr => if m == 1 { "Sij"@ } else if m == 2 { "Velj"@ } else if m == 3 { "Ozu"@ }
            else if m == 4 { "Tra"@ } else if m == 5 { "Svi"@ } else if m == 6 { "Lip"@ }
            else if m == 7 { "Srp"@ } else if m == 8 { "Kol"@ } else if m == 9 { "Ruj"@ }
            else if m == 10 { "Lis"@ } else if m == 11 { "Stu"@ } else { "Pro"@ },
    }
}

impl Date {
    /// Parse `YYYY-MM-DD`; the leading date portion of an ISO timestamp is fine.
    pub fn parse(s: &str) -> (r: Option<Self>)
        ensures
            r == parse_date_spec(s@),
            r matches Some(d) ==> 1 <= d.month <= 12 && 1 <= d.day <= 31,
    {
        let v = chars_of(s);
        let len = v.len();
        let mut end: usize = 0;
        while end < len && !(v[end] == 'T' || v[end] == ' ')
            invariant
                end <= len == v@.len(),
                forall|j: int| 0 <= j < end ==> !is_date_sep(v@[j]),
            decreases len - end,
        {
            end = end + 1;
        }
        proof {
            lemma_date_part_len(v@, end as int);
        }
        let ghost d = v@.take(end as int);
        assert(d == date_part(s@));
        assert(d =~= v@.subrange(0, end as int));
        let i = match find_char_in(&v, 0, end, '-') {
            Some(i) => i,
            None => {
                return None;
            },
        };
        let ghost r1 = d.skip(i + 1);
        assert(r1 =~= v@.subrange(i + 1, end as int));
        assert(find_char(d, '-') == Some(i as int));
        let j = match find_char_in(&v, i + 1, end, '-') {
            Some(j) => j,
            None => {
                return None;
            },
        };
        let ghost r2 = r1.skip(j - i);
        assert(r2 =~= v@.subrange(j + 1, end as int));
        let k = match find_char_in(&v, j + 1, end, '-') {
            Some(k) => k,
            None => end,
        };
        assert(d.take(i as int) =~= v@.subrange(0, i as int));
        assert(r1.take(j - i - 1) =~= v@.subrange(i + 1, j as int));
        assert(match find_char(r2, '-') {
            Some(kk) => r2.take(kk),
            None => r2,
        } =~= v@.subrange(j + 1, k as int));
        let year = match parse_i32(&v, 0, i) {
            Some(y) => y,
            None => {
                return None;
            },
        };
        let month = match parse_u32(&v, i + 1, j) {
            Some(m) => m,
            None => {
                return None;
            },
        };
        let day = match parse_u32(&v, j + 1, k) {
            Some(dd) => dd,
            None => {
                return None;
            },
        };
        if 1 <= month && month <= 12 && 1 <= day && day <= 31 {
            Some(Date { year, month, day })
        } else {
            None
        }
    }

    /// Day of week via Sakamoto's algorithm. 0 = Sunday ... 6 = Saturday.
    #[verifier::spinoff_prover]
    #[verifier::rlimit(40)]
    fn weekday_index(self) -> (r: usize)
        requires
            1 <= self.month <= 12,
        ensures
            r == weekday_spec(self),
            r < 7,
    {
        let mut y: i64 = self.year as i64;
        if self.month < 3 {
            y = y - 1;
        }
        let m = self.month - 1;
        let t: i64 = if m == 0 { 0 } else if m == 1 { 3 } else if m == 2 { 2 } else if m == 3 { 5 }
            else if m == 4 { 0 } else if m == 5 { 3 } else if m == 6 { 5 } else if m == 7 { 1 }
            else if m == 8 { 4 } else if m == 9 { 6 } else if m == 10 { 2 } else { 4 };
        let day: i64 = if self.day <= 0x7fff_ffff {
            self.day as i64
        } else {
            self.day as i64 - 0x1_0000_0000
        };
        let q4 = y / 4;
        let q100 = y / 100;
        let q400 = y / 400;
        assert(q4 == tdiv(y as int, 4));
        assert(q100 == tdiv(y as int, 100));
        assert(q400 == tdiv(y as int, 400));
        let sum: i64 = y + q4 - q100 + q400 + t + day;
        let rem = sum % 7;
        let r = (rem + 7) % 7;
        assert(r == (sum as int) % 7);
        r as usize
    }

    /// Short weekday name in `lang`.
    pub fn weekday_short(self, lang: Language) -> (r: &'static str)
        requires
            1 <= self.month <= 12,
        ensures
            r@ == weekday_name(lang, weekday_spec(self)),
    {
        let i = self.weekday_index();
        match lang {
            Language::En => if i == 0 { "Sun" } else if i == 1 { "Mon" } else if i == 2 { "Tue" }
                else if i == 3 { "Wed" } else if i == 4 { "Thu" } else if i == 5 { "Fri" }
                else { "Sat" },
            Language::Hr => if i == 0 { "Ned" } else if i == 1 { "Pon" } else if i == 2 { "Uto" }
                else if i == 3 { "Sri" } else if i == 4 { "Cet" } else if i == 5 { "Pet" }
                else { "Sub" },
        }
    }

    /// Short month name in `lang`.
    pub fn month_short(self, lang: Language) -> (r: &'static str)
        requires
            1 <= self.month <= 12,
        ensures
            r@ == month_name(lang, self.month as int),
    {
        let m = self.month;
        match lang {
            Language::En => if m == 1 { "Jan" } else if m == 2 { "Feb" } else if m == 3 { "Mar" }
                else if m == 4 { "Apr" } else if m == 5 { "May" } else if m == 6 { "Jun" }
                else if m == 7 { "Jul" } else if m == 8 { "Aug" } else if m == 9 { "Sep" }
                else if m == 10 { "Oct" } else if m == 11 { "Nov" } else { "Dec" },
            Language::Hr => if m == 1 { "Sij" } else if m == 2 { "Velj" } else if m == 3 { "Ozu" }
                else if m == 4 { "Tra" } else if m == 5 { "Svi" } else if m == 6 { "Lip" }
                else if m == 7 { "Srp" } else if m == 8 { "Kol" } else if m == 9 { "Ruj" }
                else if m == 10 { "Lis" } else if m == 11 { "Stu" } else { "Pro" },
        }
    }
}

/// Parsing looks only at the date portion of an ISO timestamp: whatever
/// follows the first `T` or space does not change the result.
pub proof fn law_parse_ignores_time_of_day(date: Seq<char>, sep: char, rest: Seq<char>)
    requires
        forall|j: int| 0 <= j < date.len() ==> !is_date_sep(#[trigger] date[j]),
        is_date_sep(sep),
    ensures
        parse_date_spec(date + seq![sep] + rest) == parse_date_spec(date),
{
    let full = date + seq![sep] + rest;
    assert forall|j: int| 0 <= j < date.len() implies !is_date_sep(#[trigger] full[j]) by {
        assert(full[j] == date[j]);
    }
    assert(full[date.len() as int] == sep);
    lemma_date_part_len(full, date.len() as int);
    assert forall|j: int| 0 <= j < date.len() implies !is_date_sep(#[trigger] date[j]) by {}
    lemma_date_part_len(date, date.len() as int);
    assert(date_part(full) =~= date_part(date));
}

/// Civil date (year, month, day) of a count of days since 1970-01-01, by
/// Hinnant's algorithm; the year is not yet narrowed to `i32`.
pub open spec fn civil_from_days(days: int) -> (int, int, int) {
    let z = days + 719_468;
    let era = z / 146_097;
    let doe = z - era * 146_097;
    let yoe = (doe - doe / 1460 + doe / 36_524 - doe / 146_096) / 365;
    let doy = doe - (365 * yoe + yoe / 4 - yoe / 100);
    let mp = (5 * doy + 2) / 153;
    let day = doy - (153 * mp + 2) / 5 + 1;
    let month = if mp < 10 {
        mp + 3
    } else {
        mp - 9
    };
    let year = yoe + era * 400 + if month <= 2 {
        1int
    } else {
        0int
    };
    (year, month, day)
}

proof fn lemma_civil_ranges(doe: int)
    requires
        0 <= doe < 146_097,
    ensures
        ({
            let yoe = (doe - doe / 1460 + doe / 36_524 - doe / 146_096) / 365;
            let doy = doe - (365 * yoe + yoe / 4 - yoe / 100);
            let mp = (5 * doy + 2) / 153;
            let day = doy - (153 * mp + 2) / 5 + 1;
            &&& 0 <= yoe <= 399
            &&& 0 <= doy <= 365
            &&& 0 <= mp <= 11
            &&& 1 <= day <= 31
        }),
{
    let yoe = (doe - doe / 1460 + doe / 36_524 - doe / 146_096) / 365;
    assert(0 <= yoe <= 399) by (nonlinear_arith)
        requires
            0 <= doe < 146_097,
            yoe == (doe - doe / 1460 + doe / 36_524 - doe / 146_096) / 365,
    ;
    let doy = doe - (365 * yoe + yoe / 4 - yoe / 100);
    assert(0 <= doy <= 365) by (nonlinear_arith)
        requires
            0 <= doe < 146_097,
            yoe == (doe - doe / 1460 + doe / 36_524 - doe / 146_096) / 365,
            doy == doe - (365 * yoe + yoe / 4 - yoe / 100),
    ;
    let mp = (5 * doy + 2) / 153;
    let day = doy - (153 * mp + 2) / 5 + 1;
    assert(0 <= mp <= 11 && 1 <= day <= 31) by (nonlinear_arith)
        requires
            0 <= doy <= 365,
            mp == (5 * doy + 2) / 153,
            day == doy - (153 * mp + 2) / 5 + 1,
    ;
}

/// Gregorian leap year.
pub open spec fn is_leap(y: int) -> bool {
    (y % 4 == 0 && y % 100 != 0) || y % 400 == 0
}

/// Days in month `m` (1 to 12) of year `y`.
pub open spec fn days_in_month(y: int, m: int) -> int {
    if m == 2 {
        if is_leap(y) {
            29
        } else {
            28
        }
    } else if m == 4 || m == 6 || m == 9 || m == 11 {
        30
    } else {
        31
    }
}

/// Days of year `y` before the first of month `m` (1 to 12).
pub open spec fn days_before_month(y: int, m: int) -> int {
    let common = if m == 1 { 0int } else if m == 2 { 31 } else if m == 3 { 59 } else if m == 4 { 90 }
        else if m == 5 { 120 } else if m == 6 { 151 } else if m == 7 { 181 } else if m == 8 { 212 }
        else if m == 9 { 243 } else if m == 10 { 273 } else if m == 11 { 304 } else { 334 };
    common + if m > 2 && is_leap(y) {
        1int
    } else {
        0int
    }
}

/// Leap years among the years 1 .. y - 1 (counted with floor division, so the
/// count is also meaningful for years before 1).
pub open spec fn leaps_before(y: int) -> int {
    (y - 1) / 4 - (y - 1) / 100 + (y - 1) / 400
}

/// Days from 1970-01-01 to the first of January of year `y`.
pub open spec fn days_before_year(y: int) -> int {
    365 * (y - 1970) + leaps_before(y) - leaps_before(1970)
}

/// The number of days from 1970-01-01 to the date `(y, m, d)`.
pub open spec fn days_from_civil(y: int, m: int, d: int) -> int {
    days_before_year(y) + days_before_month(y, m) + d - 1
}

proof fn lemma_div_shift(a: int, k: int, q: int)
    requires
        k > 0,
    ensures
        (k * q + a) / k == q + a / k,
        (k * q + a) % k == a % k,
{
    assert((k * q + a) / k == q + a / k && (k * q + a) % k == a % k) by (nonlinear_arith)
        requires
            k > 0,
    {
        vstd::arithmetic::div_mod::lemma_fundamental_div_mod(a, k);
        vstd::arithmetic::div_mod::lemma_fundamental_div_mod_converse(k * q + a, k, q + a / k, a % k);
    }
}

proof fn lemma_leaps_era(e: int, r: int)
    ensures
        leaps_before(400 * e + r) == 97 * e + leaps_before(r),
        is_leap(400 * e + r) == is_leap(r),
{
    lemma_div_shift(r - 1, 4, 100 * e);
    lemma_div_shift(r - 1, 100, 4 * e);
    lemma_div_shift(r - 1, 400, e);
    lemma_div_shift(r, 4, 100 * e);
    lemma_div_shift(r, 100, 4 * e);
    lemma_div_shift(r, 400, e);
    assert(4 * (100 * e) == 400 * e);
    assert(100 * (4 * e) == 400 * e);
    assert(400 * e + r - 1 == 4 * (100 * e) + (r - 1));
}

proof fn lemma_leaps_small(y: int)
    requires
        0 <= y <= 399,
    ensures
        leaps_before(y) + (if is_leap(y) { 1int } else { 0int }) == y / 4 - y / 100,
        leaps_before(y + 1) == y / 4 - y / 100,
{
}

proof fn lemma_last_day_is_leap(doe: int)
    requires
        0 <= doe < 146_097,
    ensures
        ({
            let yoe = (doe - doe / 1460 + doe / 36_524 - doe / 146_096) / 365;
            let doy = doe - (365 * yoe + yoe / 4 - yoe / 100);
            doy == 365 ==> is_leap(yoe + 1)
        }),
{
}

proof fn lemma_civil_in_era(doe: int)
    requires
        0 <= doe < 146_097,
    ensures
        ({
            let yoe = (doe - doe / 1460 + doe / 36_524 - doe / 146_096) / 365;
            let doy = doe - (365 * yoe + yoe / 4 - yoe / 100);
            let mp = (5 * doy + 2) / 153;
            let day = doy - (153 * mp + 2) / 5 + 1;
            let month = if mp < 10 { mp + 3 } else { mp - 9 };
            let r = yoe + if month <= 2 { 1int } else { 0int };
            &&& days_from_civil(r, month, day) == doe - 719_468
            &&& 1 <= day <= days_in_month(r, month)
        }),
{
    lemma_civil_ranges(doe);
    lemma_last_day_is_leap(doe);
    let yoe = (doe - doe / 1460 + doe / 36_524 - doe / 146_096) / 365;
    let doy = doe - (365 * yoe + yoe / 4 - yoe / 100);
    lemma_leaps_small(yoe);
    let mp = (5 * doy + 2) / 153;
    assert(0 <= mp <= 11);
    if mp == 0 { assert(doy < 31); } else if mp == 1 { assert(31 <= doy < 61); }
    else if mp == 2 { assert(61 <= doy < 92); } else if mp == 3 { assert(92 <= doy < 122); }
    else if mp == 4 { assert(122 <= doy < 153); } else if mp == 5 { assert(153 <= doy < 184); }
    else if mp == 6 { assert(184 <= doy < 214); } else if mp == 7 { assert(214 <= doy < 245); }
    else if mp == 8 { assert(245 <= doy < 275); } else if mp == 9 { assert(275 <= doy < 306); }
    else if mp == 10 { assert(306 <= doy < 337); } else { assert(337 <= doy <= 365); }
}

/// The date `from_days_since_epoch` computes is the calendar date `days` days
/// after 1970-01-01: a real day of its month, and counting days from
/// 1970-01-01 to it gives back `days`.
pub proof fn law_civil_date_of_day_count(days: int)
    ensures
        ({
            let (y, m, d) = civil_from_days(days);
            &&& 1 <= m <= 12
            &&& 1 <= d <= days_in_month(y, m)
            &&& days_from_civil(y, m, d) == days
        }),
{
    let z = days + 719_468;
    let era = z / 146_097;
    let doe = z - era * 146_097;
    assert(0 <= doe < 146_097);
    lemma_civil_ranges(doe);
    lemma_civil_in_era(doe);
    let yoe = (doe - doe / 1460 + doe / 36_524 - doe / 146_096) / 365;
    let doy = doe - (365 * yoe + yoe / 4 - yoe / 100);
    let mp = (5 * doy + 2) / 153;
    let month = if mp < 10 { mp + 3 } else { mp - 9 };
    let r = yoe + if month <= 2 { 1int } else { 0int };
    lemma_leaps_era(era, r);
    assert(400 * era + r == yoe + era * 400 + if month <= 2 { 1int } else { 0int });
}

proof fn lemma_floor_steps(y: int)
    ensures
        y / 4 - (y - 1) / 4 == (if y % 4 == 0 { 1int } else { 0int }),
        y / 100 - (y - 1) / 100 == (if y % 100 == 0 { 1int } else { 0int }),
        y / 400 - (y - 1) / 400 == (if y % 400 == 0 { 1int } else { 0int }),
{
}

/// Sakamoto's sum with floor division.
spec fn sakamoto_sum(y: int, m: int, d: int) -> int {
    let yy = if m < 3 { y - 1 } else { y };
    yy + yy / 4 - yy / 100 + yy / 400 + sakamoto_offset(m - 1) + d
}

proof fn lemma_multiple(y: int, big: int, small: int)
    requires
        small > 0,
        big % small == 0,
        big > 0,
        y % big == 0,
    ensures
        y % small == 0,
{
    let q = y / big;
    vstd::arithmetic::div_mod::lemma_fundamental_div_mod(y, big);
    let r = big / small;
    vstd::arithmetic::div_mod::lemma_fundamental_div_mod(big, small);
    assert(y == small * (r * q)) by (nonlinear_arith)
        requires
            y == big * q,
            big == small * r,
    ;
    lemma_div_shift(0, small, r * q);
}

proof fn lemma_leap_indicator(y: int)
    ensures
        (if y % 4 == 0 { 1int } else { 0int }) - (if y % 100 == 0 { 1int } else { 0int }) + (if y
            % 400 == 0 { 1int } else { 0int }) == (if is_leap(y) { 1int } else { 0int }),
{
    if y % 400 == 0 {
        lemma_multiple(y, 400, 100);
        lemma_multiple(y, 400, 4);
    } else if y % 100 == 0 {
        lemma_multiple(y, 100, 4);
    }
}

proof fn lemma_sakamoto_counts(y: int, m: int, d: int)
    requires
        1 <= m <= 12,
    ensures
        (sakamoto_sum(y, m, d) - days_from_civil(y, m, d) - 4) % 7 == 0,
{
    lemma_floor_steps(y);
    lemma_leap_indicator(y);
    let leap: int = if is_leap(y) { 1 } else { 0 };
    assert(y / 4 - y / 100 + y / 400 == leaps_before(y) + leap);
    let k: int = sakamoto_sum(y, m, d) - days_from_civil(y, m, d) - 4;
    let leap_day: int = if m > 2 { leap } else { 0 };
    assert(days_before_month(y, m) - leap_day == days_before_month(1, m));
    let c: int = sakamoto_offset(m - 1) - days_before_month(1, m) + if m >= 3 {
        1int
    } else {
        0int
    };
    assert(k == -364 * y + 719_523 + c);
    assert(c % 7 == 0) by {
        if m == 1 { assert(c == 0); } else if m == 2 { assert(c == -28); }
        else if m == 3 { assert(c == -56); } else if m == 4 { assert(c == -84); }
        else if m == 5 { assert(c == -119); } else if m == 6 { assert(c == -147); }
        else if m == 7 { assert(c == -175); } else if m == 8 { assert(c == -210); }
        else if m == 9 { assert(c == -238); } else if m == 10 { assert(c == -266); }
        else if m == 11 { assert(c == -301); } else { assert(c == -329); }
    }
    let j = -52 * y + 102_789 + c / 7;
    assert(k == 7 * j);
    assert((7 * j) % 7 == 0) by (nonlinear_arith);
}

/// A real calendar date: a month of 1 to 12 and a day within that month.
pub open spec fn valid_date(d: Date) -> bool {
    &&& 1 <= d.month <= 12
    &&& 1 <= d.day <= days_in_month(d.year as int, d.month as int)
}

/// The weekday of every real date from the year 1 on is its distance in days
/// from 1970-01-01 (a Thursday), modulo 7: 0 = Sunday ... 6 = Saturday.
pub proof fn law_weekday_of_valid_date(d: Date)
    requires
        d.year >= 1,
        valid_date(d),
    ensures
        weekday_spec(d) == (days_from_civil(d.year as int, d.month as int, d.day as int) + 4) % 7,
{
    let (y, m, dd) = (d.year as int, d.month as int, d.day as int);
    let yy: int = if m < 3 { y - 1 } else { y };
    assert(tdiv(yy, 4) == yy / 4 && tdiv(yy, 100) == yy / 100 && tdiv(yy, 400) == yy / 400);
    assert(day_as_i32(d.day) == dd);
    lemma_sakamoto_counts(y, m, dd);
    let s = sakamoto_sum(y, m, dd);
    let n = days_from_civil(y, m, dd);
    assert(weekday_spec(d) == s % 7);
    assert(s % 7 == (n + 4) % 7) by (nonlinear_arith)
        requires
            (s - n - 4) % 7 == 0,
    ;
}

proof fn lemma_year_step(y: int)
    ensures
        days_before_year(y + 1) == days_before_year(y) + 365 + if is_leap(y) { 1int } else { 0int },
{
    lemma_floor_steps(y);
    lemma_leap_indicator(y);
}

proof fn lemma_years_ordered(a: int, b: int)
    requires
        a < b,
    ensures
        days_before_year(a + 1) <= days_before_year(b),
    decreases b - a,
{
    if b > a + 1 {
        lemma_years_ordered(a, b - 1);
        lemma_year_step(b - 1);
    }
}

proof fn lemma_day_within_year(y: int, m: int, d: int)
    requires
        1 <= m <= 12,
        1 <= d <= days_in_month(y, m),
    ensures
        days_before_year(y) <= days_from_civil(y, m, d) < days_before_year(y + 1),
{
    lemma_year_step(y);
}

proof fn lemma_months_ordered(y: int, m1: int, d1: int, m2: int, d2: int)
    requires
        1 <= m1 < m2 <= 12,
        1 <= d1 <= days_in_month(y, m1),
        1 <= d2,
    ensures
        days_from_civil(y, m1, d1) < days_from_civil(y, m2, d2),
{
}

/// Distinct real dates have distinct day counts.
proof fn lemma_day_count_injective(y1: int, m1: int, d1: int, y2: int, m2: int, d2: int)
    requires
        1 <= m1 <= 12,
        1 <= d1 <= days_in_month(y1, m1),
        1 <= m2 <= 12,
        1 <= d2 <= days_in_month(y2, m2),
        days_from_civil(y1, m1, d1) == days_from_civil(y2, m2, d2),
    ensures
        y1 == y2 && m1 == m2 && d1 == d2,
{
    lemma_day_within_year(y1, m1, d1);
    lemma_day_within_year(y2, m2, d2);
    if y1 < y2 {
        lemma_years_ordered(y1, y2);
    } else if y2 < y1 {
        lemma_years_ordered(y2, y1);
    } else if m1 < m2 {
        lemma_months_ordered(y1, m1, d1, m2, d2);
    } else if m2 < m1 {
        lemma_months_ordered(y1, m2, d2, m1, d1);
    }
}

/// Every real date is the date of its own day count: counting the days from
/// 1970-01-01 to it and converting back gives the same year, month and day.
pub proof fn law_date_of_own_day_count(y: int, m: int, d: int)
    requires
        1 <= m <= 12,
        1 <= d <= days_in_month(y, m),
    ensures
        civil_from_days(days_from_civil(y, m, d)) == (y, m, d),
{
    let n = days_from_civil(y, m, d);
    law_civil_date_of_day_count(n);
    let (y2, m2, d2) = civil_from_days(n);
    lemma_day_count_injective(y, m, d, y2, m2, d2);
}

/// Sakamoto's weekday of a date agrees with counting days from 1970-01-01 (a
/// Thursday), for dates from the year 1 on (Sakamoto's formula as written
/// divides with truncation, which is floor division only there).
pub proof fn law_weekday_counts_from_thursday(days: int)
    requires
        ({
            let (y, m, d) = civil_from_days(days);
            1 <= y <= i32::MAX
        }),
    ensures
        ({
            let (y, m, d) = civil_from_days(days);
            weekday_spec(Date { year: y as i32, month: m as u32, day: d as u32 }) == (days + 4) % 7
        }),
{
    law_civil_date_of_day_count(days);
    let (y, m, d) = civil_from_days(days);
    let date = Date { year: y as i32, month: m as u32, day: d as u32 };
    assert(date.year == y && date.month == m && date.day == d);
    let yy: int = if m < 3 { y - 1 } else { y };
    assert(tdiv(yy, 4) == yy / 4 && tdiv(yy, 100) == yy / 100 && tdiv(yy, 400) == yy / 400);
    assert(day_as_i32(date.day) == d);
    lemma_sakamoto_counts(y, m, d);
    let s = sakamoto_sum(y, m, d);
    assert(weekday_spec(date) == s % 7);
    assert(s % 7 == (days + 4) % 7) by (nonlinear_arith)
        requires
            (s - days - 4) % 7 == 0,
    ;
}

impl Date {
    /// Civil date from a count of days since the Unix epoch (Hinnant's algorithm).
    pub fn from_days_since_epoch(days: i64) -> (r: Date)
        requires
            days <= i64::MAX - 719_468,
        ensures
            ({
                let (year, month, day) = civil_from_days(days as int);
                &&& r.year == year as i32
                &&& r.month == month
                &&& r.day == day
            }),
            1 <= r.month <= 12,
            1 <= r.day <= 31,
    {
        let z = days + 719_468;
        let era: i64 = if z >= 0 {
            z / 146_097
        } else {
            (z - 146_096) / 146_097
        };
        assert(era == (z as int) / 146_097) by (nonlinear_arith)
            requires
                z >= 0 ==> era == (z as int) / 146_097,
                z < 0 ==> era == -((146_096 - z) / 146_097),
        ;
        let doe = z - era * 146_097;
        proof {
            lemma_civil_ranges(doe as int);
        }
        let yoe = (doe - doe / 1460 + doe / 36_524 - doe / 146_096) / 365;
        let doy = doe - (365 * yoe + yoe / 4 - yoe / 100);
        let mp = (5 * doy + 2) / 153;
        let day = (doy - (153 * mp + 2) / 5 + 1) as u32;
        let month = (if mp < 10 {
            mp + 3
        } else {
            mp - 9
        }) as u32;
        let year64: i64 = yoe + era * 400 + if month <= 2 {
            1
        } else {
            0
        };
        Date { year: year64 as i32, month, day }
    }
}

/// `format_local_timestamp`'s text: `DD.MM HH:MM` of a local second count.
pub open spec fn local_timestamp_text(secs: int) -> Seq<char> {
    let (_, month, day) = civil_from_days(secs / 86_400);
    let in_day = secs % 86_400;
    let hour = in_day / 3600;
    let minute = (in_day % 3600) / 60;
    two_digits(day as nat) + seq!['.'] + two_digits(month as nat) + seq![' '] + two_digits(
        hour as nat,
    ) + seq![':'] + two_digits(minute as nat)
}

/// Format a local Unix timestamp (seconds, already offset to local time) as
/// `DD.MM HH:MM`, e.g. "17.06 22:05".
pub fn format_local_timestamp(local_unix_secs: i64) -> (r: String)
    ensures
        r@ == local_timestamp_text(local_unix_secs as int),
{
    let q = local_unix_secs / 86_400;
    let rem = local_unix_secs % 86_400;
    let (days, secs) = if rem < 0 {
        (q - 1, rem + 86_400)
    } else {
        (q, rem)
    };
    assert(days == (local_unix_secs as int) / 86_400 && secs == (local_unix_secs as int) % 86_400)
        by (nonlinear_arith)
        requires
            q == tdiv(local_unix_secs as int, 86_400),
            rem == local_unix_secs - q * 86_400,
            rem < 0 ==> days == q - 1 && secs == rem + 86_400,
            rem >= 0 ==> days == q && secs == rem,
    ;
    let hour = secs / 3600;
    let minute = (secs % 3600) / 60;
    let date = Date::from_days_since_epoch(days);
    let mut out: Vec<char> = Vec::new();
    push_two_digits(&mut out, date.day as u64);
    out.push('.');
    push_two_digits(&mut out, date.month as u64);
    out.push(' ');
    push_two_digits(&mut out, hour as u64);
    out.push(':');
    push_two_digits(&mut out, minute as u64);
    assert(out@ =~= local_timestamp_text(local_unix_secs as int));
    string_from_chars(out)
}

proof fn lemma_two_digits_len(n: nat)
    requires
        n < 100,
    ensures
        two_digits(n).len() == 2,
{
    reveal_with_fuel(decimal, 2);
}

/// The day, hour and minute of `t - t % 60` (the time cut back to its whole
/// minute) are those of `t`.
proof fn lemma_whole_minute(t: int)
    ensures
        (t - t % 60) / 86_400 == t / 86_400,
        ((t - t % 60) % 86_400) / 3600 == (t % 86_400) / 3600,
        (((t - t % 60) % 86_400) % 3600) / 60 == ((t % 86_400) % 3600) / 60,
{
    let q = t / 86_400;
    let r = t % 86_400;
    let a = r / 60;
    let b = r % 60;
    assert(t == 86_400 * q + r && 0 <= r < 86_400);
    assert(r == 60 * a + b && 0 <= b < 60);
    assert(t % 60 == b) by (nonlinear_arith)
        requires
            t == 86_400 * q + r,
            r == 60 * a + b,
            0 <= b < 60,
    ;
    let u = t - t % 60;
    assert(u == 86_400 * q + 60 * a);
    assert(0 <= 60 * a < 86_400);
    assert(u / 86_400 == q && u % 86_400 == 60 * a) by (nonlinear_arith)
        requires
            u == 86_400 * q + 60 * a,
            0 <= 60 * a < 86_400,
    ;
    let h = a / 60;
    let mi = a % 60;
    assert(a == 60 * h + mi && 0 <= mi < 60);
    assert((60 * a) / 3600 == h && (60 * a) % 3600 == 60 * mi) by (nonlinear_arith)
        requires
            a == 60 * h + mi,
            0 <= mi < 60,
            0 <= a,
    ;
    assert(r / 3600 == h && r % 3600 == 60 * mi + b) by (nonlinear_arith)
        requires
            r == 60 * a + b,
            a == 60 * h + mi,
            0 <= mi < 60,
            0 <= b < 60,
            0 <= a,
    ;
    assert((60 * mi) / 60 == mi);
    assert((60 * mi + b) / 60 == mi);
}

/// `format_local_timestamp`'s text is always eleven characters, `DD.MM HH:MM`,
/// and seconds do not show: cutting the time back to its whole minute gives
/// the same text.
pub proof fn law_timestamp_text_shape(t: int)
    ensures
        local_timestamp_text(t).len() == 11,
        local_timestamp_text(t - t % 60) == local_timestamp_text(t),
{
    law_civil_date_of_day_count(t / 86_400);
    let in_day = t % 86_400;
    lemma_two_digits_len(civil_from_days(t / 86_400).2 as nat);
    lemma_two_digits_len(civil_from_days(t / 86_400).1 as nat);
    lemma_two_digits_len((in_day / 3600) as nat);
    lemma_two_digits_len(((in_day % 3600) / 60) as nat);
    lemma_whole_minute(t);
}

/// Seconds do not show in the refresh time either: cutting the time back to
/// its whole minute gives the same text.
pub proof fn law_refreshed_text_ignores_seconds(t: int)
    ensures
        refreshed_text(t - t % 60) == refreshed_text(t),
{
    lemma_whole_minute(t);
}

/// The refresh time of a local second count, e.g. "Wed 17 Jun 22:05": the
/// English short weekday, the day of the month, the English short month name
/// and the time of day.
pub open spec fn refreshed_text(secs: int) -> Seq<char> {
    let (year, month, day) = civil_from_days(secs / 86_400);
    let date = Date { year: year as i32, month: month as u32, day: day as u32 };
    let in_day = secs % 86_400;
    let hour = in_day / 3600;
    let minute = (in_day % 3600) / 60;
    weekday_name(Language::En, weekday_spec(date)) + seq![' '] + decimal(day as nat) + seq![' ']
        + month_name(Language::En, month) + seq![' '] + two_digits(hour as nat) + seq![':']
        + two_digits(minute as nat)
}

/// Format a local Unix timestamp (seconds, already offset to local time) as
/// the forecast's refresh time, e.g. "Wed 17 Jun 22:05".
pub fn format_refreshed_at(local_unix_secs: i64) -> (r: String)
    ensures
        r@ == refreshed_text(local_unix_secs as int),
{
    let q = local_unix_secs / 86_400;
    let rem = local_unix_secs % 86_400;
    let (days, secs) = if rem < 0 {
        (q - 1, rem + 86_400)
    } else {
        (q, rem)
    };
    assert(days == (local_unix_secs as int) / 86_400 && secs == (local_unix_secs as int) % 86_400)
        by (nonlinear_arith)
        requires
            q == tdiv(local_unix_secs as int, 86_400),
            rem == local_unix_secs - q * 86_400,
            rem < 0 ==> days == q - 1 && secs == rem + 86_400,
            rem >= 0 ==> days == q && secs == rem,
    ;
    let hour = secs / 3600;
    let minute = (secs % 3600) / 60;
    let date = Date::from_days_since_epoch(days);
    let mut out: Vec<char> = Vec::new();
    push_str(&mut out, date.weekday_short(Language::En));
    out.push(' ');
    push_decimal(&mut out, date.day as u64);
    out.push(' ');
    push_str(&mut out, date.month_short(Language::En));
    out.push(' ');
    push_two_digits(&mut out, hour as u64);
    out.push(':');
    push_two_digits(&mut out, minute as u64);
    assert(out@ =~= refreshed_text(local_unix_secs as int));
    string_from_chars(out)
}

/// Current conditions. `temperature` is in thousandths of a degree.
#[derive(Debug, Clone, Copy, PartialEq, Eq, Structural)]
pub struct Current {
    pub temperature: i64,
    pub condition: Condition,
}

/// One forecast day. Temperatures are in thousandths of a degree.
#[derive(Debug, Clone, Copy, PartialEq, Eq, Structural)]
pub struct Day {
    pub date: Date,
    pub temp_max: i64,
    pub temp_min: i64,
    /// Maximum precipitation probability for the day, in percent.
    pub precip_prob: Option<u8>,
    pub condition: Condition,
}

#[derive(Debug, Clone)]
pub struct Forecast {
    /// Resolved place name from geocoding (e.g. "Zagreb, Croatia").
    pub location_name: String,
    pub current: Current,
    pub days: Vec<Day>,
    /// Unit symbol shown next to temperatures, e.g. "°C".
    pub temperature_symbol: &'static str,
    /// Local wall-clock time the forecast was fetched, e.g. "Wed 17 Jun 22:05".
    pub refreshed_at: String,
}

/// `x.round()` of the value `milli / 1000`: to the nearest integer, halves away
/// from zero.
pub open spec fn round_milli(milli: int) -> int {
    if milli >= 0 {
        (milli + 500) / 1000
    } else {
        -((-milli + 500) / 1000)
    }
}

/// A probability given in thousandths of a percent, rounded to a whole percent
/// and clamped to 0..=100 (`p.round().clamp(0.0, 100.0) as u8`).
pub open spec fn percent_from_milli(milli: int) -> u8 {
    let r = round_milli(milli);
    if r < 0 {
        0
    } else if r > 100 {
        100
    } else {
        r as u8
    }
}

/// Rounds a probability given in thousandths of a percent to a whole percent
/// in 0..=100.
pub fn round_percent(milli: i64) -> (r: u8)
    ensures
        r == percent_from_milli(milli as int),
        r <= 100,
{
    let q = milli / 1000;
    let rem = milli % 1000;
    let rounded: i64 = if rem >= 500 {
        q + 1
    } else if rem <= -500 {
        q - 1
    } else {
        q
    };
    assert(rounded == round_milli(milli as int)) by (nonlinear_arith)
        requires
            q == tdiv(milli as int, 1000),
            rem == milli - q * 1000,
            rem >= 500 ==> rounded == q + 1,
            rem <= -500 ==> rounded == q - 1,
            -500 < rem < 500 ==> rounded == q,
    ;
    if rounded < 0 {
        0
    } else if rounded > 100 {
        100
    } else {
        rounded as u8
    }
}

/// The first `n` characters of `v`.
fn prefix_of(v: &Vec<char>, n: usize) -> (r: Vec<char>)
    requires
        n <= v@.len(),
    ensures
        r@ == v@.subrange(0, n as int),
{
    let mut r: Vec<char> = Vec::new();
    for i in 0..n
        invariant
            n <= v@.len(),
            r@ == v@.subrange(0, i as int),
    {
        r.push(v[i]);
        assert(v@.subrange(0, i + 1) =~= v@.subrange(0, i as int).push(v@[i as int]));
    }
    r
}

/// Whether two character vectors hold the same characters.
fn chars_eq(a: &Vec<char>, b: &Vec<char>) -> (r: bool)
    ensures
        r == (a@ == b@),
{
    if a.len() != b.len() {
        return false;
    }
    for i in 0..a.len()
        invariant
            a@.len() == b@.len(),
            forall|j: int| 0 <= j < i ==> a@[j] == b@[j],
    {
        if a[i] != b[i] {
            return false;
        }
    }
    assert(a@ =~= b@);
    true
}

/// The WMO weather codes that Open-Meteo reports, grouped by condition: each
/// condition is given by exactly the codes of its phenomenon (every intensity
/// of it), and every other code is unknown.
pub proof fn law_wmo_codes_by_condition(code: u8)
    ensures
        (wmo_condition(code) == Condition::Clear) <==> code == 0,
        (wmo_condition(code) == Condition::MainlyClear) <==> code == 1,
        (wmo_condition(code) == Condition::PartlyCloudy) <==> code == 2,
        (wmo_condition(code) == Condition::Overcast) <==> code == 3,
        (wmo_condition(code) == Condition::Fog) <==> (code == 45 || code == 48),
        (wmo_condition(code) == Condition::Drizzle) <==> (code == 51 || code == 53 || code == 55),
        (wmo_condition(code) == Condition::FreezingRain) <==> (code == 56 || code == 57 || code == 66
            || code == 67),
        (wmo_condition(code) == Condition::Rain) <==> (code == 61 || code == 63 || code == 65),
        (wmo_condition(code) == Condition::Snow) <==> (code == 71 || code == 73 || code == 75 || code
            == 77),
        (wmo_condition(code) == Condition::Showers) <==> (code == 80 || code == 81 || code == 82),
        (wmo_condition(code) == Condition::SnowShowers) <==> (code == 85 || code == 86),
        (wmo_condition(code) == Condition::Thunderstorm) <==> (code == 95 || code == 96 || code == 99),
{
}

/// The weekday named for a real date from the year 1 on follows the calendar:
/// 1970-01-01 was a Thursday ("Cet" in Croatian), and the names run on one a
/// day, in both languages.
pub proof fn law_weekday_names_follow_calendar(d: Date)
    requires
        d.year >= 1,
        valid_date(d),
    ensures
        ({
            let r = days_from_civil(d.year as int, d.month as int, d.day as int) % 7;
            &&& weekday_name(Language::En, weekday_spec(d)) == if r == 0 { "Thu"@ } else if r == 1 {
                "Fri"@
            } else if r == 2 { "Sat"@ } else if r == 3 { "Sun"@ } else if r == 4 { "Mon"@ } else if r
                == 5 { "Tue"@ } else { "Wed"@ }
            &&& weekday_name(Language::Hr, weekday_spec(d)) == if r == 0 { "Cet"@ } else if r == 1 {
                "Pet"@
            } else if r == 2 { "Sub"@ } else if r == 3 { "Ned"@ } else if r == 4 { "Pon"@ } else if r
                == 5 { "Uto"@ } else { "Sri"@ }
        }),
{
    law_weekday_of_valid_date(d);
    let n = days_from_civil(d.year as int, d.month as int, d.day as int);
    let r = n % 7;
    let w = weekday_spec(d);
    assert(w == (r + 4) % 7) by (nonlinear_arith)
        requires
            w == (n + 4) % 7,
            r == n % 7,
    {
        vstd::arithmetic::div_mod::lemma_add_mod_noop(n, 4, 7);
    }
    lemma_weekday_names_of_shift(w, r);
}

proof fn lemma_weekday_names_of_shift(w: int, r: int)
    requires
        0 <= r < 7,
        w == (r + 4) % 7,
    ensures
        weekday_name(Language::En, w) == if r == 0 { "Thu"@ } else if r == 1 { "Fri"@ } else if r
            == 2 { "Sat"@ } else if r == 3 { "Sun"@ } else if r == 4 { "Mon"@ } else if r == 5 {
            "Tue"@
        } else { "Wed"@ },
        weekday_name(Language::Hr, w) == if r == 0 { "Cet"@ } else if r == 1 { "Pet"@ } else if r
            == 2 { "Sub"@ } else if r == 3 { "Ned"@ } else if r == 4 { "Pon"@ } else if r == 5 {
            "Uto"@
        } else { "Sri"@ },
{
}

/// The Croatian name of each weekday is the translation of the English one.
pub proof fn law_weekday_names_translate(i: int)
    requires
        0 <= i < 7,
    ensures
        ({
            let (en, hr) = (weekday_name(Language::En, i), weekday_name(Language::Hr, i));
            ||| en == "Sun"@ && hr == "Ned"@
            ||| en == "Mon"@ && hr == "Pon"@
            ||| en == "Tue"@ && hr == "Uto"@
            ||| en == "Wed"@ && hr == "Sri"@
            ||| en == "Thu"@ && hr == "Cet"@
            ||| en == "Fri"@ && hr == "Pet"@
            ||| en == "Sat"@ && hr == "Sub"@
        }),
{
}

/// The Croatian name of each month is the translation of the English one.
pub proof fn law_month_names_translate(m: int)
    requires
        1 <= m <= 12,
    ensures
        ({
            let (en, hr) = (month_name(Language::En, m), month_name(Language::Hr, m));
            ||| en == "Jan"@ && hr == "Sij"@
            ||| en == "Feb"@ && hr == "Velj"@
            ||| en == "Mar"@ && hr == "Ozu"@
            ||| en == "Apr"@ && hr == "Tra"@
            ||| en == "May"@ && hr == "Svi"@
            ||| en == "Jun"@ && hr == "Lip"@
            ||| en == "Jul"@ && hr == "Srp"@
            ||| en == "Aug"@ && hr == "Kol"@
            ||| en == "Sep"@ && hr == "Ruj"@
            ||| en == "Oct"@ && hr == "Lis"@
            ||| en == "Nov"@ && hr == "Stu"@
            ||| en == "Dec"@ && hr == "Pro"@
        }),
{
}

} // verus!
