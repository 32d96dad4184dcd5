//! City → place resolution rules, shared by every weather provider: which
//! geocoding hit to take, when a cached hit may be reused, and how the place is
//! named on screen.
//!
//! The request to Open-Meteo's geocoder and the on-disk cache are the
//! application's side; the decisions are here.

use vstd::prelude::*;

use crate::config::{Config, Language};
use crate::text::{chars_of, eq_ignore_ascii_case, push_str, str_eq_ignore_ascii_case, string_from_chars};

verus! {

/// A resolved location: the metadata the providers and the screen need.
/// (Its coordinates travel beside it, with the request code that uses them.)
#[derive(Debug, Clone)]
pub struct Place {
    pub name: String,
    pub country: Option<String>,
    pub country_code: Option<String>,
    /// IANA timezone name (e.g. "Europe/Zagreb"). Providers that return UTC
    /// timestamps use it to derive local time.
    pub timezone: Option<String>,
}

/// Cache key: re-geocode only if the city, country filter, or language changes.
#[derive(Debug, Clone)]
pub struct GeoKey {
    pub city: String,
    pub country: Option<String>,
    pub language: String,
}

pub open spec fn opt_view(o: Option<String>) -> Option<Seq<char>> {
    match o {
        Some(s) => Some(s@),
        None => None,
    }
}

pub open spec fn opt_str_view(o: Option<&str>) -> Option<Seq<char>> {
    match o {
        Some(s) => Some(s@),
        None => None,
    }
}

/// The `Option<&str>` view of an `Option<String>` (`Option::as_deref`).
pub fn opt_as_str(o: &Option<String>) -> (r: Option<&str>)
    ensures
        opt_str_view(r) == opt_view(*o),
{
    match o {
        Some(s) => Some(s.as_str()),
        None => None,
    }
}

fn clone_opt_string(o: &Option<String>) -> (r: Option<String>)
    ensures
        opt_view(r) == opt_view(*o),
{
    match o {
        Some(s) => Some(s.clone()),
        None => None,
    }
}

fn opt_strings_equal(a: &Option<String>, b: &Option<String>) -> (r: bool)
    ensures
        r == (opt_view(*a) == opt_view(*b)),
{
    match (a, b) {
        (Some(x), Some(y)) => *x == *y,
        (None, None) => true,
        _ => false,
    }
}

impl GeoKey {
    pub open spec fn same_as(self, other: GeoKey) -> bool {
        &&& self.city@ == other.city@
        &&& opt_view(self.country) == opt_view(other.country)
        &&& self.language@ == other.language@
    }

    /// Whether two keys name the same city, country filter and language.
    pub fn equals(&self, other: &GeoKey) -> (r: bool)
        ensures
            r == self.same_as(*other),
    {
        self.city == other.city && opt_strings_equal(&self.country, &other.country)
            && self.language == other.language
    }
}

/// The cache key for the configured location and language.
pub fn geo_key(config: &Config) -> (k: GeoKey)
    ensures
        k.city@ == config.location.city@,
        opt_view(k.country) == opt_view(config.location.country),
        k.language@ == config.language.code_spec(),
{
    GeoKey {
        city: config.location.city.clone(),
        country: clone_opt_string(&config.location.country),
        language: config.language.code().to_owned(),
    }
}

/// A cached place is reused when it was stored for the same key and carries a
/// timezone (entries that predate the timezone field are re-geocoded, so met.no
/// gets a real local zone instead of silently falling back to UTC).
pub fn cache_usable(cached_key: &GeoKey, cached_place: &Place, key: &GeoKey) -> (r: bool)
    ensures
        r == (cached_key.same_as(*key) && cached_place.timezone is Some),
{
    cached_key.equals(key) && cached_place.timezone.is_some()
}

/// Whether a geocoding hit carries the country code `country` (ASCII case
/// ignored).
pub open spec fn in_country(p: Place, country: Seq<char>) -> bool {
    match p.country_code {
        Some(code) => eq_ignore_ascii_case(code@, country),
        None => false,
    }
}

/// The geocoding hit to use: with a configured country, the first hit in that
/// country, else the first hit; `None` when there are no hits.
pub open spec fn chosen_hit(results: Seq<Place>, country: Option<Seq<char>>) -> Option<int> {
    if results.len() == 0 {
        None
    } else {
        match country {
            Some(c) => if exists|i: int| 0 <= i < results.len() && in_country(#[trigger] results[i], c) {
                Some(
                    choose|i: int|
                        0 <= i < results.len() && in_country(#[trigger] results[i], c) && forall|j: int|
                            0 <= j < i ==> !in_country(#[trigger] results[j], c),
                )
            } else {
                Some(0)
            },
            None => Some(0),
        }
    }
}

/// With a configured country, the chosen hit is in that country whenever any
/// hit is, and no earlier hit is; otherwise (or without a country) it is the
/// first hit.
pub proof fn law_prefers_configured_country(results: Seq<Place>, country: Option<Seq<char>>)
    requires
        results.len() > 0,
    ensures
        chosen_hit(results, country) matches Some(i) && 0 <= i < results.len(),
        country is Some && (exists|j: int|
            0 <= j < results.len() && in_country(#[trigger] results[j], country->0)) ==> ({
            let i = chosen_hit(results, country)->0;
            &&& in_country(results[i], country->0)
            &&& forall|j: int| 0 <= j < i ==> !in_country(#[trigger] results[j], country->0)
        }),
        country is None || !(exists|j: int| 0 <= j < results.len() && in_country(#[trigger] results[j], country->0))
            ==> chosen_hit(results, country) == Some(0int),
{
    if let Some(c) = country {
        if exists|j: int| 0 <= j < results.len() && in_country(#[trigger] results[j], c) {
            let j0 = choose|j: int| 0 <= j < results.len() && in_country(#[trigger] results[j], c);
            lemma_first_in_country(results, c, j0);
        }
    }
}

/// Below any hit in the country there is a first one.
proof fn lemma_first_in_country(results: Seq<Place>, c: Seq<char>, j: int)
    requires
        0 <= j < results.len(),
        in_country(results[j], c),
    ensures
        exists|i: int|
            0 <= i < results.len() && in_country(#[trigger] results[i], c) && forall|k: int|
                0 <= k < i ==> !in_country(#[trigger] results[k], c),
    decreases j,
{
    if exists|k: int| 0 <= k < j && in_country(#[trigger] results[k], c) {
        let k = choose|k: int| 0 <= k < j && in_country(#[trigger] results[k], c);
        lemma_first_in_country(results, c, k);
    } else {
        assert(0 <= j < results.len() && in_country(results[j], c) && forall|k: int|
            0 <= k < j ==> !in_country(#[trigger] results[k], c));
    }
}

/// Prefer a result matching the configured country code, else take the first.
pub fn choose_hit(results: &Vec<Place>, country: &Option<String>) -> (r: Option<usize>)
    ensures
        r matches Some(i) ==> i < results@.len(),
        r matches Some(i) ==> chosen_hit(results@, opt_view(*country)) == Some(i as int),
        r is None <==> chosen_hit(results@, opt_view(*country)) is None,
{
    if results.len() == 0 {
        return None;
    }
    match country {
        None => Some(0),
        Some(c) => {
            let n = results.len();
            for i in 0..n
                invariant
                    n == results@.len(),
                    n > 0,
                    opt_view(*country) == Some(c@),
                    forall|j: int| 0 <= j < i ==> !in_country(#[trigger] results@[j], c@),
            {
                let hit = match &results[i].country_code {
                    Some(code) => str_eq_ignore_ascii_case(code.as_str(), c.as_str()),
                    None => false,
                };
                if hit {
                    assert(in_country(results@[i as int], c@));
                    assert(0 <= i < results@.len() && in_country(results@[i as int], c@) && forall|j: int|
                        0 <= j < i ==> !in_country(#[trigger] results@[j], c@));
                    let ghost w = choose|k: int|
                        0 <= k < results@.len() && in_country(#[trigger] results@[k], c@)
                            && forall|j: int| 0 <= j < k ==> !in_country(#[trigger] results@[j], c@);
                    assert(0 <= w < results@.len() && in_country(results@[w], c@) && forall|j: int|
                        0 <= j < w ==> !in_country(#[trigger] results@[j], c@));
                    assert(w == i) by {
                        if w < i {
                            assert(!in_country(results@[w], c@));
                        }
                        if w > i {
                            assert(!in_country(results@[i as int], c@));
                        }
                    }
                    return Some(i);
                }
            }
            Some(0)
        },
    }
}

/// Preferred display name for a country. The geocoder's localized name can be
/// formal (e.g. "Republika Hrvatska"); override the cases we care about.
pub open spec fn localized_country_spec(
    code: Option<Seq<char>>,
    api_name: Option<Seq<char>>,
    lang: Language,
) -> Option<Seq<char>> {
    if lang == Language::Hr && (code matches Some(c) && eq_ignore_ascii_case(c, "HR"@)) {
        Some("Hrvatska"@)
    } else {
        api_name
    }
}

/// Preferred display name for a country. The geocoder's localized name can be
/// formal (e.g. "Republika Hrvatska"); override the cases we care about.
fn localized_country(code: Option<&str>, api_name: Option<&str>, lang: Language) -> (r: Option<
    String,
>)
    ensures
        opt_view(r) == localized_country_spec(opt_str_view(code), opt_str_view(api_name), lang),
{
    if lang == Language::Hr {
        if let Some(c) = code {
            if str_eq_ignore_ascii_case(c, "HR") {
                return Some("Hrvatska".to_owned());
            }
        }
    }
    match api_name {
        Some(name) => Some(name.to_owned()),
        None => None,
    }
}

/// "Name, Country", or the bare name when no country is known.
pub open spec fn display_name_spec(place: Place, lang: Language) -> Seq<char> {
    match localized_country_spec(opt_view(place.country_code), opt_view(place.country), lang) {
        Some(country) => place.name@ + ", "@ + country,
        None => place.name@,
    }
}

/// Preferred display name for the place, e.g. "Zagreb, Croatia".
pub fn display_name(place: &Place, lang: Language) -> (r: String)
    ensures
        r@ == display_name_spec(*place, lang),
{
    match localized_country(opt_as_str(&place.country_code), opt_as_str(&place.country), lang) {
        Some(country) => {
            let mut out = chars_of(place.name.as_str());
            push_str(&mut out, ", ");
            push_str(&mut out, country.as_str());
            string_from_chars(out)
        },
        None => place.name.clone(),
    }
}

} // verus!
