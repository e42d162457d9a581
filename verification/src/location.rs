//! A location value object: an optional name, a city, a country, and
//! validated geographic coordinates. Coordinates are carried in
//! microdegrees, so a latitude of 40.7128 degrees is 40 712 800.

use vstd::prelude::*;
use crate::text::{is_trim_of, lemma_trim_unique, trim};

verus! {

/// Largest latitude in microdegrees: 90 degrees.
pub const MAX_LATITUDE_MICRODEG: i64 = 90_000_000;

/// Largest longitude in microdegrees: 180 degrees.
pub const MAX_LONGITUDE_MICRODEG: i64 = 180_000_000;

/// Why coordinates were rejected.
#[derive(Debug, Clone, Copy, PartialEq, Eq, Structural)]
pub enum GeoCoordinatesError {
    /// Latitude outside -90 to 90 degrees, in microdegrees.
    InvalidLatitude(i64),
    /// Longitude outside -180 to 180 degrees, in microdegrees.
    InvalidLongitude(i64),
}

/// Validated geographic coordinates, in microdegrees.
#[derive(Debug, Clone, Copy, PartialEq, Eq, Structural)]
pub struct GeoCoordinates {
    latitude: i64,
    longitude: i64,
}

impl GeoCoordinates {
    /// The latitude, in microdegrees.
    pub closed spec fn spec_latitude(self) -> i64 {
        self.latitude
    }

    /// The longitude, in microdegrees.
    pub closed spec fn spec_longitude(self) -> i64 {
        self.longitude
    }

    /// Coordinates within range: latitude within 90 degrees of the equator,
    /// longitude within 180 degrees of the prime meridian.
    pub open spec fn wf(self) -> bool {
        &&& -MAX_LATITUDE_MICRODEG <= self.spec_latitude() <= MAX_LATITUDE_MICRODEG
        &&& -MAX_LONGITUDE_MICRODEG <= self.spec_longitude() <= MAX_LONGITUDE_MICRODEG
    }

    /// Validates and wraps coordinates given in microdegrees: the latitude
    /// is checked first, so out-of-range values of both report the
    /// latitude.
    pub fn new(latitude: i64, longitude: i64) -> (r: Result<GeoCoordinates, GeoCoordinatesError>)
        ensures
            r is Ok <==> (-MAX_LATITUDE_MICRODEG <= latitude <= MAX_LATITUDE_MICRODEG
                && -MAX_LONGITUDE_MICRODEG <= longitude <= MAX_LONGITUDE_MICRODEG),
            r is Ok ==> r->Ok_0.spec_latitude() == latitude && r->Ok_0.spec_longitude()
                == longitude && r->Ok_0.wf(),
            r is Err ==> r->Err_0 == (if !(-MAX_LATITUDE_MICRODEG <= latitude
                <= MAX_LATITUDE_MICRODEG) {
                GeoCoordinatesError::InvalidLatitude(latitude)
            } else {
                GeoCoordinatesError::InvalidLongitude(longitude)
            }),
    {
        if latitude < -MAX_LATITUDE_MICRODEG || latitude > MAX_LATITUDE_MICRODEG {
            return Err(GeoCoordinatesError::InvalidLatitude(latitude));
        }
        if longitude < -MAX_LONGITUDE_MICRODEG || longitude > MAX_LONGITUDE_MICRODEG {
            return Err(GeoCoordinatesError::InvalidLongitude(longitude));
        }
        Ok(GeoCoordinates { latitude, longitude })
    }

    /// The latitude, in microdegrees.
    pub fn latitude(&self) -> (r: i64)
        ensures
            r == self.spec_latitude(),
    {
        self.latitude
    }

    /// The longitude, in microdegrees.
    pub fn longitude(&self) -> (r: i64)
        ensures
            r == self.spec_longitude(),
    {
        self.longitude
    }

    /// Both coordinates, latitude first, in microdegrees.
    pub fn as_tuple(&self) -> (r: (i64, i64))
        ensures
            r.0 == self.spec_latitude(),
            r.1 == self.spec_longitude(),
    {
        (self.latitude, self.longitude)
    }
}

/// Why a location was rejected.
#[derive(Debug, Clone, Copy, PartialEq, Eq, Structural)]
pub enum LocationError {
    /// The name was given but is empty or whitespace-only.
    EmptyName,
    /// The city is empty or whitespace-only.
    EmptyCity,
    /// The country is empty or whitespace-only.
    EmptyCountry,
}

/// A physical place: optional name, city, country, coordinates. City,
/// country and name are stored trimmed and non-empty.
#[derive(Debug, Clone)]
pub struct Location {
    name: Option<String>,
    city: String,
    country: String,
    geoloc: GeoCoordinates,
}

/// Whether two locations carry the same name, city, country and
/// coordinates.
pub open spec fn spec_same_location(a: Location, b: Location) -> bool {
    &&& a.spec_name() == b.spec_name()
    &&& a.spec_city() == b.spec_city()
    &&& a.spec_country() == b.spec_country()
    &&& a.spec_geoloc() == b.spec_geoloc()
}

impl Location {
    /// The optional name, as a character sequence.
    pub closed spec fn spec_name(self) -> Option<Seq<char>> {
        match self.name {
            Some(n) => Some(n@),
            None => None,
        }
    }

    /// The city, as a character sequence.
    pub closed spec fn spec_city(self) -> Seq<char> {
        self.city@
    }

    /// The country, as a character sequence.
    pub closed spec fn spec_country(self) -> Seq<char> {
        self.country@
    }

    /// The coordinates.
    pub closed spec fn spec_geoloc(self) -> GeoCoordinates {
        self.geoloc
    }

    /// Builds a location, trimming the text fields. The city is checked
    /// first, then the country, then the name (when given); each must be
    /// non-empty after trimming.
    pub fn new(name: Option<String>, city: String, country: String, geoloc: GeoCoordinates) -> (r:
        Result<Location, LocationError>)
        ensures
            forall|tc: Seq<char>| #[trigger]
                is_trim_of(tc, city@) ==> ((r is Err && r->Err_0 == LocationError::EmptyCity) <==> tc.len()
                    == 0),
            forall|tc: Seq<char>, tk: Seq<char>|
                #[trigger] is_trim_of(tc, city@) && #[trigger] is_trim_of(tk, country@) ==> ((r is Err && r->Err_0 == LocationError::EmptyCountry) <==> (tc.len() > 0 && tk.len() == 0)),
            r is Err && r->Err_0 == LocationError::EmptyName ==> name is Some,
            name is None ==> !(r is Err && r->Err_0 == LocationError::EmptyName),
            forall|tc: Seq<char>, tk: Seq<char>, tn: Seq<char>|
                (#[trigger] is_trim_of(tc, city@) && #[trigger] is_trim_of(tk, country@) && name
                    is Some && #[trigger] is_trim_of(tn, name->0@)) ==> ((r is Err && r->Err_0 == LocationError::EmptyName) <==> (tc.len() > 0 && tk.len() > 0 && tn.len() == 0)),
            r is Ok ==> ({
                let loc = r->Ok_0;
                &&& is_trim_of(loc.spec_city(), city@) && loc.spec_city().len() > 0
                &&& is_trim_of(loc.spec_country(), country@) && loc.spec_country().len() > 0
                &&& loc.spec_geoloc() == geoloc
                &&& (name is None ==> loc.spec_name() is None)
                &&& (name is Some ==> loc.spec_name() is Some && is_trim_of(
                    loc.spec_name()->0,
                    name->0@,
                ) && loc.spec_name()->0.len() > 0)
            }),
    {
        let ghost cityg: Seq<char> = city@;
        let ghost countryg: Seq<char> = country@;
        let trimmed_city: &str = trim(city.as_str());
        proof {
            assert forall|t1: Seq<char>| is_trim_of(t1, cityg) implies t1 == trimmed_city@ by {
                lemma_trim_unique(cityg, t1, trimmed_city@);
            }
        }
        if trimmed_city.unicode_len() == 0 {
            return Err(LocationError::EmptyCity);
        }
        let trimmed_country: &str = trim(country.as_str());
        proof {
            assert forall|t1: Seq<char>| is_trim_of(t1, countryg) implies t1
                == trimmed_country@ by {
                lemma_trim_unique(countryg, t1, trimmed_country@);
            }
        }
        if trimmed_country.unicode_len() == 0 {
            return Err(LocationError::EmptyCountry);
        }
        let validated_name: Option<String> = match &name {
            Some(n) => {
                let ghost ng: Seq<char> = n@;
                let trimmed_name: &str = trim(n.as_str());
                proof {
                    assert forall|t1: Seq<char>| is_trim_of(t1, ng) implies t1
                        == trimmed_name@ by {
                        lemma_trim_unique(ng, t1, trimmed_name@);
                    }
                }
                if trimmed_name.unicode_len() == 0 {
                    return Err(LocationError::EmptyName);
                }
                Some(trimmed_name.to_owned())
            },
            None => None,
        };
        Ok(
            Location {
                name: validated_name,
                city: trimmed_city.to_owned(),
                country: trimmed_country.to_owned(),
                geoloc,
            },
        )
    }

    /// The optional name.
    pub fn name(&self) -> (r: Option<&str>)
        ensures
            r is Some <==> self.spec_name() is Some,
            r is Some ==> r->0@ == self.spec_name()->0,
    {
        match &self.name {
            Some(n) => Some(n.as_str()),
            None => None,
        }
    }

    /// The city.
    pub fn city(&self) -> (r: &str)
        ensures
            r@ == self.spec_city(),
    {
        self.city.as_str()
    }

    /// The country.
    pub fn country(&self) -> (r: &str)
        ensures
            r@ == self.spec_country(),
    {
        self.country.as_str()
    }

    /// The coordinates.
    pub fn geoloc(&self) -> (r: &GeoCoordinates)
        ensures
            *r == self.spec_geoloc(),
    {
        &self.geoloc
    }

    /// Replaces the name; a given name must be non-empty after trimming.
    /// On an error nothing changes.
    pub fn set_name(&mut self, name: Option<String>) -> (r: Result<(), LocationError>)
        ensures
            name is None ==> r is Ok && final (self).spec_name() is None,
            name is Some ==> (forall|tn: Seq<char>| #[trigger]
                is_trim_of(tn, name->0@) ==> ((r is Ok <==> tn.len() > 0) && (r is Ok ==> final (
                self).spec_name() == Some(tn)))),
            r is Err ==> r->Err_0 == LocationError::EmptyName && *final (self) == *old(self),
            final (self).spec_city() == old(self).spec_city(),
            final (self).spec_country() == old(self).spec_country(),
            final (self).spec_geoloc() == old(self).spec_geoloc(),
    {
        match &name {
            Some(n) => {
                let ghost ng: Seq<char> = n@;
                let trimmed: &str = trim(n.as_str());
                proof {
                    assert forall|t1: Seq<char>| is_trim_of(t1, ng) implies t1 == trimmed@ by {
                        lemma_trim_unique(ng, t1, trimmed@);
                    }
                }
                if trimmed.unicode_len() == 0 {
                    return Err(LocationError::EmptyName);
                }
                self.name = Some(trimmed.to_owned());
                Ok(())
            },
            None => {
                self.name = None;
                Ok(())
            },
        }
    }

    /// An exact copy of this location.
    pub fn duplicate(&self) -> (r: Location)
        ensures
            r == *self,
    {
        let name: Option<String> = match &self.name {
            Some(n) => Some(n.clone()),
            None => None,
        };
        Location { name, city: self.city.clone(), country: self.country.clone(), geoloc: self.geoloc }
    }

    /// Whether this location and `other` carry the same values.
    pub fn same_as(&self, other: &Location) -> (r: bool)
        ensures
            r == spec_same_location(*self, *other),
    {
        let names_equal: bool = match (&self.name, &other.name) {
            (Some(a), Some(b)) => *a == *b,
            (None, None) => true,
            _ => false,
        };
        names_equal && self.city == other.city && self.country == other.country
            && self.geoloc.latitude == other.geoloc.latitude && self.geoloc.longitude
            == other.geoloc.longitude
    }
}

impl PartialEq for Location {
    /// Locations are equal when every field agrees.
    fn eq(&self, other: &Location) -> (r: bool) {
        self.same_as(other)
    }
}

impl vstd::std_specs::cmp::PartialEqSpecImpl for Location {
    open spec fn obeys_eq_spec() -> bool {
        true
    }

    open spec fn eq_spec(&self, other: &Location) -> bool {
        spec_same_location(*self, *other)
    }
}

} // verus!
