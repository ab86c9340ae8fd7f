//! Positions on the globe in whole degrees.

use vstd::prelude::*;

verus! {

/// Why a pair of degree values is not a position on the globe.
#[derive(Debug, PartialEq, Eq, Clone, Copy, Structural)]
pub enum CoordinateError {
    LatitudeOutOfRange,
    LongitudeOutOfRange,
}

/// A position whose latitude and longitude are whole degrees, latitude within
/// [-90, 90] and longitude within [-180, 180].
#[derive(Debug, PartialEq, Eq, Clone, Copy, Structural)]
pub struct DegreeCoordinate {
    lat: i32,
    lon: i32,
}

/// Whether `lat` is a latitude in degrees.
pub open spec fn latitude_in_range(lat: int) -> bool {
    -90 <= lat <= 90
}

/// Whether `lon` is a longitude in degrees.
pub open spec fn longitude_in_range(lon: int) -> bool {
    -180 <= lon <= 180
}

impl DegreeCoordinate {
    /// What holds of every position: both values lie within their ranges.
    #[verifier::type_invariant]
    spec fn in_range(self) -> bool {
        latitude_in_range(self.lat as int) && longitude_in_range(self.lon as int)
    }

    /// The latitude in degrees, for use in contracts.
    pub closed spec fn spec_lat_deg(&self) -> i32 {
        self.lat
    }

    /// The longitude in degrees, for use in contracts.
    pub closed spec fn spec_lon_deg(&self) -> i32 {
        self.lon
    }

    /// Builds a position from a latitude in [-90, 90] and a longitude in
    /// [-180, 180]. The latitude is checked first.
    pub fn from_degrees(lat: i32, lon: i32) -> (r: Result<Self, CoordinateError>)
        ensures
            match r {
                Ok(c) => latitude_in_range(lat as int) && longitude_in_range(lon as int)
                    && c.spec_lat_deg() == lat && c.spec_lon_deg() == lon,
                Err(CoordinateError::LatitudeOutOfRange) => !latitude_in_range(lat as int),
                Err(CoordinateError::LongitudeOutOfRange) => latitude_in_range(lat as int)
                    && !longitude_in_range(lon as int),
            },
    {
        if lat < -90 || lat > 90 {
            return Err(CoordinateError::LatitudeOutOfRange);
        }
        if lon < -180 || lon > 180 {
            return Err(CoordinateError::LongitudeOutOfRange);
        }
        Ok(Self { lat, lon })
    }

    /// The latitude in degrees.
    #[verifier::when_used_as_spec(spec_lat_deg)]
    pub fn lat_deg(&self) -> (r: i32)
        ensures
            r == self.spec_lat_deg(),
            latitude_in_range(r as int),
    {
        proof {
            use_type_invariant(self);
        }
        self.lat
    }

    /// The longitude in degrees.
    #[verifier::when_used_as_spec(spec_lon_deg)]
    pub fn lon_deg(&self) -> (r: i32)
        ensures
            r == self.spec_lon_deg(),
            longitude_in_range(r as int),
    {
        proof {
            use_type_invariant(self);
        }
        self.lon
    }
}

} // verus!
