use spdted::coordinate_2d::{CoordinateError, DegreeCoordinate};

#[test]
fn from_degrees_keeps_both_values() {
    for lat in -90..=90i32 {
        for lon in [-180i32, -179, -91, -90, -1, 0, 1, 8, 90, 91, 179, 180] {
            let c = DegreeCoordinate::from_degrees(lat, lon).unwrap();
            assert_eq!(c.lat_deg(), lat);
            assert_eq!(c.lon_deg(), lon);
        }
    }
}

#[test]
fn from_degrees_accepts_the_ends_of_both_ranges() {
    let c = DegreeCoordinate::from_degrees(0, 0).unwrap();
    assert_eq!((c.lat_deg(), c.lon_deg()), (0, 0));

    let c = DegreeCoordinate::from_degrees(-90, -180).unwrap();
    assert_eq!((c.lat_deg(), c.lon_deg()), (-90, -180));

    let c = DegreeCoordinate::from_degrees(90, 180).unwrap();
    assert_eq!((c.lat_deg(), c.lon_deg()), (90, 180));
}

#[test]
fn from_degrees_rejects_what_lies_outside() {
    let c = DegreeCoordinate::from_degrees(91, 0);
    assert!(c.is_err());
    assert_eq!(c.unwrap_err(), CoordinateError::LatitudeOutOfRange);

    let c = DegreeCoordinate::from_degrees(-91, 0);
    assert_eq!(c.unwrap_err(), CoordinateError::LatitudeOutOfRange);

    let c = DegreeCoordinate::from_degrees(0, 181);
    assert!(c.is_err());
    assert_eq!(c.unwrap_err(), CoordinateError::LongitudeOutOfRange);

    let c = DegreeCoordinate::from_degrees(-90, -181);
    assert_eq!(c.unwrap_err(), CoordinateError::LongitudeOutOfRange);

    let c = DegreeCoordinate::from_degrees(90, 181);
    assert_eq!(c.unwrap_err(), CoordinateError::LongitudeOutOfRange);

    let c = DegreeCoordinate::from_degrees(i32::MIN, 0);
    assert_eq!(c.unwrap_err(), CoordinateError::LatitudeOutOfRange);

    let c = DegreeCoordinate::from_degrees(0, i32::MAX);
    assert_eq!(c.unwrap_err(), CoordinateError::LongitudeOutOfRange);
}

#[test]
fn latitude_is_checked_before_longitude() {
    let c = DegreeCoordinate::from_degrees(-180, 0);
    assert_eq!(c.unwrap_err(), CoordinateError::LatitudeOutOfRange);

    let c = DegreeCoordinate::from_degrees(-180, -360);
    assert!(c.is_err());
    assert_eq!(c.unwrap_err(), CoordinateError::LatitudeOutOfRange);

    let c = DegreeCoordinate::from_degrees(180, 360);
    assert!(c.is_err());
    assert_eq!(c.unwrap_err(), CoordinateError::LatitudeOutOfRange);
}
