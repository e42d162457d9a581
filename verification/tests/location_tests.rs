use tsadaash::{GeoCoordinates, GeoCoordinatesError, Location, LocationError};

#[test]
fn test_valid_coordinates() {
    let coords = GeoCoordinates::new(40_712_800, -74_006_000).unwrap();
    assert_eq!(coords.latitude(), 40_712_800);
    assert_eq!(coords.longitude(), -74_006_000);
}

#[test]
fn test_coordinates_at_extremes() {
    let north = GeoCoordinates::new(90_000_000, 0).unwrap();
    assert_eq!(north.latitude(), 90_000_000);

    let south = GeoCoordinates::new(-90_000_000, 0).unwrap();
    assert_eq!(south.latitude(), -90_000_000);

    let dateline_east = GeoCoordinates::new(0, 180_000_000).unwrap();
    assert_eq!(dateline_east.longitude(), 180_000_000);

    let dateline_west = GeoCoordinates::new(0, -180_000_000).unwrap();
    assert_eq!(dateline_west.longitude(), -180_000_000);
}

#[test]
fn test_invalid_latitude_too_high() {
    let result = GeoCoordinates::new(91_000_000, 0);
    assert!(matches!(result, Err(GeoCoordinatesError::InvalidLatitude(91_000_000))));
}

#[test]
fn test_invalid_latitude_too_low() {
    let result = GeoCoordinates::new(-91_000_000, 0);
    assert!(matches!(result, Err(GeoCoordinatesError::InvalidLatitude(-91_000_000))));
}

#[test]
fn test_invalid_longitude_too_high() {
    let result = GeoCoordinates::new(0, 181_000_000);
    assert!(matches!(result, Err(GeoCoordinatesError::InvalidLongitude(181_000_000))));
}

#[test]
fn test_invalid_longitude_too_low() {
    let result = GeoCoordinates::new(0, -181_000_000);
    assert!(matches!(result, Err(GeoCoordinatesError::InvalidLongitude(-181_000_000))));
}

#[test]
fn test_coordinates_as_tuple() {
    let coords = GeoCoordinates::new(51_507_400, -127_800).unwrap();
    assert_eq!(coords.as_tuple(), (51_507_400, -127_800));
}

#[test]
fn test_valid_location_with_name() {
    let coords = GeoCoordinates::new(40_712_800, -74_006_000).unwrap();
    let location = Location::new(
        Some("Home".to_string()),
        "New York".to_string(),
        "United States".to_string(),
        coords,
    )
    .unwrap();

    assert_eq!(location.name(), Some("Home"));
    assert_eq!(location.city(), "New York");
    assert_eq!(location.country(), "United States");
    assert_eq!(location.geoloc().latitude(), 40_712_800);
}

#[test]
fn test_valid_location_without_name() {
    let coords = GeoCoordinates::new(51_507_400, -127_800).unwrap();
    let location = Location::new(
        None,
        "London".to_string(),
        "United Kingdom".to_string(),
        coords,
    )
    .unwrap();

    assert_eq!(location.name(), None);
    assert_eq!(location.city(), "London");
}

#[test]
fn test_location_empty_city_error() {
    let coords = GeoCoordinates::new(0, 0).unwrap();
    let result = Location::new(None, "".to_string(), "Country".to_string(), coords);
    assert_eq!(result.unwrap_err(), LocationError::EmptyCity);
}

#[test]
fn test_location_empty_country_error() {
    let coords = GeoCoordinates::new(0, 0).unwrap();
    let result = Location::new(None, "City".to_string(), "".to_string(), coords);
    assert_eq!(result.unwrap_err(), LocationError::EmptyCountry);
}

#[test]
fn test_location_empty_name_error() {
    let coords = GeoCoordinates::new(0, 0).unwrap();
    let result = Location::new(
        Some("   ".to_string()),
        "City".to_string(),
        "Country".to_string(),
        coords,
    );
    assert_eq!(result.unwrap_err(), LocationError::EmptyName);
}

#[test]
fn test_location_trimming() {
    let coords = GeoCoordinates::new(48_856_600, 2_352_200).unwrap();
    let location = Location::new(
        Some("  Office  ".to_string()),
        "  Paris  ".to_string(),
        "  France  ".to_string(),
        coords,
    )
    .unwrap();

    assert_eq!(location.name(), Some("Office"));
    assert_eq!(location.city(), "Paris");
    assert_eq!(location.country(), "France");
}

#[test]
fn test_location_set_name() {
    let coords = GeoCoordinates::new(35_676_200, 139_650_300).unwrap();
    let mut location = Location::new(None, "Tokyo".to_string(), "Japan".to_string(), coords)
        .unwrap();

    location.set_name(Some("Work".to_string())).unwrap();
    assert_eq!(location.name(), Some("Work"));

    location.set_name(None).unwrap();
    assert_eq!(location.name(), None);
}

#[test]
fn test_location_clone_and_eq() {
    let coords = GeoCoordinates::new(48_856_600, 2_352_200).unwrap();
    let location1 = Location::new(
        Some("Office".to_string()),
        "Paris".to_string(),
        "France".to_string(),
        coords,
    )
    .unwrap();

    let location2 = location1.clone();
    assert_eq!(location1, location2);
}

#[test]
fn test_location_set_name_empty_rejected() {
    let coords = GeoCoordinates::new(0, 0).unwrap();
    let mut location = Location::new(None, "City".to_string(), "Country".to_string(), coords)
        .unwrap();
    let result = location.set_name(Some("  ".to_string()));
    assert_eq!(result.unwrap_err(), LocationError::EmptyName);
    assert_eq!(location.name(), None);
}
