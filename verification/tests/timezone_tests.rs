use tsadaash::{Timezone, TimezoneError};

#[test]
fn test_valid_timezone_simple() {
    let tz = Timezone::new("America/New_York".to_string()).unwrap();
    assert_eq!(tz.as_str(), "America/New_York");
    assert_eq!(tz.into_string(), "America/New_York");
}

#[test]
fn test_valid_timezone_with_subzone() {
    let tz = Timezone::new("America/Argentina/Buenos_Aires".to_string()).unwrap();
    assert_eq!(tz.as_str(), "America/Argentina/Buenos_Aires");
}

#[test]
fn test_valid_timezone_with_hyphen() {
    let tz = Timezone::new("America/Port-au-Prince".to_string()).unwrap();
    assert_eq!(tz.as_str(), "America/Port-au-Prince");
}

#[test]
fn test_valid_timezone_with_plus() {
    let tz = Timezone::new("Etc/GMT+5".to_string()).unwrap();
    assert_eq!(tz.as_str(), "Etc/GMT+5");
}

#[test]
fn test_empty_identifier_error() {
    let result = Timezone::new("".to_string());
    assert_eq!(result, Err(TimezoneError::EmptyIdentifier));
}

#[test]
fn test_whitespace_only_error() {
    let result = Timezone::new("   ".to_string());
    assert_eq!(result, Err(TimezoneError::EmptyIdentifier));
}

#[test]
fn test_missing_slash_error() {
    let result = Timezone::new("NewYork".to_string());
    assert!(matches!(result, Err(TimezoneError::MissingAreaSeparator(_))));
}

#[test]
fn test_starts_with_slash_error() {
    let result = Timezone::new("/America/New_York".to_string());
    assert!(matches!(result, Err(TimezoneError::InvalidFormat(_))));
}

#[test]
fn test_ends_with_slash_error() {
    let result = Timezone::new("America/New_York/".to_string());
    assert!(matches!(result, Err(TimezoneError::InvalidFormat(_))));
}

#[test]
fn test_double_slash_error() {
    let result = Timezone::new("America//New_York".to_string());
    assert!(matches!(result, Err(TimezoneError::InvalidFormat(_))));
}

#[test]
fn test_invalid_characters_space() {
    let result = Timezone::new("America/New York".to_string());
    assert!(matches!(result, Err(TimezoneError::InvalidCharacters(_))));
}

#[test]
fn test_invalid_characters_special() {
    let result = Timezone::new("America/New@York".to_string());
    assert!(matches!(result, Err(TimezoneError::InvalidCharacters(_))));
}

#[test]
fn test_timezone_trimming() {
    let tz = Timezone::new("  Europe/Paris  ".to_string()).unwrap();
    assert_eq!(tz.as_str(), "Europe/Paris");
}

#[test]
fn test_timezone_clone_and_eq() {
    let tz1 = Timezone::new("Asia/Tokyo".to_string()).unwrap();
    let tz2 = tz1.clone();
    assert_eq!(tz1, tz2);
}

#[test]
fn test_into_string() {
    let tz = Timezone::new("Europe/London".to_string()).unwrap();
    let s = tz.into_string();
    assert_eq!(s, "Europe/London");
}

#[test]
fn test_accepts_any_area_location_pair() {
    assert!(Timezone::new("FakeContinent/FakeCity".to_string()).is_ok());
    assert!(Timezone::new("Mars/Olympus_Mons".to_string()).is_ok());
}
