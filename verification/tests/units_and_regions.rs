use diplomacy::geo::{Coast, ProvinceKey, RegionKey};
use diplomacy::parser::ErrorKind;
use diplomacy::{Nation, UnitPosition, UnitType};
use std::str::FromStr;

#[test]
fn parse_coast() {
    assert_eq!(Coast::North, "nc".parse().expect("nc is a valid coast"));
    assert!(Coast::from_str("gc").is_err());
}

#[test]
fn parse_region() {
    assert_eq!(
        RegionKey::new(ProvinceKey::new("aeg"), None),
        RegionKey::from_str("aeg").expect("aeg is a valid region")
    );
    assert_eq!(
        &ErrorKind::BadCoast,
        RegionKey::from_str("foo(bar)").unwrap_err().kind()
    );
}

#[test]
fn parse_unit_type() {
    assert_eq!(Ok(UnitType::Army), "Army".parse());
    assert_eq!(Ok(UnitType::Fleet), "Fleet".parse());
    assert_eq!(Ok(UnitType::Army), "A".parse());
    assert_eq!(Ok(UnitType::Fleet), "F".parse());
    assert_eq!(Ok(UnitType::Army), "a".parse());
    assert_eq!(Ok(UnitType::Fleet), "f".parse());
}

#[test]
fn parse_unit_position() {
    let pos: UnitPosition<RegionKey> = "FRA: F bre".parse().unwrap();
    assert_eq!(pos.nation(), &Nation::from("FRA"));
}
