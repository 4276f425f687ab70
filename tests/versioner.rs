use bumper::analyser::BumpType;
use bumper::error::BumperError;
use bumper::versioner::Version;

#[test]
fn test_version_parse() {
    let version = Version::parse("1.2.3").unwrap();
    assert_eq!(version.major, 1);
    assert_eq!(version.minor, 2);
    assert_eq!(version.patch, 3);
}

#[test]
fn test_version_bump_major() {
    let version = Version::parse("1.2.3").unwrap();
    let bumped = version.bump(BumpType::Major);
    assert_eq!(bumped.to_string(), "2.0.0");
}

#[test]
fn test_version_bump_minor() {
    let version = Version::parse("1.2.3").unwrap();
    let bumped = version.bump(BumpType::Minor);
    assert_eq!(bumped.to_string(), "1.3.0");
}

#[test]
fn test_version_bump_patch() {
    let version = Version::parse("1.2.3").unwrap();
    let bumped = version.bump(BumpType::Patch);
    assert_eq!(bumped.to_string(), "1.2.4");
}

#[test]
fn bump_arithmetic_on_all_kinds() {
    let v = Version::new(1, 2, 3);
    assert_eq!(v.bump(BumpType::Major), Version::new(2, 0, 0));
    assert_eq!(v.bump(BumpType::Minor), Version::new(1, 3, 0));
    assert_eq!(v.bump(BumpType::Patch), Version::new(1, 2, 4));
    assert_eq!(v.bump(BumpType::NoBump), Version::new(1, 2, 3));
}

#[test]
fn checked_bump_refuses_overflow() {
    let v = Version::new(u32::MAX, 7, 9);
    assert_eq!(v.checked_bump(BumpType::Major), None);
    assert_eq!(v.checked_bump(BumpType::Minor), Some(Version::new(u32::MAX, 8, 0)));
}

#[test]
fn round_trip_through_text() {
    for v in [
        Version::new(0, 0, 0),
        Version::new(10, 200, 3000),
        Version::new(u32::MAX, 0, u32::MAX),
    ] {
        assert_eq!(Version::parse(&v.to_string()), Ok(v.clone()));
    }
    assert_eq!(Version::new(4294967295, 10, 9).to_string(), "4294967295.10.9");
}

#[test]
fn parse_rejects_wrong_arity_and_bad_parts() {
    for s in ["1.2", "1.2.3.4", "", "1..3", "a.b.c", "1.2.-3", "1.2.4294967296", "1.2.3 ", "+.1.2"] {
        assert_eq!(
            Version::parse(s),
            Err(BumperError::InvalidVersion(s.to_string())),
            "input {:?}",
            s
        );
    }
}

#[test]
fn parse_accepts_what_u32_accepts() {
    assert_eq!(Version::parse("+1.02.4294967295"), Ok(Version::new(1, 2, 4294967295)));
}

#[test]
fn version_order_is_lexicographic() {
    assert!(Version::new(1, 2, 3).lt(&Version::new(1, 3, 0)));
    assert!(Version::new(1, 9, 9).lt(&Version::new(2, 0, 0)));
    assert!(!Version::new(1, 2, 3).lt(&Version::new(1, 2, 3)));
    assert!(!Version::new(2, 0, 0).lt(&Version::new(1, 9, 9)));
}
