use bumper::{SemVer, SemVerParseError};

#[test]
fn semver_parses_basic_semver() {
    let version: SemVer = "6.5.9".parse().unwrap();

    assert_eq!(*version.major(), 6);
    assert_eq!(*version.minor(), 5);
    assert_eq!(*version.patch(), 9);
}

#[test]
fn semver_formats_basic_semver() {
    let version: SemVer = "6.5.9".parse().unwrap();

    assert_eq!(version.to_string(), "6.5.9");
}

#[test]
fn semver_rejects_v_prefix() {
    assert!("v6.5.9".parse::<SemVer>().is_err());
}

#[test]
fn semver_rejects_missing_patch() {
    assert!("6.5".parse::<SemVer>().is_err());
}

#[test]
fn semver_rejects_missing_minor() {
    assert!("6.9".parse::<SemVer>().is_err());
}

#[test]
fn semver_rejects_leading_zero_major() {
    assert!("06.5.9".parse::<SemVer>().is_err());
}

#[test]
fn semver_rejects_leading_zero_minor() {
    assert!("6.05.9".parse::<SemVer>().is_err());
}

#[test]
fn semver_rejects_leading_zero_patch() {
    assert!("6.5.09".parse::<SemVer>().is_err());
}

#[test]
fn semver_rejects_invalid_middle_component() {
    assert!("6.x.9".parse::<SemVer>().is_err());
}

#[test]
fn semver_accepts_zero_components() {
    let version: SemVer = "0.0.0".parse().unwrap();

    assert_eq!(version.to_string(), "0.0.0");
}

#[test]
fn semver_accepts_single_digit_components() {
    let version: SemVer = "6.5.9".parse().unwrap();

    assert_eq!(*version.major(), 6);
    assert_eq!(*version.minor(), 5);
    assert_eq!(*version.patch(), 9);
}

#[test]
fn semver_accepts_large_components() {
    let version: SemVer<u64> = "65535.65535.65535".parse().unwrap();

    assert_eq!(*version.major(), 65535);
    assert_eq!(*version.minor(), 65535);
    assert_eq!(*version.patch(), 65535);
}

#[test]
fn semver_detects_integer_overflow() {
    let result = "65536.5.9".parse::<SemVer<u16>>();

    assert!(matches!(result, Err(SemVerParseError::ComponentOverflow)));
}

#[test]
fn semver_detects_minor_integer_overflow() {
    let result = "1.65536.9".parse::<SemVer<u16>>();

    assert!(matches!(result, Err(SemVerParseError::ComponentOverflow)));
}

#[test]
fn semver_detects_patch_integer_overflow() {
    let result = "1.2.65536".parse::<SemVer<u16>>();

    assert!(matches!(result, Err(SemVerParseError::ComponentOverflow)));
}

#[test]
fn semver_new_is_zero() {
    let version = SemVer::<u16>::new();

    assert_eq!(version.to_string(), "0.0.0");
}

#[test]
fn semver_successor_increments_patch() {
    let version: SemVer = "6.5.8".parse().unwrap();

    assert_eq!(version.successor().to_string(), "6.5.9");
}

#[test]
fn semver_successor_rolls_minor() {
    let version: SemVer = "6.5.9".parse().unwrap();

    assert_eq!(version.successor().to_string(), "6.6.0");
}

#[test]
fn semver_successor_rolls_major() {
    let version: SemVer = "6.9.9".parse().unwrap();

    assert_eq!(version.successor().to_string(), "7.0.0");
}

#[test]
fn semver_generic_semver_works_with_u32() {
    let version: SemVer<u32> = "4294967295.9.9".parse().unwrap();

    assert_eq!(*version.major(), u32::MAX);
}

#[test]
fn semver_generic_semver_works_with_u64() {
    let version: SemVer<u64> = "18446744073709551615.9.9".parse().unwrap();

    assert_eq!(*version.major(), u64::MAX);
}
