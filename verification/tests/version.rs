use bumper::Version;

#[test]
fn version_parses_dev_suffix() {
    let version: Version = "6.5.9-dev".parse().unwrap();

    assert!(version.is_suffixed());
    assert_eq!(version.to_string(), "6.5.9-dev");
}

#[test]
fn version_parses_rc_suffix() {
    let version: Version = "6.5.9-rc".parse().unwrap();

    assert_eq!(version.to_string(), "6.5.9-rc");
}

#[test]
fn version_parses_build_suffix() {
    let version: Version = "6.5.9+build".parse().unwrap();

    assert_eq!(version.to_string(), "6.5.9+build");
}

#[test]
fn version_parses_hyphenated_suffix() {
    let version: Version = "6.5.9-nightly.2026".parse().unwrap();

    assert_eq!(version.to_string(), "6.5.9-nightly.2026");
}

#[test]
fn version_plain_semver_becomes_plain_variant() {
    let version: Version = "6.5.9".parse().unwrap();

    assert!(matches!(version, Version::SemVer(_)));
}

#[test]
fn version_suffixed_version_becomes_suffixed_variant() {
    let version: Version = "6.5.9-dev".parse().unwrap();

    assert!(matches!(version, Version::Suffixed(_)));
}

#[test]
fn version_rejects_empty_suffix() {
    assert!("6.5.9-".parse::<Version>().is_err());
    assert!("6.5.9+".parse::<Version>().is_err());
}

#[test]
fn version_rejects_whitespace_suffix() {
    assert!("6.5.9-dev foo".parse::<Version>().is_err());
}

#[test]
fn version_rejects_double_separator_suffix() {
    assert!("6.5.9--dev".parse::<Version>().is_err());
    assert!("6.5.9-+dev".parse::<Version>().is_err());
}

#[test]
fn version_preserves_separator() {
    let version: Version = "6.5.9+build".parse().unwrap();

    match version {
        Version::Suffixed(version) => {
            assert_eq!(version.separator(), "+");
            assert_eq!(version.suffix(), "build");
        }
        _ => panic!("expected suffixed version"),
    }
}
