use unifetch::version::{str_to_version, version_greater, VersionError};

#[test]
fn parses_three_parts() {
    assert_eq!(str_to_version("1.22.333"), Ok((1, 22, 333)));
    assert_eq!(str_to_version("+1.2.3.4"), Ok((1, 2, 3)));
}

#[test]
fn version_errors() {
    assert_eq!(str_to_version("1"), Err(VersionError::NoMinor));
    assert_eq!(str_to_version("1.2"), Err(VersionError::NoPatch));
    assert_eq!(str_to_version("a.2.3"), Err(VersionError::InvalidNumber));
    assert_eq!(str_to_version(""), Err(VersionError::InvalidNumber));
    assert_eq!(str_to_version("1..3"), Err(VersionError::InvalidNumber));
    assert_eq!(str_to_version("1.2.99999999999999999999999"), Err(VersionError::InvalidNumber));
}

#[test]
fn compares_versions() {
    assert_eq!(version_greater("0.1.0", "0.1.1"), Ok(true));
    assert_eq!(version_greater("0.1.0", "0.2.0"), Ok(true));
    assert_eq!(version_greater("1.0.0", "0.9.9"), Ok(false));
    assert_eq!(version_greater("1.0.0", "1.0.0"), Ok(false));
    assert_eq!(version_greater("x", "1.0"), Err(VersionError::InvalidNumber));
    assert_eq!(version_greater("1.0.0", "1.0"), Err(VersionError::NoPatch));
}
