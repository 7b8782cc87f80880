use gpkg::version::NodePackageVersion;

#[test]
fn no_version() {
    let version = NodePackageVersion::from_str("qnm").unwrap();
    assert_eq!(
        version,
        NodePackageVersion {
            name: "qnm".into(),
            version: None
        }
    );
}

#[test]
fn version_with_tag() {
    let version = NodePackageVersion::from_str("qnm@next").unwrap();
    assert_eq!(
        version,
        NodePackageVersion {
            name: "qnm".into(),
            version: Some("next".into())
        }
    );
}

#[test]
fn with_spaces_in_version() {
    let version = NodePackageVersion::from_str(" qnm @ 1.0.1 ").unwrap();
    assert_eq!(
        version,
        NodePackageVersion {
            name: "qnm".into(),
            version: Some("1.0.1".into())
        }
    );
}

#[test]
fn empty_version_after_at_means_none() {
    let version = NodePackageVersion::from_str("qnm@").unwrap();
    assert_eq!(version.name(), "qnm");
    assert_eq!(version.version(), "latest");
}

#[test]
fn version_defaults_to_latest() {
    let version = NodePackageVersion::from_str("left-pad").unwrap();
    assert_eq!(version.name(), "left-pad");
    assert_eq!(version.version(), "latest");
}

#[test]
fn anything_after_a_second_at_is_ignored() {
    let version = NodePackageVersion::from_str("qnm@1.0.1@junk").unwrap();
    assert_eq!(version.name(), "qnm");
    assert_eq!(version.version(), "1.0.1");
}

#[test]
fn scoped_name_keeps_its_leading_at() {
    // The name part before the first at-sign is empty for scoped requests;
    // the scope then reads as the version part.
    let version = NodePackageVersion::from_str("@scope/pkg").unwrap();
    assert_eq!(version.name(), "");
    assert_eq!(version.version(), "scope/pkg");
}
