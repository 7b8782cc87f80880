use gpkg::storage::{Metadata, MetadataV1};

fn record(binary: &str, package: &str, node: &str) -> Metadata {
    Metadata::V1(MetadataV1 {
        binary_name: binary.into(),
        package_name: package.into(),
        node_version: node.into(),
    })
}

#[test]
fn round_trip_plain_record() {
    let m = record("qnm", "qnm", "v12.0.0");
    let blob = m.encode();
    let back = Metadata::decode(&blob).unwrap();
    assert_eq!(back, m);
}

#[test]
fn round_trip_special_characters() {
    let m = record("we\"ird", "back\\slash", "line\nbreak\tand\u{1}ctl");
    let blob = m.encode();
    let back = Metadata::decode(&blob).unwrap();
    assert_eq!(back, m);
}

#[test]
fn round_trip_unicode_fields() {
    let m = record("bínárý", "päckage-名前", "v16.13.0-αβγ");
    let blob = m.encode();
    let back = Metadata::decode(&blob).unwrap();
    assert_eq!(back, m);
}

#[test]
fn round_trip_empty_fields() {
    let m = record("", "", "");
    let blob = m.encode();
    let back = Metadata::decode(&blob).unwrap();
    assert_eq!(back, m);
}

#[test]
fn encode_is_single_line_base64_of_json() {
    // Hold the encoder against the real base64 and serde_json crates: the
    // blob is one line, decodes as base64, and the bytes parse as the
    // documented JSON object.
    let m = record("foo", "some-package", "v18.2.0");
    let blob = m.encode();
    assert!(!blob.contains('\n'));
    let bytes = base64::decode(&blob).unwrap();
    let v: serde_json::Value = serde_json::from_slice(&bytes).unwrap();
    assert_eq!(v["metadata_version"].as_str().unwrap(), "v1");
    assert_eq!(v["binary_name"].as_str().unwrap(), "foo");
    assert_eq!(v["package_name"].as_str().unwrap(), "some-package");
    assert_eq!(v["node_version"].as_str().unwrap(), "v18.2.0");
}

#[test]
fn decode_reads_externally_produced_blobs() {
    // A blob produced with the real base64 crate over the documented JSON
    // shape decodes to the expected record.
    let json = "{\"metadata_version\":\"v1\",\"binary_name\":\"foo\",\"package_name\":\"bar\",\"node_version\":\"v10.1.0\"}";
    let blob = base64::encode(json);
    let back = Metadata::decode(&blob).unwrap();
    assert_eq!(back, record("foo", "bar", "v10.1.0"));
}

#[test]
fn decode_rejects_unknown_version_tag() {
    let json = "{\"metadata_version\":\"v2\",\"binary_name\":\"foo\",\"package_name\":\"bar\",\"node_version\":\"v10.1.0\"}";
    let blob = base64::encode(json);
    assert!(Metadata::decode(&blob).is_err());
}

#[test]
fn decode_rejects_garbage() {
    assert!(Metadata::decode("not base64 at all!").is_err());
    assert!(Metadata::decode(&base64::encode("not json")).is_err());
    assert!(Metadata::decode(&base64::encode("{\"metadata_version\":\"v1\"}")).is_err());
    assert!(Metadata::decode("").is_err());
}

#[test]
fn latest_unwraps_the_current_shape() {
    let m = record("a", "b", "c");
    let latest = m.latest();
    assert_eq!(latest.binary_name, "a");
    assert_eq!(latest.package_name, "b");
    assert_eq!(latest.node_version, "c");
}
