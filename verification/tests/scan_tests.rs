use gpkg::shim::Binary;
use gpkg::storage::{Metadata, MetadataV1};

fn shim_text(binary: &str, package: &str, node: &str) -> String {
    let record = Metadata::V1(MetadataV1 {
        binary_name: binary.into(),
        package_name: package.into(),
        node_version: node.into(),
    });
    let shim = Binary::new(
        record,
        format!("/root/bin/{}", binary),
        format!("/root/installations/{}/node_modules/.bin/{}", package, binary),
        "/usr/local/bin/node".into(),
    );
    shim.script_src()
}

#[test]
fn scanner_sorts_by_binary_name() {
    // Shims for z, a and m come back as a, m, z.
    let files = vec![
        shim_text("z", "zpkg", "v1"),
        shim_text("a", "apkg", "v1"),
        shim_text("m", "mpkg", "v1"),
    ];
    let records = Metadata::read_all(&files);
    let names: Vec<&str> = records.iter().map(|r| r.binary_name.as_str()).collect();
    assert_eq!(names, vec!["a", "m", "z"]);
}

#[test]
fn scanner_skips_files_that_are_not_shims() {
    // One valid shim and one arbitrary executable yield exactly one record.
    let files = vec![
        shim_text("tool", "toolpkg", "v2"),
        "#!/bin/sh\necho hello\n".to_string(),
    ];
    let records = Metadata::read_all(&files);
    assert_eq!(records.len(), 1);
    assert_eq!(records[0].binary_name, "tool");
    assert_eq!(records[0].package_name, "toolpkg");
}

#[test]
fn scanner_skips_undecodable_metadata_lines() {
    let files = vec![
        "#!/bin/sh\n# metadata: this is not a valid blob\nexec true\n".to_string(),
        shim_text("good", "gpkg2", "v3"),
    ];
    let records = Metadata::read_all(&files);
    assert_eq!(records.len(), 1);
    assert_eq!(records[0].binary_name, "good");
}

#[test]
fn scanner_of_nothing_is_empty() {
    let files: Vec<String> = vec![];
    assert!(Metadata::read_all(&files).is_empty());
}

#[test]
fn from_script_source_finds_the_comment_line() {
    let text = shim_text("x", "xpkg", "v4");
    let m = Metadata::from_script_source(&text).unwrap();
    let latest = m.latest();
    assert_eq!(latest.binary_name, "x");
    assert_eq!(latest.package_name, "xpkg");
    assert_eq!(latest.node_version, "v4");
}

#[test]
fn from_script_source_rejects_plain_scripts() {
    assert!(Metadata::from_script_source("#!/bin/sh\nexec true\n").is_none());
    assert!(Metadata::from_script_source("").is_none());
}
