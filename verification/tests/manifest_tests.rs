use gpkg::manifest::{
    package_metadata_for_requested_package, read_installed_manifest, sanitize_x, InstalledPackage,
    PackageBinary, PackageEngines, PackageRoot,
};

#[test]
fn render_produces_the_documented_json() {
    let root = PackageRoot {
        name: "qnm_global_installation".into(),
        dependencies: vec![("qnm".into(), "1.0.1".into())],
        engines: PackageEngines {
            node: "v18.12.0".into(),
        },
    };
    let bytes = root.render();
    let text = String::from_utf8(bytes).unwrap();
    assert_eq!(
        text,
        "{\"name\":\"qnm_global_installation\",\"dependencies\":{\"qnm\":\"1.0.1\"},\"engines\":{\"node\":\"v18.12.0\"}}"
    );
}

#[test]
fn render_interoperates_with_a_real_json_parser() {
    let root = package_metadata_for_requested_package("left-pad", "latest", "v18.12.0");
    let bytes = root.render();
    let v: serde_json::Value = serde_json::from_slice(&bytes).unwrap();
    assert_eq!(v["name"].as_str().unwrap(), "left-pad_global_installation");
    assert_eq!(v["dependencies"]["left-pad"].as_str().unwrap(), "latest");
    assert_eq!(v["engines"]["node"].as_str().unwrap(), "v18.12.0");
}

#[test]
fn requested_package_names_become_one_path_segment() {
    let root = package_metadata_for_requested_package("@scope/pkg", "2.0.0", "v18.0.0");
    assert_eq!(root.name, "scope__pkg_global_installation");
    assert_eq!(root.dependencies, vec![("@scope/pkg".to_string(), "2.0.0".to_string())]);
    assert_eq!(sanitize_x("@scope/pkg"), "scope__pkg");
    assert_eq!(sanitize_x("plain"), "plain");
}

#[test]
fn manifest_with_a_bin_mapping_reads_as_a_mapping() {
    let p = read_installed_manifest(
        "{\"name\":\"tool\",\"version\":\"3.1.4\",\"bin\":{\"t1\":\"./a.js\",\"t2\":\"./b.js\"},\"dependencies\":{}}",
    )
    .unwrap();
    assert_eq!(p.name, "tool");
    let bins = p.binaries();
    assert_eq!(
        bins,
        vec![
            ("t1".to_string(), "./a.js".to_string()),
            ("t2".to_string(), "./b.js".to_string())
        ]
    );
}

#[test]
fn manifest_with_a_bare_bin_path_maps_the_package_name() {
    let p = read_installed_manifest("{\"name\":\"qnm\",\"bin\":\"./index.js\"}").unwrap();
    let bins = p.binaries();
    assert_eq!(bins, vec![("qnm".to_string(), "./index.js".to_string())]);
}

#[test]
fn manifest_without_an_accepted_shape_is_rejected() {
    assert!(read_installed_manifest("not json").is_none());
    assert!(read_installed_manifest("{\"name\":\"x\"}").is_none());
    assert!(read_installed_manifest("{\"bin\":\"./a.js\"}").is_none());
    assert!(read_installed_manifest("{\"name\":\"x\",\"bin\":42}").is_none());
    assert!(read_installed_manifest("{\"name\":\"x\",\"bin\":{\"a\":1}}").is_none());
}

#[test]
fn binaries_normalizes_by_construction_too() {
    let p = InstalledPackage {
        name: "pkg".into(),
        bin: PackageBinary::Single("./cli.js".into()),
    };
    assert_eq!(p.binaries(), vec![("pkg".to_string(), "./cli.js".to_string())]);
}
