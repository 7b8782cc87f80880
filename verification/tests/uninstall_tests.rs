use gpkg::shim::Binary;
use gpkg::storage::{Metadata, MetadataV1};
use gpkg::uninstall::uninstall_plan;

fn shim_text(binary: &str, package: &str) -> String {
    let record = Metadata::V1(MetadataV1 {
        binary_name: binary.into(),
        package_name: package.into(),
        node_version: "v18.0.0".into(),
    });
    Binary::new(
        record,
        format!("/root/bin/{}", binary),
        format!("/root/installations/{}/node_modules/.bin/{}", package, binary),
        "/usr/local/bin/node".into(),
    )
    .script_src()
}

#[test]
fn uninstall_removes_both_binaries_and_the_directory() {
    // Package p shipped binaries a and b; package q shipped c.
    let files = vec![shim_text("a", "p"), shim_text("b", "p"), shim_text("c", "q")];
    let records = Metadata::read_all(&files);
    assert_eq!(records.len(), 3);

    let plan = uninstall_plan(&records, "p", "/root/bin", "/root/installations");
    assert_eq!(plan.binary_paths, vec!["/root/bin/a", "/root/bin/b"]);
    assert_eq!(plan.package_dir, "/root/installations/p");

    // Removing the planned shim files leaves an inventory that no longer
    // mentions p at all, while q is untouched.
    let remaining: Vec<String> = files
        .iter()
        .filter(|text| {
            let name = Metadata::from_script_source(text).unwrap().latest().binary_name;
            !plan
                .binary_paths
                .iter()
                .any(|p| p.as_str() == format!("/root/bin/{}", name))
        })
        .cloned()
        .collect();
    let after = Metadata::read_all(&remaining);
    assert_eq!(after.len(), 1);
    assert_eq!(after[0].binary_name, "c");
    assert_eq!(after[0].package_name, "q");
}

#[test]
fn uninstall_of_an_unknown_package_removes_nothing() {
    let files = vec![shim_text("a", "p")];
    let records = Metadata::read_all(&files);
    let plan = uninstall_plan(&records, "unrelated", "/root/bin", "/root/installations");
    assert!(plan.binary_paths.is_empty());
    assert_eq!(plan.package_dir, "/root/installations/unrelated");
}

#[test]
fn uninstall_plan_uses_the_sanitized_directory_name() {
    let records: Vec<MetadataV1> = vec![];
    let plan = uninstall_plan(&records, "@scope/pkg", "/root/bin", "/root/installations");
    assert_eq!(plan.package_dir, "/root/installations/scope__pkg");
}
