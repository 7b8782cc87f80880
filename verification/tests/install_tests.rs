use gpkg::config::Config;
use gpkg::install::{Action, Errors, Event, InstallFlow, Step};
use gpkg::storage::Metadata;
use gpkg::version::NodePackageVersion;

fn begin(request: &str) -> (InstallFlow, Action) {
    let config = Config::new("/root".into());
    let package = NodePackageVersion::from_str(request).unwrap();
    InstallFlow::begin(package, &config)
}

fn expect_do(step: Step) -> Action {
    match step {
        Step::Do(a) => a,
        Step::Done(r) => panic!("expected another action, got {:?}", r.map(|_| ())),
    }
}

#[test]
fn install_rejects_an_already_installed_package() {
    let (mut flow, first) = begin("qnm@1.0.1");
    assert!(matches!(first, Action::QueryRuntimeVersion));
    let a = expect_do(flow.step(Event::RuntimeVersion {
        stdout: Some("v18.12.0\n".into()),
    }));
    assert!(matches!(a, Action::LocateRuntime));
    let a = expect_do(flow.step(Event::RuntimeLocation {
        path: Some("/usr/local/bin/node".into()),
    }));
    match a {
        Action::CheckInstalled { path } => assert_eq!(path, "/root/installations/qnm"),
        _ => panic!("expected the existence check"),
    }
    // The package is already there: the machine stops with the dedicated
    // error and never asked for anything that would change the filesystem.
    match flow.step(Event::Installed { exists: true }) {
        Step::Done(Err(Errors::PackageAlreadyInstalled(name))) => assert_eq!(name, "qnm"),
        _ => panic!("expected PackageAlreadyInstalled"),
    }
}

/// Walks a full installation for `request`, answering with a manifest of
/// `manifest_text`, and returns the created shims as (path, contents).
fn walk_happy_path(request: &str, manifest_text: &str) -> Vec<(String, String)> {
    let (mut flow, first) = begin(request);
    assert!(matches!(first, Action::QueryRuntimeVersion));
    expect_do(flow.step(Event::RuntimeVersion {
        stdout: Some("v18.12.0\n".into()),
    }));
    expect_do(flow.step(Event::RuntimeLocation {
        path: Some("/usr/local/bin/node".into()),
    }));
    expect_do(flow.step(Event::Installed { exists: false }));
    let a = expect_do(flow.step(Event::StageCreated {
        path: Some("/root/installations/.tmp1234".into()),
    }));
    match &a {
        Action::WriteFile { path, contents } => {
            assert_eq!(path, "/root/installations/.tmp1234/package.json");
            let v: serde_json::Value = serde_json::from_slice(contents).unwrap();
            assert_eq!(v["engines"]["node"].as_str().unwrap(), "v18.12.0");
        }
        _ => panic!("expected the manifest write"),
    }
    let a = expect_do(flow.step(Event::FileWritten { ok: true }));
    match &a {
        Action::RunClient { dir } => assert_eq!(dir, "/root/installations/.tmp1234"),
        _ => panic!("expected the client run"),
    }
    let a = expect_do(flow.step(Event::ClientExited { outcome: Some(true) }));
    match &a {
        Action::ReadFile { path } => assert!(path.ends_with("package.json")),
        _ => panic!("expected the manifest read"),
    }
    let a = expect_do(flow.step(Event::FileRead {
        contents: Some(manifest_text.into()),
    }));
    match &a {
        Action::Promote { from, to } => {
            assert_eq!(from, "/root/installations/.tmp1234");
            assert!(to.starts_with("/root/installations/"));
        }
        _ => panic!("expected the promotion"),
    }
    let mut shims: Vec<(String, String)> = Vec::new();
    let mut step = flow.step(Event::Promoted { ok: true });
    loop {
        match step {
            Step::Do(Action::CreateShim { path, contents }) => {
                shims.push((path, contents));
                step = flow.step(Event::ShimCreated { ok: true });
            }
            Step::Done(Ok(())) => break,
            other => panic!("unexpected step {:?}", matches!(other, Step::Do(_))),
        }
    }
    shims
}

#[test]
fn install_with_a_bin_mapping_creates_exactly_that_shim() {
    let shims = walk_happy_path(
        "some-package",
        "{\"name\":\"some-package\",\"bin\":{\"foo\":\"./bin/foo.js\"},\"version\":\"1.0.0\"}",
    );
    assert_eq!(shims.len(), 1);
    let (path, contents) = &shims[0];
    assert_eq!(path, "/root/bin/foo");
    let record = Metadata::from_script_source(contents).unwrap().latest();
    assert_eq!(record.binary_name, "foo");
    assert_eq!(record.package_name, "some-package");
    assert_eq!(record.node_version, "v18.12.0");
    assert!(contents.starts_with("#!/bin/sh\n"));
    assert!(contents.contains("export PATH=\"/usr/local/bin\":$PATH"));
    assert!(contents
        .contains("\"/root/installations/some-package/node_modules/.bin/foo\" \"$@\""));
}

#[test]
fn install_with_a_bare_bin_path_uses_the_package_name() {
    let shims = walk_happy_path("qnm", "{\"name\":\"qnm\",\"bin\":\"./index.js\"}");
    assert_eq!(shims.len(), 1);
    let (path, contents) = &shims[0];
    assert_eq!(path, "/root/bin/qnm");
    let record = Metadata::from_script_source(contents).unwrap().latest();
    assert_eq!(record.binary_name, "qnm");
    assert_eq!(record.package_name, "qnm");
}

#[test]
fn install_with_several_binaries_creates_one_shim_each() {
    let shims = walk_happy_path(
        "multi",
        "{\"name\":\"multi\",\"bin\":{\"a\":\"./a.js\",\"b\":\"./b.js\"}}",
    );
    let mut paths: Vec<&str> = shims.iter().map(|(p, _)| p.as_str()).collect();
    paths.sort();
    assert_eq!(paths, vec!["/root/bin/a", "/root/bin/b"]);
}

#[test]
fn install_fails_when_the_client_fails_and_cleans_the_stage() {
    let (mut flow, _) = begin("qnm");
    expect_do(flow.step(Event::RuntimeVersion {
        stdout: Some("v18.12.0".into()),
    }));
    expect_do(flow.step(Event::RuntimeLocation {
        path: Some("/usr/local/bin/node".into()),
    }));
    expect_do(flow.step(Event::Installed { exists: false }));
    expect_do(flow.step(Event::StageCreated {
        path: Some("/root/installations/.tmp77".into()),
    }));
    expect_do(flow.step(Event::FileWritten { ok: true }));
    let a = expect_do(flow.step(Event::ClientExited { outcome: Some(false) }));
    match a {
        Action::RemoveStage { path } => assert_eq!(path, "/root/installations/.tmp77"),
        _ => panic!("expected the stage cleanup"),
    }
    match flow.step(Event::StageRemoved) {
        Step::Done(Err(Errors::InstallationFailed)) => {}
        _ => panic!("expected InstallationFailed"),
    }
}

#[test]
fn install_fails_closed_on_an_unreadable_manifest() {
    let (mut flow, _) = begin("qnm");
    expect_do(flow.step(Event::RuntimeVersion {
        stdout: Some("v18.12.0".into()),
    }));
    expect_do(flow.step(Event::RuntimeLocation {
        path: Some("/usr/local/bin/node".into()),
    }));
    expect_do(flow.step(Event::Installed { exists: false }));
    expect_do(flow.step(Event::StageCreated {
        path: Some("/root/installations/.tmp9".into()),
    }));
    expect_do(flow.step(Event::FileWritten { ok: true }));
    expect_do(flow.step(Event::ClientExited { outcome: Some(true) }));
    let a = expect_do(flow.step(Event::FileRead {
        contents: Some("{\"name\":\"qnm\"}".into()),
    }));
    assert!(matches!(a, Action::RemoveStage { .. }));
    match flow.step(Event::StageRemoved) {
        Step::Done(Err(Errors::MetadataParseError(_))) => {}
        _ => panic!("expected MetadataParseError"),
    }
}

#[test]
fn install_fails_when_the_runtime_is_missing() {
    let (mut flow, _) = begin("qnm");
    match flow.step(Event::RuntimeVersion { stdout: None }) {
        Step::Done(Err(Errors::IoError(_))) => {}
        _ => panic!("expected an IoError"),
    }
}

#[test]
fn install_cleans_up_when_promotion_fails() {
    let (mut flow, _) = begin("qnm");
    expect_do(flow.step(Event::RuntimeVersion {
        stdout: Some("v18.12.0".into()),
    }));
    expect_do(flow.step(Event::RuntimeLocation {
        path: Some("/usr/local/bin/node".into()),
    }));
    expect_do(flow.step(Event::Installed { exists: false }));
    expect_do(flow.step(Event::StageCreated {
        path: Some("/root/installations/.tmp3".into()),
    }));
    expect_do(flow.step(Event::FileWritten { ok: true }));
    expect_do(flow.step(Event::ClientExited { outcome: Some(true) }));
    expect_do(flow.step(Event::FileRead {
        contents: Some("{\"name\":\"qnm\",\"bin\":\"./index.js\"}".into()),
    }));
    let a = expect_do(flow.step(Event::Promoted { ok: false }));
    match a {
        Action::RemoveStage { path } => assert_eq!(path, "/root/installations/.tmp3"),
        _ => panic!("expected the stage cleanup"),
    }
    match flow.step(Event::StageRemoved) {
        Step::Done(Err(Errors::IoError(_))) => {}
        _ => panic!("expected an IoError"),
    }
}

#[test]
fn install_refuses_a_stage_that_collides_with_the_target() {
    let (mut flow, _) = begin("qnm");
    expect_do(flow.step(Event::RuntimeVersion {
        stdout: Some("v18.12.0".into()),
    }));
    expect_do(flow.step(Event::RuntimeLocation {
        path: Some("/usr/local/bin/node".into()),
    }));
    expect_do(flow.step(Event::Installed { exists: false }));
    match flow.step(Event::StageCreated {
        path: Some("/root/installations/qnm".into()),
    }) {
        Step::Done(Err(Errors::IoError(_))) => {}
        _ => panic!("expected the collision to be refused"),
    }
}
