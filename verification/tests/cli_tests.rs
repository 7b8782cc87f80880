use gpkg::cli::{Cli, Commands, Directive, Install, List, Uninstall};
use gpkg::config::Config;
use gpkg::install::{first_line_trimmed, Action};
use gpkg::print_format::PrintFormat;
use gpkg::shim::Binary;
use gpkg::storage::{Metadata, MetadataV1};
use gpkg::version::NodePackageVersion;

#[test]
fn config_lays_out_the_root_directory() {
    let config = Config::new("/home/me/.gpkg".into());
    assert_eq!(config.root_dir(), "/home/me/.gpkg");
    assert_eq!(config.installations_dir(), "/home/me/.gpkg/installations");
    assert_eq!(config.bin_dir(), "/home/me/.gpkg/bin");
    assert_eq!(config.db_path(), "/home/me/.gpkg/metadata");
}

#[test]
fn path_for_names_a_json_file_per_binary() {
    let config = Config::new("/root".into());
    assert_eq!(Metadata::path_for("qnm", &config), "/root/metadata/qnm.json");
}

#[test]
fn path_for_replaces_an_existing_extension() {
    let config = Config::new("/root".into());
    assert_eq!(Metadata::path_for("tool.sh", &config), "/root/metadata/tool.json");
    assert_eq!(Metadata::path_for("a.b.c", &config), "/root/metadata/a.b.json");
    assert_eq!(Metadata::path_for(".hidden", &config), "/root/metadata/.hidden.json");
}

#[test]
fn print_format_variants_and_parsing() {
    assert_eq!(PrintFormat::variants(), vec!["table", "list", "json"]);
    assert_eq!(PrintFormat::from_str("table").unwrap(), PrintFormat::Table);
    assert_eq!(PrintFormat::from_str("list").unwrap(), PrintFormat::List);
    assert_eq!(PrintFormat::from_str("json").unwrap(), PrintFormat::Json);
    assert!(PrintFormat::from_str("yaml").is_err());
}

#[test]
fn print_format_rejection_names_the_input() {
    assert_eq!(
        PrintFormat::from_str("yaml").unwrap_err(),
        "I don't know what \"yaml\" means"
    );
    assert_eq!(
        PrintFormat::from_str("Table").unwrap_err(),
        "I don't know what \"Table\" means"
    );
}

#[test]
fn install_command_starts_an_installation() {
    let cli = Cli {
        config: Config::new("/root".into()),
        subcommand: Commands::Install(Install {
            package: NodePackageVersion::from_str("qnm@1.0.1").unwrap(),
        }),
    };
    match cli.call() {
        Directive::StartInstall { flow: _, first } => {
            assert!(matches!(first, Action::QueryRuntimeVersion));
        }
        _ => panic!("expected an installation to start"),
    }
}

#[test]
fn list_command_asks_for_a_scan() {
    let cli = Cli {
        config: Config::new("/root".into()),
        subcommand: Commands::List(List {
            format: PrintFormat::Json,
        }),
    };
    match cli.call() {
        Directive::ListBinaries { bin_dir, format } => {
            assert_eq!(bin_dir, "/root/bin");
            assert_eq!(format, PrintFormat::Json);
        }
        _ => panic!("expected a listing"),
    }
}

#[test]
fn uninstall_command_names_both_directories() {
    let cli = Cli {
        config: Config::new("/root".into()),
        subcommand: Commands::Uninstall(Uninstall {
            version: NodePackageVersion::from_str("qnm").unwrap(),
        }),
    };
    match cli.call() {
        Directive::RemoveForPackage {
            package,
            bin_dir,
            installations_dir,
        } => {
            assert_eq!(package.name(), "qnm");
            assert_eq!(bin_dir, "/root/bin");
            assert_eq!(installations_dir, "/root/installations");
        }
        _ => panic!("expected a removal"),
    }
}

#[test]
fn first_line_trimmed_reads_command_output() {
    assert_eq!(first_line_trimmed("v18.12.0\n"), "v18.12.0");
    assert_eq!(first_line_trimmed("  /usr/bin/node  \n/other/node\n"), "/usr/bin/node");
    assert_eq!(first_line_trimmed("bare"), "bare");
    assert_eq!(first_line_trimmed(""), "");
}

#[test]
fn script_src_is_the_documented_script() {
    let record = Metadata::V1(MetadataV1 {
        binary_name: "foo".into(),
        package_name: "pkg".into(),
        node_version: "v18.0.0".into(),
    });
    let blob = record.encode();
    let shim = Binary::new(
        record,
        "/root/bin/foo".into(),
        "/root/installations/pkg/node_modules/.bin/foo".into(),
        "/usr/local/bin/node".into(),
    );
    let text = shim.script_src();
    assert_eq!(
        text,
        format!(
            "#!/bin/sh\n# metadata: {}\nexport PATH=\"/usr/local/bin\":$PATH\n\"/root/installations/pkg/node_modules/.bin/foo\" \"$@\"\n",
            blob
        )
    );
}
