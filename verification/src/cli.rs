//! The command surface: each parsed command, given a configuration, decides
//! what is to happen.  Parsing the command line and performing filesystem work
//! belong to the surrounding program; the decisions here are exact.

use vstd::prelude::*;

use crate::config::Config;
use crate::install::{promoted, Action, InstallFlow};
use crate::manifest::sanitized;
use crate::print_format::PrintFormat;
use crate::text::path_join;
use crate::version::NodePackageVersion;

verus! {

/// Install a package and publish its binaries.
pub struct Install {
    pub package: NodePackageVersion,
}

/// List every installed binary.
pub struct List {
    pub format: PrintFormat,
}

/// Remove a package and its binaries.
pub struct Uninstall {
    pub version: NodePackageVersion,
}

/// The commands this tool understands.
pub enum Commands {
    Install(Install),
    List(List),
    Uninstall(Uninstall),
}

/// What a command, under a configuration, asks the surrounding program to do.
pub enum Directive {
    /// Drive this installation machine, starting with its first action.
    StartInstall { flow: InstallFlow, first: Action },
    /// Scan this bin directory's file texts through the inventory scanner and
    /// render the result in this format.
    ListBinaries { bin_dir: String, format: PrintFormat },
    /// Scan this bin directory, plan the removal for this package, and perform
    /// it against these directories.
    RemoveForPackage { package: NodePackageVersion, bin_dir: String, installations_dir: String },
}

impl Commands {
    /// Decides what this command does under the given configuration.
    pub fn call(self, config: Config) -> (r: Directive)
        ensures
            self matches Commands::Install(c) ==> {
                &&& r matches Directive::StartInstall { flow, first }
                &&& flow.inv()
                &&& first is QueryRuntimeVersion
                &&& flow.history() == seq![Action::QueryRuntimeVersion]
                &&& !promoted(flow.history())
                &&& flow.request_name() == c.package@.name
                &&& flow.target_view() == path_join(
                    path_join(config@, "installations"@),
                    sanitized(c.package@.name),
                )
                &&& flow.bin_dir_view() == path_join(config@, "bin"@)
            },
            self matches Commands::List(c) ==> {
                &&& r matches Directive::ListBinaries { bin_dir, format }
                &&& bin_dir@ == path_join(config@, "bin"@)
                &&& format == c.format
            },
            self matches Commands::Uninstall(c) ==> {
                &&& r matches Directive::RemoveForPackage { package, bin_dir, installations_dir }
                &&& package == c.version
                &&& bin_dir@ == path_join(config@, "bin"@)
                &&& installations_dir@ == path_join(config@, "installations"@)
            },
    {
        match self {
            Commands::Install(c) => {
                let (flow, first) = InstallFlow::begin(c.package, &config);
                Directive::StartInstall { flow, first }
            },
            Commands::List(c) => Directive::ListBinaries {
                bin_dir: config.bin_dir(),
                format: c.format,
            },
            Commands::Uninstall(c) => Directive::RemoveForPackage {
                package: c.version,
                bin_dir: config.bin_dir(),
                installations_dir: config.installations_dir(),
            },
        }
    }
}

/// A whole invocation: the configuration and the chosen command.
pub struct Cli {
    pub config: Config,
    pub subcommand: Commands,
}

impl Cli {
    /// Decides what this invocation does.
    pub fn call(self) -> (r: Directive)
        ensures
            self.subcommand matches Commands::Install(c) ==> {
                &&& r matches Directive::StartInstall { flow, first }
                &&& flow.inv()
                &&& first is QueryRuntimeVersion
                &&& flow.request_name() == c.package@.name
                &&& flow.target_view() == path_join(
                    path_join(self.config@, "installations"@),
                    sanitized(c.package@.name),
                )
                &&& flow.bin_dir_view() == path_join(self.config@, "bin"@)
            },
            self.subcommand matches Commands::List(c) ==> {
                &&& r matches Directive::ListBinaries { bin_dir, format }
                &&& bin_dir@ == path_join(self.config@, "bin"@)
                &&& format == c.format
            },
            self.subcommand matches Commands::Uninstall(c) ==> {
                &&& r matches Directive::RemoveForPackage { package, bin_dir, installations_dir }
                &&& package == c.version
                &&& bin_dir@ == path_join(self.config@, "bin"@)
                &&& installations_dir@ == path_join(self.config@, "installations"@)
            },
    {
        self.subcommand.call(self.config)
    }
}

} // verus!
