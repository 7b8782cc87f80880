//! A global package-binary manager library.
//!
//! Installs a package from a remote registry into an isolated directory,
//! discovers the executables it ships, and publishes launcher scripts
//! ("shims") that carry their own provenance metadata, so that listing and
//! uninstalling work purely from the directory tree, with no side database.

pub mod cli;
pub mod config;
pub mod install;
pub mod json;
pub mod manifest;
pub mod print_format;
pub mod scan;
pub mod shim;
pub mod storage;
pub mod text;
pub mod uninstall;
pub mod version;
