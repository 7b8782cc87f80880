//! Where the tool keeps its state: a root directory with the `installations`
//! tree and the shared `bin` directory under it.
//!
//! Resolving the root (a flag, an environment override, or a home-directory
//! default) is the caller's business; the layout beneath it is fixed here.

use vstd::prelude::*;

use crate::text::{path_join, path_join_x};

verus! {

/// The resolved root directory of the tool's on-disk state.
#[derive(Debug, PartialEq, Eq)]
pub struct Config {
    root_dir: String,
}

impl View for Config {
    type V = Seq<char>;

    closed spec fn view(&self) -> Seq<char> {
        self.root_dir@
    }
}

impl Config {
    /// A configuration rooted at the given directory.
    pub fn new(root_dir: String) -> (r: Config)
        ensures
            r@ == root_dir@,
    {
        Config { root_dir }
    }

    /// The root directory itself.
    pub fn root_dir(&self) -> (r: &str)
        ensures
            r@ == self@,
    {
        self.root_dir.as_str()
    }

    /// Where installation directories live, one per installed package.
    pub fn installations_dir(&self) -> (r: String)
        ensures
            r@ == path_join(self@, "installations"@),
    {
        path_join_x(self.root_dir.as_str(), "installations")
    }

    /// Where the generated shims live, shared across packages.
    pub fn bin_dir(&self) -> (r: String)
        ensures
            r@ == path_join(self@, "bin"@),
    {
        path_join_x(self.root_dir.as_str(), "bin")
    }

    /// Where a metadata side store would live; kept for compatibility with
    /// layouts that carried one, though shims are the single source of truth.
    pub fn db_path(&self) -> (r: String)
        ensures
            r@ == path_join(self@, "metadata"@),
    {
        path_join_x(self.root_dir.as_str(), "metadata")
    }
}

} // verus!
