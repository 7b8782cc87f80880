//! The requested package, as the user names it: `name[@version]`, with
//! whitespace tolerated around both parts.

use vstd::prelude::*;
use vstd::string::*;

use crate::text::{find_char, find_char_x, lemma_find_char, trim_x, trimmed};

verus! {

/// A package request: a name and an optional version or tag.
#[derive(Debug, PartialEq, Eq)]
pub struct NodePackageVersion {
    pub name: String,
    pub version: Option<String>,
}

/// The mathematical content of a package request.
pub ghost struct PackageRequestView {
    pub name: Seq<char>,
    pub version: Option<Seq<char>>,
}

impl View for NodePackageVersion {
    type V = PackageRequestView;

    open spec fn view(&self) -> PackageRequestView {
        PackageRequestView {
            name: self.name@,
            version: match self.version {
                Some(ref v) => Some(v@),
                None => None,
            },
        }
    }
}

/// How a request string reads: everything before the first `@` (trimmed) is
/// the name; between the first and second `@` (trimmed) is the version, empty
/// meaning none; anything after a second `@` is ignored.
pub open spec fn spec_parse_package(s: Seq<char>) -> PackageRequestView {
    let t = trimmed(s);
    match find_char(t, '@', 0) {
        None => PackageRequestView { name: t, version: None },
        Some(k) => {
            let name = trimmed(t.subrange(0, k));
            let rest = t.skip(k + 1);
            let vpart = match find_char(rest, '@', 0) {
                Some(k2) => rest.subrange(0, k2),
                None => rest,
            };
            let v = trimmed(vpart);
            PackageRequestView { name, version: if v.len() == 0 { None } else { Some(v) } }
        },
    }
}

impl NodePackageVersion {
    /// The requested package name, exactly as requested.
    pub fn name(&self) -> (r: &str)
        ensures
            r@ == self@.name,
    {
        self.name.as_str()
    }

    /// The requested version, defaulting to `latest` when none was named.
    pub fn version(&self) -> (r: &str)
        ensures
            r@ == match self@.version {
                Some(v) => v,
                None => "latest"@,
            },
    {
        match &self.version {
            Some(v) => v.as_str(),
            None => "latest",
        }
    }

    /// Reads a request of the form `name[@version]`.  Every string reads as
    /// some request, so this never fails.
    pub fn from_str(s: &str) -> (r: Result<NodePackageVersion, String>)
        ensures
            r is Ok && r.unwrap()@ == spec_parse_package(s@),
    {
        let t = trim_x(s);
        let tlen = t.unicode_len();
        match find_char_x(t, '@', 0) {
            None => Ok(
                NodePackageVersion { name: t.to_owned(), version: None },
            ),
            Some(k) => {
                proof {
                    lemma_find_char(t@, '@', 0);
                }
                let name = trim_x(t.substring_char(0, k)).to_owned();
                let rest = t.substring_char(k + 1, tlen);
                proof {
                    assert(rest@ =~= t@.skip(k + 1));
                }
                let rlen = rest.unicode_len();
                let vend: usize = match find_char_x(rest, '@', 0) {
                    Some(k2) => {
                        proof {
                            lemma_find_char(rest@, '@', 0);
                        }
                        k2
                    },
                    None => rlen,
                };
                proof {
                    if vend == rlen {
                        assert(rest@.subrange(0, rlen as int) =~= rest@);
                    }
                }
                let v = trim_x(rest.substring_char(0, vend));
                if v.unicode_len() == 0 {
                    assert(trimmed(rest@.subrange(0, vend as int)).len() == 0);
                    Ok(NodePackageVersion { name, version: None })
                } else {
                    Ok(NodePackageVersion { name, version: Some(v.to_owned()) })
                }
            },
        }
    }
}

} // verus!
