//! Package manifests on both sides of an installation.
//!
//! Outbound: the manifest written into the stage, naming the requested package
//! as the sole dependency; it is rendered here, byte for byte, with a pinned
//! contract.  Inbound: the installed package's own manifest, read through
//! serde_json behind trusted items, whose `bin` field comes in two accepted
//! shapes and is normalized into one uniform mapping by `binaries`.

use vstd::prelude::*;
use vstd::string::*;
use vstd::utf8::{encode_utf8, is_ascii_chars};

use crate::json::{esc, escape_append, B_QUOTE};
use crate::text::lex_lt;

verus! {

/// The engines block of a manifest: the runtime version constraint.
#[derive(Debug, PartialEq, Eq)]
pub struct PackageEngines {
    pub node: String,
}

impl View for PackageEngines {
    type V = Seq<char>;

    open spec fn view(&self) -> Seq<char> {
        self.node@
    }
}

/// The manifest written into a staging directory: a synthetic name, exactly
/// the dependencies given, and the active runtime version, informationally.
#[derive(Debug, PartialEq, Eq)]
pub struct PackageRoot {
    pub name: String,
    pub dependencies: Vec<(String, String)>,
    pub engines: PackageEngines,
}

/// The mathematical content of an outbound manifest.
pub ghost struct PackageRootView {
    pub name: Seq<char>,
    pub dependencies: Seq<(Seq<char>, Seq<char>)>,
    pub engines_node: Seq<char>,
}

/// The views of a sequence of string pairs.
pub open spec fn pairs_view(s: Seq<(String, String)>) -> Seq<(Seq<char>, Seq<char>)> {
    s.map_values(|p: (String, String)| (p.0@, p.1@))
}

impl View for PackageRoot {
    type V = PackageRootView;

    open spec fn view(&self) -> PackageRootView {
        PackageRootView {
            name: self.name@,
            dependencies: pairs_view(self.dependencies@),
            engines_node: self.engines@,
        }
    }
}

/// One rendered dependency entry: `"key":"value"`, escaped.
pub open spec fn dep_entry_json(k: Seq<char>, v: Seq<char>) -> Seq<u8> {
    seq![B_QUOTE] + esc(encode_utf8(k)) + "\":\"".spec_bytes() + esc(encode_utf8(v))
        + seq![B_QUOTE]
}

/// The rendered body of a dependencies object: entries in order, separated by
/// commas.
pub open spec fn deps_json(deps: Seq<(Seq<char>, Seq<char>)>) -> Seq<u8>
    decreases deps.len(),
{
    if deps.len() == 0 {
        Seq::empty()
    } else if deps.len() == 1 {
        dep_entry_json(deps[0].0, deps[0].1)
    } else {
        dep_entry_json(deps[0].0, deps[0].1) + ",".spec_bytes() + deps_json(deps.drop_first())
    }
}

/// Appending one more dependency appends one more rendered entry.
proof fn lemma_deps_json_push(deps: Seq<(Seq<char>, Seq<char>)>, e: (Seq<char>, Seq<char>))
    ensures
        deps_json(deps.push(e)) == if deps.len() == 0 {
            dep_entry_json(e.0, e.1)
        } else {
            deps_json(deps) + ",".spec_bytes() + dep_entry_json(e.0, e.1)
        },
    decreases deps.len(),
{
    let whole = deps.push(e);
    if deps.len() == 0 {
        assert(whole[0] == e);
        assert(whole.len() == 1);
    } else {
        assert(whole.drop_first() =~= deps.drop_first().push(e));
        lemma_deps_json_push(deps.drop_first(), e);
        if deps.len() == 1 {
            assert(deps.drop_first().len() == 0);
            assert(deps_json(deps) == dep_entry_json(deps[0].0, deps[0].1));
        } else {
            assert((deps_json(deps.drop_first()) + ",".spec_bytes() + dep_entry_json(e.0, e.1))
                =~= (deps_json(deps.drop_first()) + (",".spec_bytes() + dep_entry_json(
                e.0,
                e.1,
            ))));
            assert(dep_entry_json(whole[0].0, whole[0].1) + ",".spec_bytes() + (deps_json(
                deps.drop_first(),
            ) + ",".spec_bytes() + dep_entry_json(e.0, e.1)) =~= (dep_entry_json(
                deps[0].0,
                deps[0].1,
            ) + ",".spec_bytes() + deps_json(deps.drop_first())) + ",".spec_bytes()
                + dep_entry_json(e.0, e.1));
        }
    }
}

/// The full rendered bytes of an outbound manifest.
pub open spec fn manifest_json(m: PackageRootView) -> Seq<u8> {
    "{\"name\":\"".spec_bytes() + esc(encode_utf8(m.name)) + "\",\"dependencies\":{".spec_bytes()
        + deps_json(m.dependencies) + "},\"engines\":{\"node\":\"".spec_bytes() + esc(
        encode_utf8(m.engines_node),
    ) + "\"}}".spec_bytes()
}

impl PackageRoot {
    /// Renders the manifest to its on-disk bytes, exactly `manifest_json`.
    pub fn render(&self) -> (r: Vec<u8>)
        ensures
            r@ == manifest_json(self@),
    {
        let mut out: Vec<u8> = "{\"name\":\"".as_bytes_vec();
        let nameb = self.name.as_str().as_bytes_vec();
        escape_append(&mut out, &nameb);
        let mut l1 = "\",\"dependencies\":{".as_bytes_vec();
        out.append(&mut l1);
        let ghost head = out@;
        let mut i: usize = 0;
        while i < self.dependencies.len()
            invariant
                i <= self.dependencies@.len(),
                out@ == head + deps_json(pairs_view(self.dependencies@).take(i as int)),
            decreases self.dependencies@.len() - i,
        {
            let ghost sofar = pairs_view(self.dependencies@).take(i as int);
            if i > 0 {
                let mut c = ",".as_bytes_vec();
                out.append(&mut c);
            }
            let mut q1 = "\"".as_bytes_vec();
            out.append(&mut q1);
            let kb = self.dependencies[i].0.as_str().as_bytes_vec();
            escape_append(&mut out, &kb);
            let mut mid = "\":\"".as_bytes_vec();
            out.append(&mut mid);
            let vb = self.dependencies[i].1.as_str().as_bytes_vec();
            escape_append(&mut out, &vb);
            out.push(B_QUOTE);
            proof {
                let e = pairs_view(self.dependencies@)[i as int];
                assert("\"".spec_bytes() + esc(encode_utf8(e.0)) + "\":\"".spec_bytes() + esc(
                    encode_utf8(e.1),
                ) + seq![B_QUOTE] =~= dep_entry_json(e.0, e.1)) by {
                    assert("\"".spec_bytes() =~= seq![B_QUOTE]) by {
                        reveal_strlit("\"");
                        assert("\""@ =~= seq!['"']);
                        vstd::string::is_ascii_spec_bytes("\"");
                        assert(is_ascii_chars("\""@));
                        assert("\"".spec_bytes().len() == 1);
                        assert("\"".spec_bytes()[0] == '"' as u8);
                    }
                }
                lemma_deps_json_push(sofar, e);
                assert(sofar.push(e) =~= pairs_view(self.dependencies@).take(i + 1));
                if i > 0 {
                    assert(out@ =~= head + deps_json(pairs_view(self.dependencies@).take(i + 1)));
                } else {
                    assert(sofar.len() == 0);
                    assert(out@ =~= head + deps_json(pairs_view(self.dependencies@).take(i + 1)));
                }
            }
            i += 1;
        }
        proof {
            assert(pairs_view(self.dependencies@).take(self.dependencies@.len() as int)
                =~= pairs_view(self.dependencies@));
        }
        let mut l2 = "},\"engines\":{\"node\":\"".as_bytes_vec();
        out.append(&mut l2);
        let nodeb = self.engines.node.as_str().as_bytes_vec();
        escape_append(&mut out, &nodeb);
        let mut l3 = "\"}}".as_bytes_vec();
        out.append(&mut l3);
        proof {
            assert(out@ =~= manifest_json(self@));
        }
        out
    }
}

/// How an installed package declares its executables: one bare path, under the
/// convention that the binary carries the package's own name, or an explicit
/// mapping from binary name to relative path.
#[derive(Debug, PartialEq, Eq)]
pub enum PackageBinary {
    Single(String),
    Multiple(Vec<(String, String)>),
}

/// The mathematical content of a `bin` declaration.
pub ghost enum PackageBinaryView {
    Single(Seq<char>),
    Multiple(Seq<(Seq<char>, Seq<char>)>),
}

impl View for PackageBinary {
    type V = PackageBinaryView;

    open spec fn view(&self) -> PackageBinaryView {
        match self {
            PackageBinary::Single(p) => PackageBinaryView::Single(p@),
            PackageBinary::Multiple(m) => PackageBinaryView::Multiple(pairs_view(m@)),
        }
    }
}

/// The two fields of an installed package's manifest that matter here.
#[derive(Debug, PartialEq, Eq)]
pub struct InstalledPackage {
    pub name: String,
    pub bin: PackageBinary,
}

/// The mathematical content of an inbound manifest.
pub ghost struct InstalledPackageView {
    pub name: Seq<char>,
    pub bin: PackageBinaryView,
}

impl View for InstalledPackage {
    type V = InstalledPackageView;

    open spec fn view(&self) -> InstalledPackageView {
        InstalledPackageView { name: self.name@, bin: self.bin@ }
    }
}

/// The uniform mapping a `bin` declaration denotes: a bare path maps the
/// package's own name to it; a mapping stands as declared.
pub open spec fn spec_binaries(p: InstalledPackageView) -> Seq<(Seq<char>, Seq<char>)> {
    match p.bin {
        PackageBinaryView::Single(path) => seq![(p.name, path)],
        PackageBinaryView::Multiple(m) => m,
    }
}

impl InstalledPackage {
    /// Normalizes the declaration into one uniform mapping from binary name to
    /// relative path.
    pub fn binaries(self) -> (r: Vec<(String, String)>)
        ensures
            pairs_view(r@) == spec_binaries(self@),
    {
        match self.bin {
            PackageBinary::Single(path) => {
                let mut out: Vec<(String, String)> = Vec::new();
                out.push((self.name, path));
                proof {
                    assert(pairs_view(out@) =~= spec_binaries(self@));
                }
                out
            },
            PackageBinary::Multiple(m) => {
                proof {
                    assert(pairs_view(m@) =~= spec_binaries(self@));
                }
                m
            },
        }
    }
}

/// A package name transformed into a single path segment: slashes become a
/// double underscore, at-signs are dropped, everything else stays.
pub open spec fn sanitized(s: Seq<char>) -> Seq<char>
    decreases s.len(),
{
    if s.len() == 0 {
        Seq::empty()
    } else if s[0] == '/' {
        "__"@ + sanitized(s.drop_first())
    } else if s[0] == '@' {
        sanitized(s.drop_first())
    } else {
        seq![s[0]] + sanitized(s.drop_first())
    }
}

/// What one more character adds to the transform.
pub open spec fn sanitized_unit(c: char) -> Seq<char> {
    if c == '/' {
        "__"@
    } else if c == '@' {
        Seq::empty()
    } else {
        seq![c]
    }
}

/// The transform grows at the back as its input does.
proof fn lemma_sanitized_push(s: Seq<char>, c: char)
    ensures
        sanitized(s.push(c)) == sanitized(s) + sanitized_unit(c),
    decreases s.len(),
{
    let whole = s.push(c);
    if s.len() == 0 {
        assert(whole[0] == c);
        assert(whole.drop_first() =~= Seq::<char>::empty());
        assert(sanitized(whole.drop_first()) == Seq::<char>::empty());
        if c == '/' {
            assert(sanitized(whole) =~= "__"@);
        } else if c == '@' {
            assert(sanitized(whole) =~= Seq::<char>::empty());
        } else {
            assert(sanitized(whole) =~= seq![c]);
        }
        assert(sanitized(s) + sanitized_unit(c) =~= sanitized_unit(c));
    } else {
        assert(whole[0] == s[0]);
        assert(whole.drop_first() =~= s.drop_first().push(c));
        lemma_sanitized_push(s.drop_first(), c);
        assert(sanitized(s.push(c)) =~= sanitized(s) + sanitized_unit(c)) by {
            if s[0] == '/' {
                assert("__"@ + (sanitized(s.drop_first()) + sanitized_unit(c)) =~= ("__"@
                    + sanitized(s.drop_first())) + sanitized_unit(c));
            } else if s[0] == '@' {
            } else {
                assert(seq![s[0]] + (sanitized(s.drop_first()) + sanitized_unit(c)) =~= (seq![
                    s[0],
                ] + sanitized(s.drop_first())) + sanitized_unit(c));
            }
        }
    }
}

/// Applies the path-segment transform to a package name.
pub fn sanitize_x(s: &str) -> (r: String)
    ensures
        r@ == sanitized(s@),
{
    let len = s.unicode_len();
    let mut out = String::new();
    let mut i: usize = 0;
    proof {
        assert(s@.take(0) =~= Seq::<char>::empty());
    }
    while i < len
        invariant
            i <= len,
            len == s@.len(),
            out@ == sanitized(s@.take(i as int)),
        decreases len - i,
    {
        let c = s.get_char(i);
        if c == '/' {
            out.append("__");
        } else if c == '@' {
        } else {
            let piece = s.substring_char(i, i + 1);
            proof {
                assert(piece@ =~= seq![s@[i as int]]);
            }
            out.append(piece);
        }
        proof {
            lemma_sanitized_push(s@.take(i as int), s@[i as int]);
            assert(s@.take(i as int).push(s@[i as int]) =~= s@.take(i + 1));
            if c == '@' {
                assert(out@ =~= sanitized(s@.take(i as int)) + sanitized_unit(c));
            }
        }
        i += 1;
    }
    proof {
        assert(s@.take(len as int) =~= s@);
    }
    out
}

/// Builds the manifest to write into the stage for a requested package: a
/// synthetic single-segment name, the package as the sole dependency at the
/// requested version, and the active runtime version under `engines`.
pub fn package_metadata_for_requested_package(
    dependency: &str,
    version: &str,
    current_node_version: &str,
) -> (r: PackageRoot)
    ensures
        r@.name == sanitized(dependency@) + "_global_installation"@,
        r@.dependencies == seq![(dependency@, version@)],
        r@.engines_node == current_node_version@,
{
    let mut name = sanitize_x(dependency);
    name.append("_global_installation");
    let mut deps: Vec<(String, String)> = Vec::new();
    deps.push((dependency.to_owned(), version.to_owned()));
    proof {
        assert(pairs_view(deps@) =~= seq![(dependency@, version@)]);
    }
    PackageRoot {
        name,
        dependencies: deps,
        engines: PackageEngines { node: current_node_version.to_owned() },
    }
}

/// Keys strictly ascending, hence pairwise distinct.
pub open spec fn sorted_distinct_keys(m: Seq<(Seq<char>, Seq<char>)>) -> bool {
    forall|i: int, j: int| 0 <= i < j < m.len() ==> lex_lt(#[trigger] m[i].0, #[trigger] m[j].0)
}

/// All keys pairwise distinct.
pub open spec fn distinct_keys(m: Seq<(Seq<char>, Seq<char>)>) -> bool {
    forall|i: int, j: int| 0 <= i < j < m.len() ==> (#[trigger] m[i].0) != (#[trigger] m[j].0)
}

/// What the serde_json extraction recovers from an installed package's own
/// manifest text: its `name` and its `bin` in either accepted shape, or
/// nothing where the text is not JSON or has neither shape.  The result is a
/// function of the text alone.
pub uninterp spec fn manifest_of(s: Seq<char>) -> Option<InstalledPackageView>;

/// Relies on serde_json (from_str, Value::get, Value::as_str, Value::as_object
/// and Map iteration): parses the text and reads its `name` string and its
/// `bin` field, a bare string or an object whose values are all strings.  All
/// of these are functions of the text alone.  With this crate's default map, a
/// BTreeMap ordered by the key's bytes, object iteration comes strictly
/// ascending in key order, and byte order on UTF-8 agrees with scalar-value
/// order, so a mapping comes back with strictly ascending keys.
#[verifier::external_body]
fn extract_manifest(text: &str) -> (r: Option<InstalledPackage>)
    ensures
        (match r {
            Some(p) => manifest_of(text@) == Some(p@),
            None => manifest_of(text@) is None,
        }),
        r matches Some(p) ==> (p@.bin matches PackageBinaryView::Multiple(m)
            ==> sorted_distinct_keys(m)),
{
    let v: serde_json::Value = serde_json::from_str(text).ok()?;
    let name = v.get("name")?.as_str()?.to_string();
    let bin = v.get("bin")?;
    if let Some(p) = bin.as_str() {
        return Some(InstalledPackage { name, bin: PackageBinary::Single(p.to_string()) });
    }
    let m: Option<Vec<(String, String)>> = bin
        .as_object()?
        .iter()
        .map(|(k, val)| Some((k.clone(), val.as_str()?.to_string())))
        .collect();
    Some(InstalledPackage { name, bin: PackageBinary::Multiple(m?) })
}

/// Reads the two relevant fields out of an installed package's own manifest:
/// its `name`, and its `bin` in either accepted shape.  Exactly the texts the
/// extraction understands yield a package, namely the one the extraction
/// recovers; and the declared binary names of a returned package are pairwise
/// distinct.
pub fn read_installed_manifest(text: &str) -> (r: Option<InstalledPackage>)
    ensures
        (match r {
            Some(p) => manifest_of(text@) == Some(p@) && distinct_keys(spec_binaries(p@)),
            None => manifest_of(text@) is None,
        }),
{
    let p = match extract_manifest(text) {
        Some(p) => p,
        None => {
            return None;
        },
    };
    proof {
        match p@.bin {
            PackageBinaryView::Single(_) => {
                assert(spec_binaries(p@).len() == 1);
            },
            PackageBinaryView::Multiple(m) => {
                assert forall|i: int, j: int| 0 <= i < j < m.len() implies (#[trigger] m[i].0) != (
                #[trigger] m[j].0) by {
                    assert(lex_lt(m[i].0, m[j].0));
                }
            },
        }
    }
    Some(p)
}

} // verus!
