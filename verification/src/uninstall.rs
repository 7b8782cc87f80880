//! Uninstallation: from the scanned inventory, decide exactly which shims and
//! which installation directory have to go for a given package.

use vstd::prelude::*;
use vstd::string::*;

use crate::manifest::sanitized;
use crate::manifest::sanitize_x;
use crate::scan::views_of;
use crate::storage::{MetadataV1, MetadataView};
use crate::text::{path_join, path_join_x, str_eq};

verus! {

/// What uninstalling one package removes: the shim files of its binaries, and
/// its installation directory.
pub struct UninstallPlan {
    pub binary_paths: Vec<String>,
    pub package_dir: String,
}

/// The views of a sequence of strings.
pub open spec fn strs_view(s: Seq<String>) -> Seq<Seq<char>> {
    s.map_values(|x: String| x@)
}

/// The shim paths to remove for a package: one per inventory record whose
/// package name matches, in inventory order.
pub open spec fn removal_paths(rs: Seq<MetadataView>, pkg: Seq<char>, bin: Seq<char>) -> Seq<
    Seq<char>,
>
    decreases rs.len(),
{
    if rs.len() == 0 {
        Seq::empty()
    } else if rs[0].package_name == pkg {
        seq![path_join(bin, rs[0].binary_name)] + removal_paths(rs.drop_first(), pkg, bin)
    } else {
        removal_paths(rs.drop_first(), pkg, bin)
    }
}

/// Uninstallation is exact: every binary the package installed is on the
/// removal list, and everything on the removal list is the shim path of one of
/// the package's own binaries.
pub proof fn lemma_uninstall_exact(rs: Seq<MetadataView>, pkg: Seq<char>, bin: Seq<char>)
    ensures
        forall|i: int|
            0 <= i < rs.len() && (#[trigger] rs[i]).package_name == pkg ==> removal_paths(
                rs,
                pkg,
                bin,
            ).contains(path_join(bin, rs[i].binary_name)),
        forall|p: Seq<char>|
            removal_paths(rs, pkg, bin).contains(p) ==> exists|j: int|
                0 <= j < rs.len() && (#[trigger] rs[j]).package_name == pkg && p == path_join(
                    bin,
                    rs[j].binary_name,
                ),
    decreases rs.len(),
{
    if rs.len() > 0 {
        let rest = rs.drop_first();
        lemma_uninstall_exact(rest, pkg, bin);
        let whole = removal_paths(rs, pkg, bin);
        let tail = removal_paths(rest, pkg, bin);
        assert forall|i: int|
            0 <= i < rs.len() && (#[trigger] rs[i]).package_name == pkg implies whole.contains(
            path_join(bin, rs[i].binary_name),
        ) by {
            if i == 0 {
                assert(whole[0] == path_join(bin, rs[0].binary_name));
            } else {
                assert(rest[i - 1] == rs[i]);
                assert(tail.contains(path_join(bin, rest[i - 1].binary_name)));
                let k = choose|k: int|
                    0 <= k < tail.len() && tail[k] == path_join(bin, rest[i - 1].binary_name);
                if rs[0].package_name == pkg {
                    assert(whole[k + 1] == tail[k]);
                } else {
                    assert(whole[k] == tail[k]);
                }
            }
        }
        assert forall|p: Seq<char>| whole.contains(p) implies exists|j: int|
            0 <= j < rs.len() && (#[trigger] rs[j]).package_name == pkg && p == path_join(
                bin,
                rs[j].binary_name,
            ) by {
            let k = choose|k: int| 0 <= k < whole.len() && whole[k] == p;
            if rs[0].package_name == pkg {
                if k == 0 {
                    assert(rs[0].package_name == pkg && p == path_join(bin, rs[0].binary_name));
                } else {
                    assert(whole[k] == tail[k - 1]);
                    assert(tail.contains(p));
                    let j = choose|j: int|
                        0 <= j < rest.len() && (#[trigger] rest[j]).package_name == pkg && p
                            == path_join(bin, rest[j].binary_name);
                    assert(rs[j + 1] == rest[j]);
                }
            } else {
                assert(whole[k] == tail[k]);
                assert(tail.contains(p));
                let j = choose|j: int|
                    0 <= j < rest.len() && (#[trigger] rest[j]).package_name == pkg && p
                        == path_join(bin, rest[j].binary_name);
                assert(rs[j + 1] == rest[j]);
            }
        }
    }
}

/// Plans an uninstallation from the scanned inventory: the shim paths of
/// exactly the records naming this package, and the package's installation
/// directory.
pub fn uninstall_plan(
    records: &Vec<MetadataV1>,
    package_name: &str,
    bin_dir: &str,
    installations_dir: &str,
) -> (r: UninstallPlan)
    ensures
        strs_view(r.binary_paths@) == removal_paths(views_of(records@), package_name@, bin_dir@),
        r.package_dir@ == path_join(installations_dir@, sanitized(package_name@)),
{
    let ghost rv = views_of(records@);
    let mut paths: Vec<String> = Vec::new();
    let mut i: usize = 0;
    proof {
        assert(rv.skip(0) =~= rv);
        assert(strs_view(paths@) =~= Seq::<Seq<char>>::empty());
        assert(Seq::<Seq<char>>::empty() + removal_paths(rv, package_name@, bin_dir@)
            =~= removal_paths(rv, package_name@, bin_dir@));
    }
    while i < records.len()
        invariant
            i <= records@.len(),
            rv == views_of(records@),
            rv.len() == records@.len(),
            removal_paths(rv, package_name@, bin_dir@) == strs_view(paths@) + removal_paths(
                rv.skip(i as int),
                package_name@,
                bin_dir@,
            ),
        decreases records@.len() - i,
    {
        let ghost pre = paths@;
        let ghost tail = rv.skip(i as int);
        proof {
            assert(tail[0] == rv[i as int]);
            assert(tail.drop_first() =~= rv.skip(i + 1));
            assert(rv[i as int] == records@[i as int]@);
        }
        if str_eq(records[i].package_name.as_str(), package_name) {
            let p = path_join_x(bin_dir, records[i].binary_name.as_str());
            paths.push(p);
            proof {
                assert(strs_view(paths@) =~= strs_view(pre).push(
                    path_join(bin_dir@, rv[i as int].binary_name),
                ));
                assert(strs_view(pre) + (seq![path_join(bin_dir@, tail[0].binary_name)]
                    + removal_paths(tail.drop_first(), package_name@, bin_dir@)) =~= strs_view(
                    paths@,
                ) + removal_paths(rv.skip(i + 1), package_name@, bin_dir@));
            }
        }
        i += 1;
    }
    proof {
        assert(rv.skip(records@.len() as int).len() == 0);
        assert(strs_view(paths@) + removal_paths(
            rv.skip(records@.len() as int),
            package_name@,
            bin_dir@,
        ) =~= strs_view(paths@));
    }
    let package_dir = path_join_x(installations_dir, sanitize_x(package_name).as_str());
    UninstallPlan { binary_paths: paths, package_dir }
}

} // verus!
