//! The inventory scanner: rebuilding the set of installed binaries from the
//! bin directory's contents alone.
//!
//! Every file's text is inspected for the metadata comment line; files without
//! one, or with an undecodable one, are not shims and are skipped, never an
//! error, since the bin directory is a shared namespace.  The records found
//! come back sorted ascending by binary name, so listing and uninstall
//! matching are deterministic.

use vstd::multiset::Multiset;
use vstd::prelude::*;
use vstd::seq_lib::lemma_multiset_commutative;
use vstd::string::*;

use crate::storage::{
    b64_of, json_of, spec_decode, LatestMetadata, Metadata, MetadataV1, MetadataView,
};
use crate::text::{
    find_char, find_char_x, has_prefix, lemma_find_char, lemma_lex_total, lemma_lex_trans, lex_le,
    str_has_prefix, str_lex_le,
};

verus! {

/// The comment marker that introduces the metadata line of a shim script.
pub open spec fn meta_prefix() -> Seq<char> {
    "# metadata: "@
}

/// The transport blob carried by a script: the remainder of the first line
/// that opens with the metadata marker, if any line does.
pub open spec fn spec_meta_blob(text: Seq<char>) -> Option<Seq<char>>
    decreases text.len(),
{
    let line = match find_char(text, '\n', 0) {
        Some(k) => text.subrange(0, k),
        None => text,
    };
    if has_prefix(line, meta_prefix()) {
        Some(line.skip(meta_prefix().len() as int))
    } else {
        match find_char(text, '\n', 0) {
            Some(k) => {
                proof {
                    lemma_find_char(text, '\n', 0);
                }
                spec_meta_blob(text.skip(k + 1))
            },
            None => None,
        }
    }
}

/// Extracts the transport blob from a script's text, line by line.
fn meta_blob_x(text: &str) -> (r: Option<String>)
    ensures
        match r {
            Some(b) => spec_meta_blob(text@) == Some(b@),
            None => spec_meta_blob(text@) is None,
        },
    decreases text@.len(),
{
    let len = text.unicode_len();
    let nl = find_char_x(text, '\n', 0);
    proof {
        lemma_find_char(text@, '\n', 0);
    }
    let line_end: usize = match nl {
        Some(k) => k,
        None => len,
    };
    let line = text.substring_char(0, line_end);
    proof {
        if nl is None {
            assert(text@.subrange(0, len as int) =~= text@);
        }
    }
    if str_has_prefix(line, "# metadata: ") {
        let plen = "# metadata: ".unicode_len();
        proof {
            assert(line@.subrange(plen as int, line_end as int) =~= line@.skip(plen as int));
        }
        let blob = line.substring_char(plen, line_end);
        Some(blob.to_owned())
    } else {
        match nl {
            Some(k) => {
                proof {
                    assert(text@.subrange(k + 1, len as int) =~= text@.skip(k + 1));
                }
                meta_blob_x(text.substring_char(k + 1, len))
            },
            None => None,
        }
    }
}

/// The record a whole script's text denotes: the blob on its metadata line,
/// decoded.
pub open spec fn spec_from_script(text: Seq<char>) -> Option<MetadataView> {
    match spec_meta_blob(text) {
        Some(blob) => spec_decode(blob),
        None => None,
    }
}

impl Metadata {
    /// Recovers the record embedded in a script's text; a text with no
    /// metadata line, or an undecodable one, is not a shim and yields nothing.
    /// A script whose metadata line carries an encoded record always yields
    /// that record back: the final clause.
    pub fn from_script_source(text: &str) -> (r: Option<Metadata>)
        ensures
            match r {
                Some(m) => spec_from_script(text@) == Some(m@),
                None => spec_from_script(text@) is None,
            },
            forall|mv: MetadataView|
                spec_meta_blob(text@) == Some(b64_of(json_of(mv))) ==> r is Some && r.unwrap()@
                    == mv,
    {
        let blob = match meta_blob_x(text) {
            Some(b) => b,
            None => {
                return None;
            },
        };
        match Metadata::decode(blob.as_str()) {
            Ok(m) => Some(m),
            Err(_) => None,
        }
    }
}

/// The views of a sequence of records.
pub open spec fn views_of(s: Seq<MetadataV1>) -> Seq<MetadataView> {
    s.map_values(|m: MetadataV1| m@)
}

/// Sorted ascending by binary name.
pub open spec fn sorted_records(s: Seq<MetadataView>) -> bool {
    forall|i: int, j: int|
        0 <= i < j < s.len() ==> lex_le(#[trigger] s[i].binary_name, #[trigger] s[j].binary_name)
}

/// The records that a sequence of file texts carries, in file order: each
/// decodable shim contributes its record, everything else is skipped.
pub open spec fn scan_views(files: Seq<Seq<char>>) -> Seq<MetadataView>
    decreases files.len(),
{
    if files.len() == 0 {
        Seq::empty()
    } else {
        match spec_from_script(files[0]) {
            Some(mv) => seq![mv] + scan_views(files.drop_first()),
            None => scan_views(files.drop_first()),
        }
    }
}

/// Inserting anywhere adds one occurrence to the multiset.
proof fn lemma_insert_multiset(s: Seq<MetadataView>, j: int, x: MetadataView)
    requires
        0 <= j <= s.len(),
    ensures
        s.insert(j, x).to_multiset() == s.to_multiset().insert(x),
{
    broadcast use vstd::seq_lib::group_to_multiset_ensures;

    let a = s.subrange(0, j);
    let b = s.subrange(j, s.len() as int);
    assert(s.insert(j, x) == a.push(x) + b);
    lemma_multiset_commutative(a.push(x), b);
    assert(s =~= a + b);
    lemma_multiset_commutative(a, b);
    assert(a.push(x).to_multiset() =~= a.to_multiset().insert(x));
    assert(a.to_multiset().insert(x).add(b.to_multiset()) =~= a.to_multiset().add(
        b.to_multiset(),
    ).insert(x));
}

/// Sorts records ascending by binary name, keeping exactly the same records.
fn sort_records(v: Vec<MetadataV1>) -> (r: Vec<MetadataV1>)
    ensures
        sorted_records(views_of(r@)),
        views_of(r@).to_multiset() == views_of(v@).to_multiset(),
{
    broadcast use vstd::seq_lib::group_to_multiset_ensures;

    let ghost orig = views_of(v@);
    let mut rest = v;
    let mut out: Vec<MetadataV1> = Vec::new();
    proof {
        assert(views_of(out@) =~= Seq::<MetadataView>::empty());
        assert(views_of(out@).to_multiset().add(views_of(rest@).to_multiset()) =~= orig.to_multiset());
    }
    while rest.len() > 0
        invariant
            sorted_records(views_of(out@)),
            views_of(out@).to_multiset().add(views_of(rest@).to_multiset()) == orig.to_multiset(),
        decreases rest@.len(),
    {
        let ghost pre_rest = rest@;
        let x = match rest.pop() {
            Some(x) => x,
            None => {
                proof {
                    assert(false);
                }
                continue
            },
        };
        proof {
            views_of(pre_rest).to_multiset_ensures();
            assert(views_of(pre_rest)[pre_rest.len() - 1] == x@);
            assert(views_of(pre_rest).contains(x@));
            assert(pre_rest.drop_last() == pre_rest.remove(pre_rest.len() - 1));
            assert(views_of(pre_rest.remove(pre_rest.len() - 1)) =~= views_of(
                pre_rest,
            ).remove(pre_rest.len() - 1));
            assert(views_of(rest@).to_multiset() =~= views_of(pre_rest).to_multiset().remove(x@));
        }
        let mut j: usize = 0;
        while j < out.len() && str_lex_le(out[j].binary_name.as_str(), x.binary_name.as_str())
            invariant
                j <= out@.len(),
                forall|m: int|
                    0 <= m < j ==> lex_le(#[trigger] views_of(out@)[m].binary_name, x@.binary_name),
            decreases out@.len() - j,
        {
            j += 1;
        }
        proof {
            if j < out@.len() {
                lemma_lex_total(views_of(out@)[j as int].binary_name, x@.binary_name);
            }
            let s2 = views_of(out@).insert(j as int, x@);
            let old_views = views_of(out@);
            assert(forall|m: int| 0 <= m < j ==> s2[m] == old_views[m]);
            assert(s2[j as int] == x@);
            assert(forall|m: int| j < m < s2.len() ==> s2[m] == old_views[m - 1]);
            assert forall|i1: int, i2: int| 0 <= i1 < i2 < s2.len() implies lex_le(
                #[trigger] s2[i1].binary_name,
                #[trigger] s2[i2].binary_name,
            ) by {
                if i2 > j {
                    assert(lex_le(x@.binary_name, old_views[i2 - 1].binary_name)) by {
                        if i2 - 1 > j {
                            assert(lex_le(
                                old_views[j as int].binary_name,
                                old_views[i2 - 1].binary_name,
                            ));
                            lemma_lex_trans(
                                x@.binary_name,
                                old_views[j as int].binary_name,
                                old_views[i2 - 1].binary_name,
                            );
                        }
                    }
                    if i1 < j {
                        lemma_lex_trans(
                            old_views[i1].binary_name,
                            x@.binary_name,
                            old_views[i2 - 1].binary_name,
                        );
                    }
                }
            }
            lemma_insert_multiset(views_of(out@), j as int, x@);
            assert(views_of(out@.insert(j as int, x)) =~= views_of(out@).insert(j as int, x@));
        }
        out.insert(j, x);
        proof {
            assert(views_of(out@).to_multiset().add(views_of(rest@).to_multiset())
                =~= orig.to_multiset());
        }
    }
    proof {
        assert(views_of(rest@).to_multiset() =~= Multiset::<MetadataView>::empty()) by {
            assert(views_of(rest@) =~= Seq::<MetadataView>::empty());
        }
        assert(views_of(out@).to_multiset().add(Multiset::<MetadataView>::empty()) =~= views_of(
            out@,
        ).to_multiset());
    }
    out
}

/// The file name a metadata side store uses for a binary: any final extension
/// is replaced by `json`.  A dot that leads the final path segment does not
/// open an extension, so a hidden name keeps its whole stem.
pub open spec fn json_store_name(name: Seq<char>) -> Seq<char> {
    let start: int = (match crate::text::rfind_char(name, '/') {
        Some(j) => j + 1,
        None => 0,
    });
    (match crate::text::rfind_char(name, '.') {
        Some(k) => if k > start {
            name.subrange(0, k)
        } else {
            name
        },
        None => name,
    }) + ".json"@
}

impl Metadata {
    /// Where a metadata side store would keep the record of one binary; kept
    /// for compatibility with layouts that carried one, though the shim itself
    /// is the single source of truth.  The binary's name has its extension, if
    /// it carries one, set to `json`.
    pub fn path_for(binary_name: &str, config: &crate::config::Config) -> (r: String)
        ensures
            r@ == crate::text::path_join(
                crate::text::path_join(config@, "metadata"@),
                json_store_name(binary_name@),
            ),
    {
        let len = binary_name.unicode_len();
        proof {
            crate::text::lemma_rfind_char(binary_name@, '/');
            crate::text::lemma_rfind_char(binary_name@, '.');
        }
        let start: usize = match crate::text::rfind_char_x(binary_name, '/') {
            Some(j) => j + 1,
            None => 0,
        };
        let stem_end: usize = match crate::text::rfind_char_x(binary_name, '.') {
            Some(k) => if k > start {
                k
            } else {
                len
            },
            None => len,
        };
        proof {
            if stem_end == len {
                assert(binary_name@.subrange(0, len as int) =~= binary_name@);
            }
        }
        let mut name = binary_name.substring_char(0, stem_end).to_owned();
        name.append(".json");
        crate::text::path_join_x(config.db_path().as_str(), name.as_str())
    }

    /// Reconstructs the live inventory from the texts of the entries of a bin
    /// directory: every decodable shim's record, sorted ascending by binary
    /// name; files that are not shims are skipped, never an error.
    pub fn read_all(files: &Vec<String>) -> (r: Vec<LatestMetadata>)
        ensures
            sorted_records(views_of(r@)),
            views_of(r@).to_multiset() == scan_views(files.deep_view()).to_multiset(),
    {
        let ghost fv = files.deep_view();
        let mut found: Vec<MetadataV1> = Vec::new();
        let mut i: usize = 0;
        proof {
            assert(fv.skip(0) =~= fv);
            assert(views_of(found@) =~= Seq::<MetadataView>::empty());
            assert(Seq::<MetadataView>::empty() + scan_views(fv) =~= scan_views(fv));
        }
        while i < files.len()
            invariant
                i <= files@.len(),
                fv == files.deep_view(),
                fv.len() == files@.len(),
                forall|k: int| 0 <= k < fv.len() ==> #[trigger] fv[k] == files@[k]@,
                scan_views(fv) == views_of(found@) + scan_views(fv.skip(i as int)),
            decreases files@.len() - i,
        {
            let ghost pre = found@;
            let ghost tail = fv.skip(i as int);
            proof {
                assert(tail[0] == fv[i as int]);
                assert(tail.drop_first() =~= fv.skip(i + 1));
            }
            match Metadata::from_script_source(files[i].as_str()) {
                Some(m) => {
                    let rec = m.latest();
                    found.push(rec);
                    proof {
                        assert(views_of(found@) =~= views_of(pre).push(rec@));
                        assert(scan_views(tail) == seq![rec@] + scan_views(fv.skip(i + 1)));
                        assert(views_of(pre) + scan_views(tail) =~= views_of(pre).push(rec@)
                            + scan_views(fv.skip(i + 1)));
                    }
                },
                None => {
                    proof {
                        assert(scan_views(tail) == scan_views(fv.skip(i + 1)));
                    }
                },
            }
            i += 1;
        }
        proof {
            assert(fv.skip(files@.len() as int).len() == 0);
            assert(views_of(found@) + scan_views(fv.skip(files@.len() as int)) =~= views_of(
                found@,
            ));
        }
        sort_records(found)
    }
}

} // verus!
