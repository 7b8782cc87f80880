//! The shim generator: turns a metadata record and the relevant paths into the
//! text of an executable launcher script.
//!
//! The script's second line is a shell comment carrying the encoded record:
//! the one place the record lives.  The law at the bottom says that scanning
//! the generated text finds exactly the blob that was embedded, so inventory
//! reconstruction from the script alone always works.

use vstd::prelude::*;
use vstd::string::*;

use crate::scan::{meta_prefix, spec_meta_blob};
use crate::storage::{b64_of, json_of, Metadata, MetadataView};
use crate::text::{
    find_char, has_prefix, lemma_find_char_at, lemma_rfind_char, rfind_char, rfind_char_x,
};

verus! {

/// One shim to generate: the record it carries, where the script goes, the
/// real executable it launches, and the runtime binary whose directory joins
/// the search path.
pub struct Binary {
    pub metadata: Metadata,
    pub symlink_path: String,
    pub target_path: String,
    pub node_binary_path: String,
}

/// The mathematical content of a shim request.
pub ghost struct BinaryView {
    pub metadata: MetadataView,
    pub symlink_path: Seq<char>,
    pub target_path: Seq<char>,
    pub node_binary_path: Seq<char>,
}

impl View for Binary {
    type V = BinaryView;

    open spec fn view(&self) -> BinaryView {
        BinaryView {
            metadata: self.metadata@,
            symlink_path: self.symlink_path@,
            target_path: self.target_path@,
            node_binary_path: self.node_binary_path@,
        }
    }
}

/// The directory part of a path: everything before the last slash, or the
/// root for a direct child of it.
pub open spec fn parent_dir(p: Seq<char>) -> Seq<char>
    recommends
        rfind_char(p, '/') is Some,
{
    match rfind_char(p, '/') {
        Some(k) => if k == 0 {
            "/"@
        } else {
            p.subrange(0, k)
        },
        None => p,
    }
}

/// The full text of a launcher script: a shebang, the metadata comment line,
/// a line that puts the runtime's directory on the search path, and an exec
/// line that forwards all arguments to the real executable.
pub open spec fn script_text(blob: Seq<char>, node_dir: Seq<char>, target: Seq<char>) -> Seq<
    char,
> {
    "#!/bin/sh\n# metadata: "@ + blob + "\nexport PATH=\""@ + node_dir + "\":$PATH\n\""@ + target
        + "\" \"$@\"\n"@
}

impl Binary {
    /// Packs a shim request.
    pub fn new(
        metadata: Metadata,
        symlink_path: String,
        target_path: String,
        node_path: String,
    ) -> (r: Binary)
        ensures
            r@.metadata == metadata@,
            r@.symlink_path == symlink_path@,
            r@.target_path == target_path@,
            r@.node_binary_path == node_path@,
    {
        Binary { metadata, symlink_path, target_path, node_binary_path: node_path }
    }

    /// The script's text.  The runtime path must have a directory part, which
    /// an absolute, canonicalized path always has.  The second clause closes
    /// the loop with the scanner: the generated text carries its record's
    /// encoding on the metadata line, so decoding the script recovers exactly
    /// the record that went in.
    pub fn script_src(&self) -> (r: String)
        requires
            rfind_char(self@.node_binary_path, '/') is Some,
        ensures
            r@ == script_text(
                b64_of(json_of(self@.metadata)),
                parent_dir(self@.node_binary_path),
                self@.target_path,
            ),
            spec_meta_blob(r@) == Some(b64_of(json_of(self@.metadata))),
    {
        let blob = self.metadata.encode();
        proof {
            lemma_script_carries_metadata(
                blob@,
                parent_dir(self@.node_binary_path),
                self@.target_path,
            );
        }
        let k = match rfind_char_x(self.node_binary_path.as_str(), '/') {
            Some(k) => k,
            None => {
                proof {
                    assert(false);
                }
                0
            },
        };
        proof {
            lemma_rfind_char(self.node_binary_path@, '/');
        }
        let node_dir: String = if k == 0 {
            "/".to_owned()
        } else {
            self.node_binary_path.as_str().substring_char(0, k).to_owned()
        };
        let mut out = "#!/bin/sh\n# metadata: ".to_owned();
        out.append(blob.as_str());
        out.append("\nexport PATH=\"");
        out.append(node_dir.as_str());
        out.append("\":$PATH\n\"");
        out.append(self.target_path.as_str());
        out.append("\" \"$@\"\n");
        proof {
            assert(out@ =~= script_text(
                b64_of(json_of(self@.metadata)),
                parent_dir(self@.node_binary_path),
                self@.target_path,
            ));
        }
        out
    }
}

/// The single source of truth holds: scanning a generated script finds exactly
/// the blob that was embedded in it, whatever the paths around it hold, as
/// long as the blob itself stays on one line.
pub proof fn lemma_script_carries_metadata(blob: Seq<char>, node_dir: Seq<char>, target: Seq<char>)
    requires
        forall|i: int| 0 <= i < blob.len() ==> blob[i] != '\n',
    ensures
        spec_meta_blob(script_text(blob, node_dir, target)) == Some(blob),
{
    let s = script_text(blob, node_dir, target);
    let head = "#!/bin/sh\n# metadata: "@;
    let tail = "\nexport PATH=\""@ + node_dir + "\":$PATH\n\""@ + target + "\" \"$@\"\n"@;
    reveal_strlit("#!/bin/sh\n# metadata: ");
    reveal_strlit("# metadata: ");
    reveal_strlit("\nexport PATH=\"");
    reveal_strlit("#!/bin/sh");
    assert(head.len() == 22);
    assert(forall|m: int| 0 <= m < s.len() ==> s[m] == (head + (blob + tail))[m]) by {
        assert(s =~= head + (blob + tail));
    }
    // The first newline closes the shebang line.
    assert(forall|m: int| 0 <= m < 9 ==> s[m] == head[m] && head[m] != '\n');
    assert(s[9] == head[9] && head[9] == '\n');
    lemma_find_char_at(s, '\n', 0, 9);
    let line1 = s.subrange(0, 9);
    assert(!has_prefix(line1, meta_prefix())) by {
        assert(meta_prefix().len() == 12);
        assert(line1.len() == 9);
    }
    // The metadata line: from position 10 up to the tail's first character.
    let s2 = s.skip(10);
    assert(spec_meta_blob(s) == spec_meta_blob(s2));
    assert(s2 =~= meta_prefix() + blob + tail) by {
        assert(forall|m: int| 0 <= m < s2.len() ==> s2[m] == s[m + 10]);
        assert(forall|m: int| 0 <= m < 12 ==> head[m + 10] == meta_prefix()[m]);
    }
    let nl2 = 12 + blob.len() as int;
    assert(forall|m: int| 0 <= m < 12 ==> s2[m] == meta_prefix()[m] && s2[m] != '\n');
    assert(forall|m: int| 12 <= m < nl2 ==> s2[m] == blob[m - 12] && s2[m] != '\n');
    assert(s2[nl2] == tail[0] && tail[0] == '\n');
    lemma_find_char_at(s2, '\n', 0, nl2);
    let line2 = s2.subrange(0, nl2);
    assert(has_prefix(line2, meta_prefix())) by {
        assert(line2.subrange(0, 12) =~= meta_prefix());
    }
    assert(line2.skip(12) =~= blob);
}

} // verus!
