//! Character-level helpers for working with `&str` values, together with the
//! spec-level notions (prefixes, searching, whitespace, lexicographic order)
//! that the rest of the library states its contracts over.

use vstd::prelude::*;
use vstd::string::*;

verus! {

/// Compares two strings character by character.
pub fn str_eq(a: &str, b: &str) -> (r: bool)
    ensures
        r == (a@ == b@),
{
    let alen = a.unicode_len();
    let blen = b.unicode_len();
    if alen != blen {
        assert(a@ != b@) by {
            assert(a@.len() != b@.len());
        }
        return false;
    }
    let mut i: usize = 0;
    while i < alen
        invariant
            alen == a@.len(),
            alen == b@.len(),
            i <= alen,
            forall|j: int| 0 <= j < i ==> a@[j] == b@[j],
        decreases alen - i,
    {
        if a.get_char(i) != b.get_char(i) {
            return false;
        }
        i += 1;
    }
    assert(a@ =~= b@);
    true
}

/// Whether `p` is a prefix of `s`.
pub open spec fn has_prefix(s: Seq<char>, p: Seq<char>) -> bool {
    p.len() <= s.len() && s.subrange(0, p.len() as int) == p
}

/// Tests whether `p` is a prefix of `s`.
pub fn str_has_prefix(s: &str, p: &str) -> (r: bool)
    ensures
        r == has_prefix(s@, p@),
{
    let slen = s.unicode_len();
    let plen = p.unicode_len();
    if plen > slen {
        return false;
    }
    let mut i: usize = 0;
    while i < plen
        invariant
            plen <= slen,
            slen == s@.len(),
            plen == p@.len(),
            i <= plen,
            forall|j: int| 0 <= j < i ==> s@[j] == p@[j],
        decreases plen - i,
    {
        if s.get_char(i) != p.get_char(i) {
            proof {
                assert(s@.subrange(0, p@.len() as int)[i as int] == s@[i as int]);
            }
            return false;
        }
        i += 1;
    }
    assert(s@.subrange(0, p@.len() as int) =~= p@);
    true
}

/// The position of the first occurrence of `c` in `s` at or after `from`.
pub open spec fn find_char(s: Seq<char>, c: char, from: int) -> Option<int>
    decreases s.len() - from,
{
    if from < 0 || from >= s.len() {
        None
    } else if s[from] == c {
        Some(from)
    } else {
        find_char(s, c, from + 1)
    }
}

/// What a found position means: it carries `c`, lies in range, and nothing
/// before it (at or after `from`) does.
pub proof fn lemma_find_char(s: Seq<char>, c: char, from: int)
    requires
        0 <= from,
    ensures
        match find_char(s, c, from) {
            Some(k) => from <= k < s.len() && s[k] == c && (forall|m: int|
                from <= m < k ==> s[m] != c),
            None => forall|m: int| from <= m < s.len() ==> s[m] != c,
        },
    decreases s.len() - from,
{
    if from < s.len() && s[from] != c {
        lemma_find_char(s, c, from + 1);
    }
}

/// Finds the first occurrence of `c` in `s` at or after `from`.
pub fn find_char_x(s: &str, c: char, from: usize) -> (r: Option<usize>)
    ensures
        match r {
            Some(k) => find_char(s@, c, from as int) == Some(k as int),
            None => find_char(s@, c, from as int) is None,
        },
{
    let len = s.unicode_len();
    let mut i: usize = from;
    if i > len {
        return None;
    }
    while i < len
        invariant
            from <= i <= len,
            len == s@.len(),
            find_char(s@, c, from as int) == find_char(s@, c, i as int),
        decreases len - i,
    {
        if s.get_char(i) == c {
            return Some(i);
        }
        i += 1;
    }
    None
}

/// The whitespace characters that trimming removes.
pub open spec fn is_space(c: char) -> bool {
    c == ' ' || c == '\t' || c == '\n' || c == '\r'
}

/// Tests whether `c` is whitespace.
pub fn char_is_space(c: char) -> (r: bool)
    ensures
        r == is_space(c),
{
    c == ' ' || c == '\t' || c == '\n' || c == '\r'
}

/// `s` without leading whitespace.
pub open spec fn trim_front(s: Seq<char>) -> Seq<char>
    decreases s.len(),
{
    if s.len() > 0 && is_space(s[0]) {
        trim_front(s.drop_first())
    } else {
        s
    }
}

/// `s` without trailing whitespace.
pub open spec fn trim_back(s: Seq<char>) -> Seq<char>
    decreases s.len(),
{
    if s.len() > 0 && is_space(s[s.len() - 1]) {
        trim_back(s.drop_last())
    } else {
        s
    }
}

/// `s` without leading or trailing whitespace.
pub open spec fn trimmed(s: Seq<char>) -> Seq<char> {
    trim_back(trim_front(s))
}

/// Dropping leading whitespace reaches the first non-space position.
proof fn lemma_trim_front_at(s: Seq<char>, k: int)
    requires
        0 <= k <= s.len(),
        forall|m: int| 0 <= m < k ==> is_space(s[m]),
        k == s.len() || !is_space(s[k as int]),
    ensures
        trim_front(s) == s.subrange(k, s.len() as int),
    decreases k,
{
    if k == 0 {
        assert(trim_front(s) =~= s.subrange(0, s.len() as int)) by {
            assert(s.subrange(0, s.len() as int) =~= s);
        }
    } else {
        let t = s.drop_first();
        assert(is_space(s[0]));
        assert(forall|m: int| 0 <= m < k - 1 ==> t[m] == s[m + 1] && is_space(t[m]));
        lemma_trim_front_at(t, k - 1);
        assert(t.subrange(k - 1, t.len() as int) =~= s.subrange(k, s.len() as int));
    }
}

/// Dropping trailing whitespace reaches the last non-space position.
proof fn lemma_trim_back_at(s: Seq<char>, k: int)
    requires
        0 <= k <= s.len(),
        forall|m: int| k <= m < s.len() ==> is_space(s[m]),
        k == 0 || !is_space(s[k - 1]),
    ensures
        trim_back(s) == s.subrange(0, k),
    decreases s.len(),
{
    if k == s.len() {
        assert(trim_back(s) =~= s.subrange(0, k)) by {
            assert(s.subrange(0, s.len() as int) =~= s);
        }
    } else {
        let t = s.drop_last();
        assert(is_space(s[s.len() - 1]));
        lemma_trim_back_at(t, k);
        assert(t.subrange(0, k) =~= s.subrange(0, k));
    }
}

/// Removes leading and trailing whitespace.
pub fn trim_x(s: &str) -> (r: &str)
    ensures
        r@ == trimmed(s@),
{
    let len = s.unicode_len();
    let mut lo: usize = 0;
    while lo < len && char_is_space(s.get_char(lo))
        invariant
            lo <= len,
            len == s@.len(),
            forall|m: int| 0 <= m < lo ==> is_space(s@[m]),
        decreases len - lo,
    {
        lo += 1;
    }
    proof {
        lemma_trim_front_at(s@, lo as int);
    }
    let mut hi: usize = len;
    while hi > lo && char_is_space(s.get_char(hi - 1))
        invariant
            lo <= hi <= len,
            len == s@.len(),
            forall|m: int| hi <= m < len ==> is_space(s@[m]),
        decreases hi,
    {
        hi -= 1;
    }
    let ghost front = s@.subrange(lo as int, len as int);
    proof {
        assert(forall|m: int| hi - lo <= m < front.len() ==> is_space(front[m]));
        assert(hi > lo ==> front[hi - lo - 1] == s@[hi - 1]);
        lemma_trim_back_at(front, hi - lo);
        assert(front.subrange(0, hi - lo) =~= s@.subrange(lo as int, hi as int));
    }
    s.substring_char(lo, hi)
}

/// Lexicographic order on character sequences, by Unicode scalar value.
pub open spec fn lex_le(a: Seq<char>, b: Seq<char>) -> bool
    decreases a.len(),
{
    if a.len() == 0 {
        true
    } else if b.len() == 0 {
        false
    } else if (a[0] as u32) < (b[0] as u32) {
        true
    } else if (a[0] as u32) > (b[0] as u32) {
        false
    } else {
        lex_le(a.drop_first(), b.drop_first())
    }
}

/// Any two sequences are ordered one way or the other.
pub proof fn lemma_lex_total(a: Seq<char>, b: Seq<char>)
    ensures
        lex_le(a, b) || lex_le(b, a),
    decreases a.len(),
{
    if a.len() > 0 && b.len() > 0 && (a[0] as u32) == (b[0] as u32) {
        lemma_lex_total(a.drop_first(), b.drop_first());
    }
}

/// The order is transitive.
pub proof fn lemma_lex_trans(a: Seq<char>, b: Seq<char>, c: Seq<char>)
    requires
        lex_le(a, b),
        lex_le(b, c),
    ensures
        lex_le(a, c),
    decreases a.len(),
{
    if a.len() > 0 && b.len() > 0 && c.len() > 0 && (a[0] as u32) == (b[0] as u32) && (b[0] as u32)
        == (c[0] as u32) {
        lemma_lex_trans(a.drop_first(), b.drop_first(), c.drop_first());
    }
}

/// Compares two strings in lexicographic order.
pub fn str_lex_le(a: &str, b: &str) -> (r: bool)
    ensures
        r == lex_le(a@, b@),
{
    let alen = a.unicode_len();
    let blen = b.unicode_len();
    let mut i: usize = 0;
    proof {
        assert(a@.skip(0) =~= a@);
        assert(b@.skip(0) =~= b@);
    }
    loop
        invariant
            i <= alen,
            i <= blen,
            alen == a@.len(),
            blen == b@.len(),
            lex_le(a@, b@) == lex_le(a@.skip(i as int), b@.skip(i as int)),
        decreases alen - i,
    {
        if i >= alen {
            assert(a@.skip(i as int).len() == 0);
            return true;
        }
        if i >= blen {
            assert(b@.skip(i as int).len() == 0 && a@.skip(i as int).len() > 0);
            return false;
        }
        let ca = a.get_char(i) as u32;
        let cb = b.get_char(i) as u32;
        proof {
            assert(a@.skip(i as int)[0] == a@[i as int]);
            assert(b@.skip(i as int)[0] == b@[i as int]);
        }
        if ca < cb {
            return true;
        }
        if ca > cb {
            return false;
        }
        proof {
            assert(a@.skip(i as int).drop_first() =~= a@.skip(i + 1));
            assert(b@.skip(i as int).drop_first() =~= b@.skip(i + 1));
        }
        i += 1;
    }
}

/// A character at `k`, with none before it, is the one `find_char` finds.
pub proof fn lemma_find_char_at(s: Seq<char>, c: char, from: int, k: int)
    requires
        0 <= from <= k < s.len(),
        s[k] == c,
        forall|m: int| from <= m < k ==> s[m] != c,
    ensures
        find_char(s, c, from) == Some(k),
    decreases k - from,
{
    if from < k {
        lemma_find_char_at(s, c, from + 1, k);
    }
}

/// Joins a directory and an entry name with a slash.
pub open spec fn path_join(dir: Seq<char>, name: Seq<char>) -> Seq<char> {
    dir + "/"@ + name
}

/// Joins a directory and an entry name with a slash.
pub fn path_join_x(dir: &str, name: &str) -> (r: String)
    ensures
        r@ == path_join(dir@, name@),
{
    let mut out = dir.to_owned();
    out.append("/");
    out.append(name);
    out
}

/// The position of the last occurrence of `c` in `s`.
pub open spec fn rfind_char(s: Seq<char>, c: char) -> Option<int>
    decreases s.len(),
{
    if s.len() == 0 {
        None
    } else if s[s.len() - 1] == c {
        Some(s.len() - 1)
    } else {
        rfind_char(s.drop_last(), c)
    }
}

/// What the last found position means: it carries `c` and nothing after it
/// does.
pub proof fn lemma_rfind_char(s: Seq<char>, c: char)
    ensures
        match rfind_char(s, c) {
            Some(k) => 0 <= k < s.len() && s[k] == c && (forall|m: int|
                k < m < s.len() ==> s[m] != c),
            None => forall|m: int| 0 <= m < s.len() ==> s[m] != c,
        },
    decreases s.len(),
{
    if s.len() > 0 && s[s.len() - 1] != c {
        lemma_rfind_char(s.drop_last(), c);
        assert(forall|m: int| 0 <= m < s.len() - 1 ==> s.drop_last()[m] == s[m]);
    }
}

/// Finds the last occurrence of `c` in `s`.
pub fn rfind_char_x(s: &str, c: char) -> (r: Option<usize>)
    ensures
        match r {
            Some(k) => rfind_char(s@, c) == Some(k as int),
            None => rfind_char(s@, c) is None,
        },
{
    let len = s.unicode_len();
    let mut hi: usize = len;
    proof {
        assert(s@.take(len as int) =~= s@);
    }
    while hi > 0
        invariant
            hi <= len,
            len == s@.len(),
            rfind_char(s@, c) == rfind_char(s@.take(hi as int), c),
        decreases hi,
    {
        proof {
            assert(s@.take(hi as int)[hi - 1] == s@[hi - 1]);
            assert(s@.take(hi as int).drop_last() =~= s@.take(hi - 1));
        }
        if s.get_char(hi - 1) == c {
            return Some(hi - 1);
        }
        hi -= 1;
    }
    proof {
        assert(s@.take(0).len() == 0);
    }
    None
}

/// Strict lexicographic order.
pub open spec fn lex_lt(a: Seq<char>, b: Seq<char>) -> bool {
    lex_le(a, b) && a != b
}

/// Whether the path `p` lies within the directory tree rooted at `root`:
/// it is `root` itself or has `root` plus a slash as a prefix.
pub open spec fn within(p: Seq<char>, root: Seq<char>) -> bool {
    p == root || has_prefix(p, root + "/"@)
}

/// Joining a name under a directory lands within it.
pub proof fn lemma_join_within(dir: Seq<char>, name: Seq<char>)
    ensures
        within(path_join(dir, name), dir),
{
    let p = path_join(dir, name);
    let d = dir + "/"@;
    assert(p.subrange(0, d.len() as int) =~= d);
}

/// Two roots that share a common inhabitant are nested one way or the other.
pub proof fn lemma_within_common(p: Seq<char>, a: Seq<char>, b: Seq<char>)
    requires
        within(p, a),
        within(p, b),
    ensures
        within(a, b) || within(b, a),
{
    reveal_strlit("/");
    if p == a || p == b {
        // Inhabiting a root means lying within it, which is the claim itself.
        assert(within(a, b) || within(b, a));
    } else {
        let ax = a + "/"@;
        let bx = b + "/"@;
        assert(forall|m: int| 0 <= m < ax.len() ==> p[m] == ax[m]) by {
            assert(forall|m: int|
                0 <= m < ax.len() ==> ax[m] == #[trigger] p.subrange(0, ax.len() as int)[m]);
        }
        assert(forall|m: int| 0 <= m < bx.len() ==> p[m] == bx[m]) by {
            assert(forall|m: int|
                0 <= m < bx.len() ==> bx[m] == #[trigger] p.subrange(0, bx.len() as int)[m]);
        }
        if a.len() == b.len() {
            assert forall|m: int| 0 <= m < a.len() implies a[m] == b[m] by {
                assert(p[m] == ax[m]);
                assert(p[m] == bx[m]);
                assert(ax[m] == a[m]);
                assert(bx[m] == b[m]);
            }
            assert(a =~= b);
        } else if a.len() < b.len() {
            // a and a slash sit at the front of b.
            assert(forall|m: int| 0 <= m < ax.len() ==> bx[m] == ax[m]);
            assert(b.subrange(0, ax.len() as int) =~= ax) by {
                assert(forall|m: int| 0 <= m < b.len() ==> bx[m] == b[m]);
            }
            assert(has_prefix(b, ax));
        } else {
            assert(forall|m: int| 0 <= m < bx.len() ==> ax[m] == bx[m]);
            assert(a.subrange(0, bx.len() as int) =~= bx) by {
                assert(forall|m: int| 0 <= m < a.len() ==> ax[m] == a[m]);
            }
            assert(has_prefix(a, bx));
        }
    }
}

/// Distinct names land on distinct paths under one directory.
pub proof fn lemma_path_join_injective(dir: Seq<char>, a: Seq<char>, b: Seq<char>)
    requires
        path_join(dir, a) == path_join(dir, b),
    ensures
        a == b,
{
    reveal_strlit("/");
    let pa = path_join(dir, a);
    let pb = path_join(dir, b);
    assert(pa.len() == dir.len() + 1 + a.len());
    assert(pb.len() == dir.len() + 1 + b.len());
    assert(a.len() == b.len());
    assert forall|m: int| 0 <= m < a.len() implies a[m] == b[m] by {
        assert(pa[dir.len() + 1 + m] == a[m]);
        assert(pb[dir.len() + 1 + m] == b[m]);
    }
    assert(a =~= b);
}

/// Tests whether `p` lies within the tree rooted at `root`.
pub fn within_x(p: &str, root: &str) -> (r: bool)
    ensures
        r == within(p@, root@),
{
    if str_eq(p, root) {
        return true;
    }
    let mut rs = root.to_owned();
    rs.append("/");
    str_has_prefix(p, rs.as_str())
}

} // verus!
