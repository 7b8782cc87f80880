//! Canonical JSON string framing at the byte level.
//!
//! The metadata codec serialises records into a fixed-shape JSON object and
//! parses exactly that canonical shape back.  This module holds the byte-level
//! escaping of string contents (`esc`), a strict parser for an escaped string
//! body (`spec_parse_string` and its executable refinement), and the two
//! central lemmas: parsing inverts escaping, and a successful parse consumed
//! exactly the escaped form of its result.

use vstd::prelude::*;

verus! {

/// `"` as a byte.
pub const B_QUOTE: u8 = 34;

/// `\` as a byte.
pub const B_BACKSLASH: u8 = 92;

/// `u` as a byte.
pub const B_LOWER_U: u8 = 117;

/// `0` as a byte.
pub const B_ZERO: u8 = 48;

/// `}` as a byte.
pub const B_CLOSE_BRACE: u8 = 125;

/// The lowercase hex digit for a value below 16, as a byte.
pub open spec fn hex_digit(n: u8) -> u8
    recommends
        n < 16,
{
    if n < 10 {
        (B_ZERO + n) as u8
    } else {
        (87 + n) as u8
    }
}

/// Whether `d` is a byte that `hex_digit` produces.
pub open spec fn is_hex_digit(d: u8) -> bool {
    (48 <= d <= 57) || (97 <= d <= 102)
}

/// The value of a lowercase hex digit byte.
pub open spec fn hex_val(d: u8) -> u8
    recommends
        is_hex_digit(d),
{
    if d <= 57 {
        (d - 48) as u8
    } else {
        (d - 87) as u8
    }
}

/// The canonical escape of one byte of string content: quotes and backslashes
/// get a two-byte escape, control bytes become `\u00xx`, and everything else
/// (including all bytes of multi-byte UTF-8 sequences) passes through.
pub open spec fn esc_byte(b: u8) -> Seq<u8> {
    if b == B_QUOTE {
        seq![B_BACKSLASH, B_QUOTE]
    } else if b == B_BACKSLASH {
        seq![B_BACKSLASH, B_BACKSLASH]
    } else if b < 32 {
        seq![B_BACKSLASH, B_LOWER_U, B_ZERO, B_ZERO, hex_digit(b / 16), hex_digit(b % 16)]
    } else {
        seq![b]
    }
}

/// The canonical escape of a whole string content.
pub open spec fn esc(s: Seq<u8>) -> Seq<u8>
    decreases s.len(),
{
    if s.len() == 0 {
        Seq::empty()
    } else {
        esc_byte(s[0]) + esc(s.drop_first())
    }
}

/// Escaping distributes over concatenation.
pub proof fn lemma_esc_concat(a: Seq<u8>, b: Seq<u8>)
    ensures
        esc(a + b) == esc(a) + esc(b),
    decreases a.len(),
{
    if a.len() == 0 {
        assert(a + b =~= b);
        assert(esc(a) + esc(b) =~= esc(b));
    } else {
        lemma_esc_concat(a.drop_first(), b);
        assert((a + b).drop_first() =~= a.drop_first() + b);
        assert(esc_byte(a[0]) + (esc(a.drop_first()) + esc(b)) =~= (esc_byte(a[0]) + esc(
            a.drop_first(),
        )) + esc(b));
    }
}

/// Escaping a single byte.
pub proof fn lemma_esc_one(b: u8)
    ensures
        esc(seq![b]) == esc_byte(b),
{
    assert(seq![b].drop_first() =~= Seq::<u8>::empty());
    assert(esc_byte(b) + esc(seq![b].drop_first()) =~= esc_byte(b));
}

/// Parses the body of a canonically escaped string starting at index `i`
/// (just past the opening quote).  Returns the unescaped content and the index
/// just past the closing quote.  Exactly the forms that `esc` produces are
/// accepted, so a raw control byte or a foreign escape fails the parse.
pub open spec fn spec_parse_string(s: Seq<u8>, i: int) -> Option<(Seq<u8>, int)>
    decreases s.len() - i,
{
    if i < 0 || i >= s.len() {
        None
    } else if s[i] == B_QUOTE {
        Some((Seq::empty(), i + 1))
    } else if s[i] == B_BACKSLASH {
        if i + 1 < s.len() && (s[i + 1] == B_QUOTE || s[i + 1] == B_BACKSLASH) {
            match spec_parse_string(s, i + 2) {
                Some((t, j)) => Some((seq![s[i + 1]] + t, j)),
                None => None,
            }
        } else if i + 5 < s.len() && s[i + 1] == B_LOWER_U && s[i + 2] == B_ZERO && s[i + 3]
            == B_ZERO && is_hex_digit(s[i + 4]) && is_hex_digit(s[i + 5]) && hex_val(s[i + 4]) * 16
            + hex_val(s[i + 5]) < 32 {
            match spec_parse_string(s, i + 6) {
                Some((t, j)) => Some(
                    (seq![(hex_val(s[i + 4]) * 16 + hex_val(s[i + 5])) as u8] + t, j),
                ),
                None => None,
            }
        } else {
            None
        }
    } else if s[i] < 32 {
        None
    } else {
        match spec_parse_string(s, i + 1) {
            Some((t, j)) => Some((seq![s[i]] + t, j)),
            None => None,
        }
    }
}

/// Parsing inverts escaping: wherever `s` carries `esc(v)` followed by a
/// closing quote, the parse starting there yields exactly `v` and stops just
/// past that quote.
pub proof fn lemma_parse_esc(s: Seq<u8>, i: int, v: Seq<u8>)
    requires
        0 <= i,
        i + esc(v).len() + 1 <= s.len(),
        s.subrange(i, i + esc(v).len() + 1) == esc(v) + seq![B_QUOTE],
    ensures
        spec_parse_string(s, i) == Some((v, i + esc(v).len() + 1)),
    decreases v.len(),
{
    let piece = s.subrange(i, i + esc(v).len() + 1);
    if v.len() == 0 {
        assert(s[i] == piece[0]);
        assert(piece[0] == B_QUOTE);
        assert(Seq::<u8>::empty() =~= v);
    } else {
        let b = v[0];
        let rest = v.drop_first();
        assert(esc(v) == esc_byte(b) + esc(rest));
        let k = esc_byte(b).len();
        assert(piece =~= esc_byte(b) + (esc(rest) + seq![B_QUOTE]));
        assert(forall|m: int| 0 <= m < piece.len() ==> s[i + m] == #[trigger] piece[m]);
        // The bytes of esc_byte(b) sit at positions i .. i + k.
        assert forall|m: int| 0 <= m < k implies s[i + m] == #[trigger] esc_byte(b)[m] by {
            assert(piece[m] == (esc_byte(b) + (esc(rest) + seq![B_QUOTE]))[m]);
        }
        // The recursive call's slice condition.
        assert forall|m: int| 0 <= m < piece.len() - k implies #[trigger] (esc(rest)
            + seq![B_QUOTE])[m] == s[i + k + m] by {
            assert(piece[k + m] == (esc_byte(b) + (esc(rest) + seq![B_QUOTE]))[k + m]);
        }
        assert(s.subrange(i + k, i + esc(v).len() + 1) =~= esc(rest) + seq![B_QUOTE]);
        lemma_parse_esc(s, i + k, rest);
        if b == B_QUOTE {
            assert(s[i] == B_BACKSLASH && s[i + 1] == B_QUOTE);
            assert(seq![s[i + 1]] + rest =~= v);
        } else if b == B_BACKSLASH {
            assert(s[i] == B_BACKSLASH && s[i + 1] == B_BACKSLASH);
            assert(seq![s[i + 1]] + rest =~= v);
        } else if b < 32 {
            assert(esc_byte(b) =~= seq![
                B_BACKSLASH,
                B_LOWER_U,
                B_ZERO,
                B_ZERO,
                hex_digit(b / 16),
                hex_digit(b % 16),
            ]);
            assert(s[i] == B_BACKSLASH && s[i + 1] == B_LOWER_U && s[i + 2] == B_ZERO && s[i + 3]
                == B_ZERO && s[i + 4] == hex_digit(b / 16) && s[i + 5] == hex_digit(b % 16));
            assert(is_hex_digit(hex_digit(b / 16)) && hex_val(hex_digit(b / 16)) == b / 16);
            assert(is_hex_digit(hex_digit(b % 16)) && hex_val(hex_digit(b % 16)) == b % 16);
            assert((b / 16) * 16 + b % 16 == b) by (nonlinear_arith);
            assert(seq![(hex_val(s[i + 4]) * 16 + hex_val(s[i + 5])) as u8] + rest =~= v);
        } else {
            assert(esc_byte(b) =~= seq![b]);
            assert(s[i] == piece[0]);
            assert(piece[0] == (esc_byte(b) + (esc(rest) + seq![B_QUOTE]))[0]);
            assert(s[i] == b);
            assert(s[i] != B_QUOTE && s[i] != B_BACKSLASH && s[i] >= 32);
            assert(seq![s[i]] + rest =~= v);
        }
    }
}

/// Splices a pointwise-known head and a subrange-known tail into one subrange.
proof fn lemma_glue(s: Seq<u8>, i: int, k: int, j: int, head: Seq<u8>, tail: Seq<u8>)
    requires
        0 <= i,
        i + head.len() == k,
        k <= j <= s.len(),
        forall|m: int| 0 <= m < head.len() ==> s[i + m] == head[m],
        s.subrange(k, j) == tail,
    ensures
        s.subrange(i, j) == head + tail,
{
    assert(forall|m: int| 0 <= m < tail.len() ==> tail[m] == s[k + m]) by {
        assert(forall|m: int|
            0 <= m < tail.len() ==> tail[m] == #[trigger] s.subrange(k, j)[m]);
    }
    assert(s.subrange(i, j) =~= head + tail);
}

/// A successful parse consumed exactly the escaped form of its result,
/// followed by the closing quote.
pub proof fn lemma_parse_sound(s: Seq<u8>, i: int, v: Seq<u8>, j: int)
    requires
        spec_parse_string(s, i) == Some((v, j)),
    ensures
        0 <= i,
        j == i + esc(v).len() + 1,
        j <= s.len(),
        s.subrange(i, j) == esc(v) + seq![B_QUOTE],
    decreases s.len() - i,
{
    if s[i] == B_QUOTE {
        assert(v =~= Seq::<u8>::empty());
        assert(s.subrange(i, j) =~= esc(v) + seq![B_QUOTE]);
    } else if s[i] == B_BACKSLASH {
        if i + 1 < s.len() && (s[i + 1] == B_QUOTE || s[i + 1] == B_BACKSLASH) {
            let (t, j2) = spec_parse_string(s, i + 2).unwrap();
            lemma_parse_sound(s, i + 2, t, j2);
            assert(v == seq![s[i + 1]] + t);
            assert(v[0] == s[i + 1]);
            assert(t =~= v.drop_first());
            assert(esc(v) == esc_byte(v[0]) + esc(t));
            assert(esc_byte(v[0]) =~= seq![B_BACKSLASH, s[i + 1]]);
            lemma_glue(s, i, i + 2, j, esc_byte(v[0]), esc(t) + seq![B_QUOTE]);
            assert(esc_byte(v[0]) + (esc(t) + seq![B_QUOTE]) =~= esc(v) + seq![B_QUOTE]);
        } else {
            let hi = hex_val(s[i + 4]);
            let lo = hex_val(s[i + 5]);
            assert(hi * 16 + lo < 32);
            let b = (hi * 16 + lo) as u8;
            let (t, j2) = spec_parse_string(s, i + 6).unwrap();
            lemma_parse_sound(s, i + 6, t, j2);
            assert(v == seq![b] + t);
            assert(v[0] == b);
            assert(t =~= v.drop_first());
            assert(b < 32);
            assert(b / 16 == hi && b % 16 == lo) by (nonlinear_arith)
                requires
                    hi < 16 && lo < 16 && b == hi * 16 + lo,
            ;
            assert(hex_digit(b / 16) == s[i + 4]);
            assert(hex_digit(b % 16) == s[i + 5]);
            assert(esc(v) == esc_byte(b) + esc(t));
            assert(esc_byte(b) =~= seq![
                B_BACKSLASH,
                B_LOWER_U,
                B_ZERO,
                B_ZERO,
                s[i + 4],
                s[i + 5],
            ]);
            lemma_glue(s, i, i + 6, j, esc_byte(b), esc(t) + seq![B_QUOTE]);
            assert(esc_byte(b) + (esc(t) + seq![B_QUOTE]) =~= esc(v) + seq![B_QUOTE]);
        }
    } else {
        let (t, j2) = spec_parse_string(s, i + 1).unwrap();
        lemma_parse_sound(s, i + 1, t, j2);
        assert(v == seq![s[i]] + t);
        assert(v[0] == s[i]);
        assert(t =~= v.drop_first());
        assert(esc(v) == esc_byte(v[0]) + esc(t));
        assert(esc_byte(v[0]) =~= seq![s[i]]);
        lemma_glue(s, i, i + 1, j, esc_byte(v[0]), esc(t) + seq![B_QUOTE]);
        assert(esc_byte(v[0]) + (esc(t) + seq![B_QUOTE]) =~= esc(v) + seq![B_QUOTE]);
    }
}

} // verus!

use vstd::string::*;

verus! {

/// Whether `lit` occurs in `s` at position `i`.
pub open spec fn match_at(s: Seq<u8>, i: int, lit: Seq<u8>) -> bool {
    0 <= i && i + lit.len() <= s.len() && s.subrange(i, i + lit.len()) == lit
}

/// Stepping over a literal: if the remainder of `s` at `pos` is `lit`
/// followed by `rest`, then `lit` matches there and `rest` is what remains.
pub proof fn lemma_lit_step(s: Seq<u8>, pos: int, lit: Seq<u8>, rest: Seq<u8>)
    requires
        0 <= pos <= s.len(),
        s.subrange(pos, s.len() as int) == lit + rest,
    ensures
        match_at(s, pos, lit),
        s.subrange(pos + lit.len(), s.len() as int) == rest,
{
    let tail = s.subrange(pos, s.len() as int);
    assert(tail.len() == s.len() - pos);
    assert(tail.len() == lit.len() + rest.len());
    assert(forall|m: int| 0 <= m < tail.len() ==> s[pos + m] == #[trigger] tail[m]);
    assert forall|m: int| 0 <= m < lit.len() implies s[pos + m] == #[trigger] lit[m] by {
        assert(tail[m] == (lit + rest)[m]);
    }
    assert(s.subrange(pos, pos + lit.len()) =~= lit);
    assert forall|m: int| 0 <= m < rest.len() implies s[pos + lit.len() + m] == #[trigger] rest[m]
        by {
        assert(tail[lit.len() + m] == (lit + rest)[lit.len() + m]);
    }
    assert(s.subrange(pos + lit.len(), s.len() as int) =~= rest);
}

/// Stepping over an escaped string with its closing quote: if the remainder of
/// `s` at `pos` is `esc(v)` then a quote then `rest`, the parse there yields
/// `v` and `rest` is what remains.
pub proof fn lemma_string_step(s: Seq<u8>, pos: int, v: Seq<u8>, rest: Seq<u8>)
    requires
        0 <= pos <= s.len(),
        s.subrange(pos, s.len() as int) == (esc(v) + seq![B_QUOTE]) + rest,
    ensures
        spec_parse_string(s, pos) == Some((v, pos + esc(v).len() + 1)),
        s.subrange(pos + esc(v).len() + 1, s.len() as int) == rest,
{
    lemma_lit_step(s, pos, esc(v) + seq![B_QUOTE], rest);
    lemma_parse_esc(s, pos, v);
}

/// Two adjacent subranges concatenate.
pub proof fn lemma_sub_cat(s: Seq<u8>, p0: int, p1: int, p2: int, a: Seq<u8>, b: Seq<u8>)
    requires
        0 <= p0 <= p1 <= p2 <= s.len(),
        s.subrange(p0, p1) == a,
        s.subrange(p1, p2) == b,
    ensures
        s.subrange(p0, p2) == a + b,
{
    assert(forall|m: int| 0 <= m < a.len() ==> s[p0 + m] == #[trigger] a[m]) by {
        assert(forall|m: int| 0 <= m < a.len() ==> a[m] == #[trigger] s.subrange(p0, p1)[m]);
    }
    assert(forall|m: int| 0 <= m < b.len() ==> s[p1 + m] == #[trigger] b[m]) by {
        assert(forall|m: int| 0 <= m < b.len() ==> b[m] == #[trigger] s.subrange(p1, p2)[m]);
    }
    assert(s.subrange(p0, p2) =~= a + b);
}

/// The lowercase hex digit for a value below 16.
pub fn hex_digit_x(n: u8) -> (r: u8)
    requires
        n < 16,
    ensures
        r == hex_digit(n),
{
    if n < 10 {
        48 + n
    } else {
        87 + n
    }
}

/// Appends the canonical escape of `s` to `out`.
pub fn escape_append(out: &mut Vec<u8>, s: &Vec<u8>)
    ensures
        final(out)@ == old(out)@ + esc(s@),
{
    let ghost base: Seq<u8> = out@;
    let mut i: usize = 0;
    while i < s.len()
        invariant
            i <= s@.len(),
            out@ == base + esc(s@.subrange(0, i as int)),
        decreases s@.len() - i,
    {
        let b = s[i];
        if b == B_QUOTE {
            out.push(B_BACKSLASH);
            out.push(B_QUOTE);
        } else if b == B_BACKSLASH {
            out.push(B_BACKSLASH);
            out.push(B_BACKSLASH);
        } else if b < 32 {
            out.push(B_BACKSLASH);
            out.push(B_LOWER_U);
            out.push(B_ZERO);
            out.push(B_ZERO);
            out.push(hex_digit_x(b / 16));
            out.push(hex_digit_x(b % 16));
        } else {
            out.push(b);
        }
        proof {
            let pre = s@.subrange(0, i as int);
            lemma_esc_concat(pre, seq![b]);
            lemma_esc_one(b);
            assert(s@.subrange(0, i + 1) =~= pre + seq![b]);
            assert(out@ =~= base + (esc(pre) + esc_byte(b)));
        }
        i += 1;
    }
    assert(s@.subrange(0, s@.len() as int) =~= s@);
}

/// Parses a canonically escaped string body of `s` starting at `i`, just past
/// the opening quote; on success returns the unescaped content and the
/// position just past the closing quote.  Follows `spec_parse_string` exactly.
pub fn parse_string_x(s: &Vec<u8>, i: usize) -> (r: Option<(Vec<u8>, usize)>)
    requires
        i <= s@.len(),
    ensures
        match spec_parse_string(s@, i as int) {
            Some(tj) => r matches Some(p) && p.0@ == tj.0 && p.1 == tj.1,
            None => r is None,
        },
{
    let mut acc: Vec<u8> = Vec::new();
    let mut pos: usize = i;
    loop
        invariant
            i <= pos <= s@.len(),
            spec_parse_string(s@, i as int) == (match spec_parse_string(s@, pos as int) {
                Some(tj) => Some((acc@ + tj.0, tj.1)),
                None => None::<(Seq<u8>, int)>,
            }),
        decreases s@.len() - pos,
    {
        if pos >= s.len() {
            return None;
        }
        let b = s[pos];
        if b == B_QUOTE {
            proof {
                assert(acc@ + Seq::<u8>::empty() =~= acc@);
            }
            return Some((acc, pos + 1));
        } else if b == B_BACKSLASH {
            if pos + 1 < s.len() && (s[pos + 1] == B_QUOTE || s[pos + 1] == B_BACKSLASH) {
                let c = s[pos + 1];
                proof {
                    match spec_parse_string(s@, pos + 2) {
                        Some(tj) => {
                            assert(acc@ + (seq![c] + tj.0) =~= (acc@ + seq![c]) + tj.0);
                        },
                        None => {},
                    }
                }
                acc.push(c);
                pos = pos + 2;
            } else if s.len() - pos > 5 && s[pos + 1] == B_LOWER_U && s[pos + 2] == B_ZERO && s[pos
                + 3] == B_ZERO && is_hex_digit_x(s[pos + 4]) && is_hex_digit_x(s[pos + 5])
                && hex_val_x(s[pos + 4]) * 16 + hex_val_x(s[pos + 5]) < 32 {
                let c = hex_val_x(s[pos + 4]) * 16 + hex_val_x(s[pos + 5]);
                proof {
                    match spec_parse_string(s@, pos + 6) {
                        Some(tj) => {
                            assert(acc@ + (seq![c] + tj.0) =~= (acc@ + seq![c]) + tj.0);
                        },
                        None => {},
                    }
                }
                acc.push(c);
                pos = pos + 6;
            } else {
                return None;
            }
        } else if b < 32 {
            return None;
        } else {
            proof {
                match spec_parse_string(s@, pos + 1) {
                    Some(tj) => {
                        assert(acc@ + (seq![b] + tj.0) =~= (acc@ + seq![b]) + tj.0);
                    },
                    None => {},
                }
            }
            acc.push(b);
            pos = pos + 1;
        }
    }
}

/// Whether `d` is a lowercase hex digit byte.
pub fn is_hex_digit_x(d: u8) -> (r: bool)
    ensures
        r == is_hex_digit(d),
{
    (48 <= d && d <= 57) || (97 <= d && d <= 102)
}

/// The value of a lowercase hex digit byte.
pub fn hex_val_x(d: u8) -> (r: u8)
    requires
        is_hex_digit(d),
    ensures
        r == hex_val(d),
        r < 16,
{
    if d <= 57 {
        d - 48
    } else {
        d - 87
    }
}

/// Checks that the UTF-8 bytes of the literal `lit` occur in `s` at position
/// `i`; on success returns the position just past them.
pub fn match_lit(s: &Vec<u8>, i: usize, lit: &str) -> (r: Option<usize>)
    ensures
        match r {
            Some(j) => match_at(s@, i as int, lit.spec_bytes()) && j == i + lit.spec_bytes().len(),
            None => !match_at(s@, i as int, lit.spec_bytes()),
        },
{
    let bytes = lit.as_bytes_vec();
    let slen = s.len();
    if i > slen || bytes.len() > slen - i {
        return None;
    }
    let mut k: usize = 0;
    while k < bytes.len()
        invariant
            k <= bytes@.len(),
            i + bytes@.len() <= slen,
            slen == s@.len(),
            bytes@ == lit.spec_bytes(),
            forall|m: int| 0 <= m < k ==> s@[i + m] == bytes@[m],
        decreases bytes@.len() - k,
    {
        if s[i + k] != bytes[k] {
            proof {
                assert(s@.subrange(i as int, i + bytes@.len())[k as int] == s@[i + k]);
            }
            return None;
        }
        k += 1;
    }
    proof {
        assert(s@.subrange(i as int, i + bytes@.len()) =~= bytes@);
    }
    Some(i + bytes.len())
}

} // verus!
