//! Byte-level text utilities shared by the parser and the builders:
//! comparison, whitespace trimming, splitting a header block into lines and
//! a request line into tokens, and copying spans out of a buffer.

use vstd::prelude::*;
use vstd::string::*;

verus! {

/// The bytes of an ASCII character sequence, one byte per character.
pub open spec fn ascii_seq(s: Seq<char>) -> Seq<u8> {
    Seq::new(s.len(), |i: int| s[i] as u8)
}

/// An ASCII string's wire bytes are its characters, one byte each.
pub proof fn ascii_bytes_of_str(s: &str)
    requires
        vstd::string::is_ascii(s),
    ensures
        s.spec_bytes() == ascii_seq(s@),
{
    vstd::string::is_ascii_spec_bytes(s);
    assert(s.spec_bytes() =~= ascii_seq(s@));
}

/// Exact comparison of two byte spans.
pub fn bytes_eq(a: &[u8], b: &[u8]) -> (r: bool)
    ensures
        r == (a@ == b@),
{
    if a.len() != b.len() {
        proof {
            assert(a@ != b@);
        }
        return false;
    }
    let mut i: usize = 0;
    while i < a.len()
        invariant
            i <= a@.len(),
            a@.len() == b@.len(),
            forall|j: int| 0 <= j < i ==> a@[j] == b@[j],
        decreases a@.len() - i,
    {
        if a[i] != b[i] {
            return false;
        }
        i += 1;
    }
    proof {
        assert(a@ =~= b@);
    }
    true
}

/// The view of each vector in a sequence of byte vectors.
pub open spec fn vecs_model(v: Seq<Vec<u8>>) -> Seq<Seq<u8>> {
    v.map_values(|x: Vec<u8>| x@)
}

/// ASCII whitespace: space, tab, line feed, vertical tab, form feed,
/// carriage return.
pub open spec fn is_ws(b: u8) -> bool {
    b == 32 || b == 9 || b == 10 || b == 11 || b == 12 || b == 13
}

/// The index of the first occurrence of `b`, or the length if `b` is absent.
pub open spec fn first_idx(s: Seq<u8>, b: u8) -> int
    decreases s.len(),
{
    if s.len() == 0 {
        0
    } else if s[0] == b {
        0
    } else {
        1 + first_idx(s.drop_first(), b)
    }
}

/// Bounds and characterization of `first_idx`.
pub proof fn lemma_first_idx(s: Seq<u8>, b: u8)
    ensures
        0 <= first_idx(s, b) <= s.len(),
        forall|j: int| 0 <= j < first_idx(s, b) ==> s[j] != b,
        first_idx(s, b) < s.len() ==> s[first_idx(s, b)] == b,
    decreases s.len(),
{
    if s.len() > 0 && s[0] != b {
        lemma_first_idx(s.drop_first(), b);
        assert forall|j: int| 0 <= j < first_idx(s, b) implies s[j] != b by {
            if j > 0 {
                assert(s.drop_first()[j - 1] == s[j]);
            }
        }
    }
}

/// `first_idx` is pinned down by a prefix free of `b` ending at `b` or at
/// the end of the span.
pub proof fn lemma_first_idx_at(s: Seq<u8>, b: u8, k: int)
    requires
        0 <= k <= s.len(),
        forall|j: int| 0 <= j < k ==> s[j] != b,
        k < s.len() ==> s[k] == b,
    ensures
        first_idx(s, b) == k,
    decreases k,
{
    if k > 0 {
        lemma_first_idx_at(s.drop_first(), b, k - 1);
    }
}

/// The length of the leading run of non-whitespace bytes.
pub open spec fn token_len(s: Seq<u8>) -> int
    decreases s.len(),
{
    if s.len() == 0 {
        0
    } else if is_ws(s[0]) {
        0
    } else {
        1 + token_len(s.drop_first())
    }
}

/// Bounds and characterization of `token_len`.
pub proof fn lemma_token_len(s: Seq<u8>)
    ensures
        0 <= token_len(s) <= s.len(),
        forall|j: int| 0 <= j < token_len(s) ==> !is_ws(s[j]),
        token_len(s) < s.len() ==> is_ws(s[token_len(s)]),
    decreases s.len(),
{
    if s.len() > 0 && !is_ws(s[0]) {
        lemma_token_len(s.drop_first());
        assert forall|j: int| 0 <= j < token_len(s) implies !is_ws(s[j]) by {
            if j > 0 {
                assert(s.drop_first()[j - 1] == s[j]);
            }
        }
    }
}

/// `token_len` is pinned down by a whitespace-free prefix ending at
/// whitespace or at the end of the span.
pub proof fn lemma_token_len_at(s: Seq<u8>, k: int)
    requires
        0 <= k <= s.len(),
        forall|j: int| 0 <= j < k ==> !is_ws(s[j]),
        k < s.len() ==> is_ws(s[k]),
    ensures
        token_len(s) == k,
    decreases k,
{
    if k > 0 {
        lemma_token_len_at(s.drop_first(), k - 1);
    }
}

/// A line with its trailing carriage return, if any, removed.
pub open spec fn strip_cr(s: Seq<u8>) -> Seq<u8> {
    if s.len() > 0 && s[s.len() - 1] == 13 {
        s.drop_last()
    } else {
        s
    }
}

/// The lines of a text block: pieces split on line feeds, each with a
/// trailing carriage return removed; a final empty piece after a trailing
/// line feed is not a line.
pub open spec fn lines_of(s: Seq<u8>) -> Seq<Seq<u8>>
    decreases s.len(),
    via lines_of_dec
{
    if s.len() == 0 {
        Seq::empty()
    } else {
        let i = first_idx(s, 10);
        if i == s.len() {
            seq![strip_cr(s)]
        } else {
            seq![strip_cr(s.take(i))] + lines_of(s.skip(i + 1))
        }
    }
}

#[via_fn]
proof fn lines_of_dec(s: Seq<u8>) {
    lemma_first_idx(s, 10);
}

/// The whitespace-separated tokens of a span, in order.
pub open spec fn ws_split(s: Seq<u8>) -> Seq<Seq<u8>>
    decreases s.len(),
    via ws_split_dec
{
    if s.len() == 0 {
        Seq::empty()
    } else if is_ws(s[0]) {
        ws_split(s.drop_first())
    } else {
        let k = token_len(s);
        seq![s.take(k)] + ws_split(s.skip(k))
    }
}

#[via_fn]
proof fn ws_split_dec(s: Seq<u8>) {
    lemma_token_len(s);
}

/// A span with its leading whitespace removed.
pub open spec fn trim_left(s: Seq<u8>) -> Seq<u8>
    decreases s.len(),
{
    if s.len() > 0 && is_ws(s[0]) {
        trim_left(s.drop_first())
    } else {
        s
    }
}

/// A span with its trailing whitespace removed.
pub open spec fn trim_right(s: Seq<u8>) -> Seq<u8>
    decreases s.len(),
{
    if s.len() > 0 && is_ws(s[s.len() - 1]) {
        trim_right(s.drop_last())
    } else {
        s
    }
}

/// A span with leading and trailing whitespace removed.
pub open spec fn trim_bytes(s: Seq<u8>) -> Seq<u8> {
    trim_right(trim_left(s))
}

/// Splitting off one line: a line-feed-free line followed by a CRLF pair
/// starts the line list of the whole.
pub proof fn lemma_lines_of_prepend_line(line: Seq<u8>, rest: Seq<u8>)
    requires
        forall|j: int| 0 <= j < line.len() ==> line[j] != 10,
    ensures
        lines_of(line + seq![13u8, 10u8] + rest) == seq![line] + lines_of(rest),
{
    let full = line + seq![13u8, 10u8] + rest;
    assert forall|j: int| 0 <= j < line.len() as int + 1 implies full[j] != 10 by {
        if j < line.len() {
            assert(full[j] == line[j]);
        } else {
            assert(full[j] == 13u8);
        }
    }
    assert(full[line.len() as int + 1] == 10u8);
    lemma_first_idx_at(full, 10, line.len() as int + 1);
    assert(full.take(line.len() as int + 1) =~= line + seq![13u8]);
    assert(strip_cr(line + seq![13u8]) =~= line);
    assert(full.skip(line.len() as int + 2) =~= rest);
    assert(lines_of(full) == seq![line] + lines_of(rest));
}

/// Splitting off one token: a nonempty whitespace-free token followed by
/// nothing or by whitespace starts the token list of the whole.
pub proof fn lemma_ws_split_token(t: Seq<u8>, rest: Seq<u8>)
    requires
        t.len() > 0,
        forall|j: int| 0 <= j < t.len() ==> !is_ws(t[j]),
        rest.len() == 0 || is_ws(rest[0]),
    ensures
        ws_split(t + rest) == seq![t] + ws_split(rest),
{
    let full = t + rest;
    assert forall|j: int| 0 <= j < t.len() implies !is_ws(full[j]) by {
        assert(full[j] == t[j]);
    }
    if rest.len() > 0 {
        assert(full[t.len() as int] == rest[0]);
    }
    lemma_token_len_at(full, t.len() as int);
    assert(full.take(t.len() as int) =~= t);
    assert(full.skip(t.len() as int) =~= rest);
    assert(!is_ws(full[0]));
}

/// A leading whitespace byte does not change the token list.
pub proof fn lemma_ws_split_skip(c: u8, rest: Seq<u8>)
    requires
        is_ws(c),
    ensures
        ws_split(seq![c] + rest) == ws_split(rest),
{
    assert((seq![c] + rest).drop_first() =~= rest);
}

/// A single leading space does not change the trimmed span.
pub proof fn lemma_trim_space_prefix(v: Seq<u8>)
    ensures
        trim_bytes(seq![32u8] + v) == trim_bytes(v),
{
    let s = seq![32u8] + v;
    assert(s[0] == 32u8);
    assert(s.drop_first() =~= v);
}

/// Copies a byte vector.
pub fn copy_vec(s: &Vec<u8>) -> (r: Vec<u8>)
    ensures
        r@ == s@,
{
    let r = copy_span(s.as_slice(), 0, s.len());
    proof {
        assert(s@.subrange(0, s@.len() as int) =~= s@);
    }
    r
}

/// Relies on core::str::from_utf8: returns the borrowed string exactly when
/// the bytes are valid UTF-8, and the string's bytes are the input bytes.
#[verifier::external_body]
pub(crate) fn as_utf8_str(b: &[u8]) -> (r: Option<&str>)
    ensures
        r is Some <==> vstd::utf8::valid_utf8(b@),
        r is Some ==> r->0.spec_bytes() == b@,
{
    core::str::from_utf8(b).ok()
}

/// Whether a byte is ASCII whitespace.
pub fn is_ws_u8(b: u8) -> (r: bool)
    ensures
        r == is_ws(b),
{
    b == 32 || b == 9 || b == 10 || b == 11 || b == 12 || b == 13
}

/// Splits a byte block into its lines, as `lines_of` describes.
pub fn split_lines(s: &[u8]) -> (r: Vec<Vec<u8>>)
    ensures
        vecs_model(r@) == lines_of(s@),
{
    let mut r: Vec<Vec<u8>> = Vec::new();
    let mut pos: usize = 0;
    proof {
        assert(s@.skip(0) =~= s@);
        assert(vecs_model(r@) + lines_of(s@) =~= lines_of(s@));
    }
    while pos < s.len()
        invariant
            pos <= s@.len(),
            lines_of(s@) == vecs_model(r@) + lines_of(s@.skip(pos as int)),
        decreases s@.len() - pos,
    {
        let ghost tail = s@.skip(pos as int);
        let mut j: usize = pos;
        while j < s.len() && s[j] != 10
            invariant
                pos <= j <= s@.len(),
                forall|k: int| pos <= k < j ==> s@[k] != 10,
            decreases s@.len() - j,
        {
            j += 1;
        }
        proof {
            assert forall|k: int| 0 <= k < j - pos implies tail[k] != 10 by {
                assert(tail[k] == s@[pos + k]);
            }
            if j < s@.len() {
                assert(tail[j - pos] == s@[j as int]);
            }
            lemma_first_idx_at(tail, 10, j - pos);
            assert(tail.take(j - pos) =~= s@.subrange(pos as int, j as int));
        }
        let line: Vec<u8> = if j > pos && s[j - 1] == 13 {
            let l = copy_span(s, pos, j - 1);
            proof {
                let piece = s@.subrange(pos as int, j as int);
                assert(piece[piece.len() - 1] == s@[j - 1]);
                assert(piece.drop_last() =~= s@.subrange(pos as int, j - 1));
                assert(l@ == strip_cr(piece));
            }
            l
        } else {
            let l = copy_span(s, pos, j);
            proof {
                let piece = s@.subrange(pos as int, j as int);
                if piece.len() > 0 {
                    assert(piece[piece.len() - 1] == s@[j - 1]);
                }
                assert(l@ == strip_cr(piece));
            }
            l
        };
        let ghost old_model = vecs_model(r@);
        r.push(line);
        proof {
            assert(vecs_model(r@) =~= old_model.push(line@));
        }
        if j == s.len() {
            proof {
                assert(lines_of(tail) == seq![strip_cr(tail)]);
                assert(tail.take(j - pos) =~= tail);
                assert(vecs_model(r@) + lines_of(s@.skip(s@.len() as int)) =~= vecs_model(r@));
                assert(lines_of(s@) == vecs_model(r@) + lines_of(s@.skip(s@.len() as int)));
            }
            pos = s.len();
        } else {
            proof {
                assert(tail.skip(j - pos + 1) =~= s@.skip(j + 1));
                assert(lines_of(tail) == seq![strip_cr(tail.take(j - pos))] + lines_of(
                    s@.skip(j + 1),
                ));
                assert(old_model + lines_of(tail) =~= vecs_model(r@) + lines_of(s@.skip(j + 1)));
            }
            pos = j + 1;
        }
    }
    proof {
        assert(vecs_model(r@) + lines_of(s@.skip(pos as int)) =~= vecs_model(r@));
    }
    r
}

/// Splits a span into its whitespace-separated tokens, as `ws_split`
/// describes.
pub fn split_ws(s: &[u8]) -> (r: Vec<Vec<u8>>)
    ensures
        vecs_model(r@) == ws_split(s@),
{
    let mut r: Vec<Vec<u8>> = Vec::new();
    let mut pos: usize = 0;
    proof {
        assert(s@.skip(0) =~= s@);
        assert(vecs_model(r@) + ws_split(s@) =~= ws_split(s@));
    }
    while pos < s.len()
        invariant
            pos <= s@.len(),
            ws_split(s@) == vecs_model(r@) + ws_split(s@.skip(pos as int)),
        decreases s@.len() - pos,
    {
        let ghost tail = s@.skip(pos as int);
        if is_ws_u8(s[pos]) {
            proof {
                assert(tail[0] == s@[pos as int]);
                assert(tail.drop_first() =~= s@.skip(pos as int + 1));
            }
            pos += 1;
        } else {
            let mut j: usize = pos + 1;
            while j < s.len() && !is_ws_u8(s[j])
                invariant
                    pos < j <= s@.len(),
                    forall|k: int| pos <= k < j ==> !is_ws(s@[k]),
                decreases s@.len() - j,
            {
                j += 1;
            }
            proof {
                assert forall|k: int| 0 <= k < j - pos implies !is_ws(tail[k]) by {
                    assert(tail[k] == s@[pos + k]);
                }
                if j < s@.len() {
                    assert(tail[j - pos] == s@[j as int]);
                }
                lemma_token_len_at(tail, j - pos);
                assert(tail.take(j - pos) =~= s@.subrange(pos as int, j as int));
                assert(tail.skip(j - pos) =~= s@.skip(j as int));
            }
            let tok = copy_span(s, pos, j);
            let ghost old_model = vecs_model(r@);
            r.push(tok);
            proof {
                assert(vecs_model(r@) =~= old_model.push(tok@));
                assert(old_model + ws_split(tail) =~= vecs_model(r@) + ws_split(s@.skip(j as int)));
            }
            pos = j;
        }
    }
    proof {
        assert(vecs_model(r@) + ws_split(s@.skip(pos as int)) =~= vecs_model(r@));
    }
    r
}

/// Copies the span `[from, to)` with leading and trailing ASCII whitespace
/// removed.
pub fn trim_span(s: &[u8], from: usize, to: usize) -> (r: Vec<u8>)
    requires
        from <= to <= s@.len(),
    ensures
        r@ == trim_bytes(s@.subrange(from as int, to as int)),
{
    let mut a: usize = from;
    while a < to && is_ws_u8(s[a])
        invariant
            from <= a <= to <= s@.len(),
            trim_left(s@.subrange(from as int, to as int)) == trim_left(
                s@.subrange(a as int, to as int),
            ),
        decreases to - a,
    {
        proof {
            let cur = s@.subrange(a as int, to as int);
            assert(cur[0] == s@[a as int]);
            assert(cur.drop_first() =~= s@.subrange(a as int + 1, to as int));
        }
        a += 1;
    }
    proof {
        let cur = s@.subrange(a as int, to as int);
        if a < to {
            assert(cur[0] == s@[a as int]);
        }
        assert(trim_left(cur) == cur);
    }
    let mut b: usize = to;
    while b > a && is_ws_u8(s[b - 1])
        invariant
            from <= a <= b <= to <= s@.len(),
            trim_right(s@.subrange(a as int, to as int)) == trim_right(
                s@.subrange(a as int, b as int),
            ),
        decreases b,
    {
        proof {
            let cur = s@.subrange(a as int, b as int);
            assert(cur[cur.len() - 1] == s@[b - 1]);
            assert(cur.drop_last() =~= s@.subrange(a as int, b as int - 1));
        }
        b -= 1;
    }
    proof {
        let cur = s@.subrange(a as int, b as int);
        if b > a {
            assert(cur[cur.len() - 1] == s@[b - 1]);
        }
        assert(trim_right(cur) == cur);
    }
    copy_span(s, a, b)
}

/// Copies a span `[from, to)` of a byte slice into an owned vector.
pub fn copy_span(s: &[u8], from: usize, to: usize) -> (r: Vec<u8>)
    requires
        from <= to <= s@.len(),
    ensures
        r@ == s@.subrange(from as int, to as int),
{
    let mut r: Vec<u8> = Vec::new();
    let mut i: usize = from;
    while i < to
        invariant
            from <= i <= to <= s@.len(),
            r@ == s@.subrange(from as int, i as int),
        decreases to - i,
    {
        r.push(s[i]);
        i += 1;
        proof {
            assert(r@ =~= s@.subrange(from as int, i as int));
        }
    }
    r
}

/// Appends a byte span to a vector.
pub fn append_bytes(dst: &mut Vec<u8>, src: &[u8])
    ensures
        final(dst)@ == old(dst)@ + src@,
{
    let mut i: usize = 0;
    while i < src.len()
        invariant
            i <= src@.len(),
            dst@ == old(dst)@ + src@.subrange(0, i as int),
        decreases src@.len() - i,
    {
        dst.push(src[i]);
        proof {
            assert(old(dst)@ + src@.subrange(0, i as int) + seq![src@[i as int]] =~= old(dst)@
                + src@.subrange(0, i as int + 1));
        }
        i += 1;
    }
    proof {
        assert(src@.subrange(0, src@.len() as int) =~= src@);
    }
}

/// Appends the bytes of an ASCII string literal to a vector.
pub(crate) fn append_lit(dst: &mut Vec<u8>, s: &str)
    requires
        vstd::string::is_ascii(s),
    ensures
        final(dst)@ == old(dst)@ + ascii_seq(s@),
{
    proof {
        ascii_bytes_of_str(s);
    }
    append_bytes(dst, s.as_bytes());
}

} // verus!
