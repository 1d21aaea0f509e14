//! Text as it comes in: the decoding of bytes and the splitting into lines.

use vstd::prelude::*;
use vstd::utf8::decode_utf8;
use vstd::utf8::decode_utf8_split;
use vstd::utf8::encode_scalar;
use vstd::utf8::encode_utf8;
use vstd::utf8::encode_utf8_decode_utf8;
use vstd::utf8::encode_utf8_valid_utf8;
use vstd::utf8::is_char_boundary;
use vstd::utf8::is_char_boundary_iff_not_is_continuation_byte;
use vstd::utf8::valid_utf8;

verus! {

/// Calls `String::from_utf8` and drops the error's detail. Assumed of it:
/// it succeeds exactly on the byte sequences that are well-formed UTF-8, and
/// the text it gives is the one whose UTF-8 encoding is `bytes`.
#[verifier::external_body]
fn string_from_utf8(bytes: Vec<u8>) -> (r: Option<String>)
    ensures
        r is Some <==> valid_utf8(bytes@),
        r matches Some(s) ==> encode_utf8(s@) == bytes@,
{
    match String::from_utf8(bytes) {
        Ok(text) => Some(text),
        Err(_) => None,
    }
}

/// Decodes `bytes` as UTF-8 text; `None` where they are not well-formed.
pub fn decode(bytes: Vec<u8>) -> (r: Option<String>)
    ensures
        r is Some <==> valid_utf8(bytes@),
        r matches Some(s) ==> s@ == decode_utf8(bytes@),
{
    let r = string_from_utf8(bytes);
    proof {
        if r is Some {
            encode_utf8_decode_utf8(r->0@);
        }
    }
    r
}

/// The length of the first line of `s`: the index of its first line break,
/// or `s.len()` where it has none.
pub open spec fn line_end(s: Seq<char>) -> int
    decreases s.len(),
{
    if s.len() == 0 || s[0] == '\n' {
        0
    } else {
        1 + line_end(s.drop_first())
    }
}

/// The lines of `s`: the pieces between its line breaks, in order. A text
/// with `k` line breaks has `k + 1` lines, so the empty text has one empty
/// line and a text that ends in a line break has an empty last line.
pub open spec fn lines(s: Seq<char>) -> Seq<Seq<char>>
    decreases s.len(),
{
    let n = line_end(s);
    if 0 <= n < s.len() {
        seq![s.take(n)] + lines(s.skip(n + 1))
    } else {
        seq![s]
    }
}

/// `line_end(s)` lies within `s`, no line break stands before it, and one
/// stands at it unless it is the end of `s`.
pub proof fn lemma_line_end(s: Seq<char>)
    ensures
        0 <= line_end(s) <= s.len(),
        forall|j: int| 0 <= j < line_end(s) ==> s[j] != '\n',
        line_end(s) < s.len() ==> s[line_end(s)] == '\n',
    decreases s.len(),
{
    if s.len() == 0 || s[0] == '\n' {
    } else {
        let rest = s.drop_first();
        lemma_line_end(rest);
        assert forall|j: int| 0 <= j < line_end(s) implies s[j] != '\n' by {
            if j > 0 {
                assert(s[j] == rest[j - 1]);
            }
        }
        if line_end(s) < s.len() {
            assert(s[line_end(s)] == rest[line_end(rest)]);
        }
    }
}

/// The first position of `s` that is its end or holds a line break is
/// `line_end(s)`.
pub proof fn lemma_line_end_is(s: Seq<char>, n: int)
    requires
        0 <= n <= s.len(),
        forall|j: int| 0 <= j < n ==> s[j] != '\n',
        n < s.len() ==> s[n] == '\n',
    ensures
        line_end(s) == n,
{
    lemma_line_end(s);
    let m = line_end(s);
    if m < n {
        assert(s[m] == '\n');
    } else if n < m {
        assert(s[n] == '\n');
    }
}

/// The pieces put together again with a line break between neighbours.
pub open spec fn joined(pieces: Seq<Seq<char>>) -> Seq<char>
    decreases pieces.len(),
{
    if pieces.len() == 0 {
        Seq::empty()
    } else if pieces.len() == 1 {
        pieces[0]
    } else {
        pieces[0] + seq!['\n'] + joined(pieces.drop_first())
    }
}

/// Whether no piece holds a line break.
pub open spec fn no_breaks(pieces: Seq<Seq<char>>) -> bool {
    forall|i: int, j: int|
        0 <= i < pieces.len() && 0 <= j < pieces[i].len() ==> #[trigger] pieces[i][j] != '\n'
}

/// A text has at least one line, no line holds a line break, and the lines
/// joined by line breaks are the text.
pub proof fn lemma_lines_rejoin(s: Seq<char>)
    ensures
        lines(s).len() >= 1,
        no_breaks(lines(s)),
        joined(lines(s)) == s,
    decreases s.len(),
{
    lemma_line_end(s);
    let n = line_end(s);
    if n < s.len() {
        let rest = s.skip(n + 1);
        let tail = lines(rest);
        lemma_lines_rejoin(rest);
        let all = lines(s);
        assert(all.drop_first() =~= tail);
        assert(all[0] == s.take(n));
        assert(joined(all) =~= s);
        assert forall|i: int, j: int| 0 <= i < all.len() && 0 <= j < all[i].len() implies #[trigger] all[i][j]
            != '\n' by {
            if i == 0 {
                assert(all[0][j] == s[j]);
            } else {
                assert(all[i] == tail[i - 1]);
                assert(tail[i - 1][j] != '\n');
            }
        }
    } else {
        assert(s.len() == n);
    }
}

/// The lines of a text are the only way to cut it at line breaks: pieces
/// without line breaks are the lines of what they join to.
pub proof fn lemma_lines_of_joined(pieces: Seq<Seq<char>>)
    requires
        pieces.len() >= 1,
        no_breaks(pieces),
    ensures
        lines(joined(pieces)) == pieces,
    decreases pieces.len(),
{
    let s = joined(pieces);
    let first = pieces[0];
    assert forall|j: int| 0 <= j < first.len() implies first[j] != '\n' by {
        assert(pieces[0][j] != '\n');
    }
    if pieces.len() == 1 {
        lemma_line_end_is(s, s.len() as int);
        assert(lines(s) =~= pieces);
    } else {
        let rest = pieces.drop_first();
        assert forall|i: int, j: int| 0 <= i < rest.len() && 0 <= j < rest[i].len() implies #[trigger] rest[i][j]
            != '\n' by {
            assert(rest[i] == pieces[i + 1]);
            assert(pieces[i + 1][j] != '\n');
        }
        lemma_lines_of_joined(rest);
        let n = first.len() as int;
        assert(s[n] == '\n');
        assert forall|j: int| 0 <= j < n implies s[j] != '\n' by {
            assert(s[j] == first[j]);
        }
        lemma_line_end_is(s, n);
        assert(s.take(n) =~= first);
        assert(s.skip(n + 1) =~= joined(rest));
        assert(lines(s) =~= pieces);
    }
}

/// The byte that encodes a line break.
const BREAK: u8 = 0x0a;

/// A line break is encoded as the single byte `BREAK`.
proof fn lemma_break_encoding()
    ensures
        encode_scalar('\n' as u32) == seq![BREAK],
        encode_utf8(seq!['\n']) == seq![BREAK],
{
    let chars = seq!['\n'];
    assert(encode_scalar('\n' as u32) =~= seq![BREAK]) by {
        assert((0x0au32 & 0x7F) as u8 == 0x0au8) by (bit_vector);
    }
    assert(encode_utf8(chars.drop_first()) =~= Seq::<u8>::empty()) by {
        assert(chars.drop_first().len() == 0);
    }
    assert(encode_utf8(chars) =~= seq![BREAK]);
}

/// Text whose encoding holds no `BREAK` byte holds no line break.
proof fn lemma_no_break_bytes(chars: Seq<char>)
    requires
        forall|i: int| 0 <= i < encode_utf8(chars).len() ==> encode_utf8(chars)[i] != BREAK,
    ensures
        forall|j: int| 0 <= j < chars.len() ==> chars[j] != '\n',
    decreases chars.len(),
{
    if chars.len() > 0 {
        let bytes = encode_utf8(chars);
        let head = encode_scalar(chars[0] as u32);
        let rest = chars.drop_first();
        assert(bytes == head + encode_utf8(rest));
        assert(head.len() >= 1);
        if chars[0] == '\n' {
            lemma_break_encoding();
            assert(bytes[0] == BREAK);
        }
        assert forall|i: int| 0 <= i < encode_utf8(rest).len() implies encode_utf8(rest)[i]
            != BREAK by {
            assert(bytes[head.len() + i] == encode_utf8(rest)[i]);
        }
        lemma_no_break_bytes(rest);
        assert forall|j: int| 0 <= j < chars.len() implies chars[j] != '\n' by {
            if j > 0 {
                assert(chars[j] == rest[j - 1]);
            }
        }
    }
}

/// Text that is cut in two where its encoding has a `BREAK` byte: the first
/// part and what follows the line break make up the text, with the line
/// break between them.
proof fn lemma_cut_at_break(whole: Seq<char>, line: Seq<char>, tail: Seq<char>, after: Seq<char>)
    requires
        encode_utf8(line) + encode_utf8(tail) == encode_utf8(whole),
        encode_utf8(tail).len() >= 1,
        encode_utf8(tail)[0] == BREAK,
        encode_utf8(after) == encode_utf8(tail).subrange(1, encode_utf8(tail).len() as int),
    ensures
        whole == line + seq!['\n'] + after,
{
    broadcast use {encode_utf8_decode_utf8, encode_utf8_valid_utf8};

    let bytes = encode_utf8(whole);
    let k = encode_utf8(line).len() as int;
    assert(bytes.subrange(0, k) =~= encode_utf8(line));
    assert(bytes.subrange(k, bytes.len() as int) =~= encode_utf8(tail));
    lemma_boundary_at_break(bytes, k);
    decode_utf8_split(bytes, k);
    assert(whole == line + tail);
    let tail_bytes = encode_utf8(tail);
    lemma_boundary_after_break(tail_bytes);
    decode_utf8_split(tail_bytes, 1);
    lemma_break_encoding();
    assert(tail_bytes.subrange(0, 1) =~= encode_utf8(seq!['\n']));
    assert(tail == seq!['\n'] + after);
    assert(whole =~= line + seq!['\n'] + after);
}

/// In well-formed bytes a character starts at every `BREAK` byte.
proof fn lemma_boundary_at_break(bytes: Seq<u8>, k: int)
    requires
        valid_utf8(bytes),
        0 <= k < bytes.len(),
        bytes[k] == BREAK,
    ensures
        is_char_boundary(bytes, k),
{
    is_char_boundary_iff_not_is_continuation_byte(bytes, k);
}

/// In well-formed bytes that start with a `BREAK` byte a character starts
/// right after it.
proof fn lemma_boundary_after_break(bytes: Seq<u8>)
    requires
        valid_utf8(bytes),
        bytes.len() >= 1,
        bytes[0] == BREAK,
    ensures
        is_char_boundary(bytes, 1),
{
    reveal_with_fuel(is_char_boundary, 2);
    reveal_with_fuel(valid_utf8, 2);
}

/// The index of the first `BREAK` byte in `bytes`, or their length where
/// there is none.
fn find_break(bytes: &[u8]) -> (k: usize)
    ensures
        k <= bytes@.len(),
        forall|i: int| 0 <= i < k ==> bytes@[i] != BREAK,
        k < bytes@.len() ==> bytes@[k as int] == BREAK,
{
    let mut k: usize = 0;
    while k < bytes.len() && bytes[k] != BREAK
        invariant
            k <= bytes@.len(),
            forall|i: int| 0 <= i < k ==> bytes@[i] != BREAK,
        decreases bytes@.len() - k,
    {
        k = k + 1;
    }
    k
}

/// Splits `text` at its line breaks.
pub fn split_lines(text: &str) -> (out: Vec<String>)
    ensures
        out.deep_view() == lines(text@),
{
    let mut out: Vec<String> = Vec::new();
    let mut rest: &str = text;
    assert(out.deep_view() + lines(rest@) =~= lines(text@));
    loop
        invariant
            lines(text@) == out.deep_view() + lines(rest@),
        decreases encode_utf8(rest@).len(),
    {
        let bytes = rest.as_bytes();
        let k: usize = find_break(bytes);
        let ghost before = out.deep_view();
        if k == bytes.len() {
            proof {
                lemma_no_break_bytes(rest@);
                lemma_line_end_is(rest@, rest@.len() as int);
                assert(before.push(rest@) =~= before + lines(rest@));
            }
            out.push(String::from_str(rest));
            assert(out.deep_view() =~= before.push(rest@));
            return out;
        }
        proof {
            encode_utf8_valid_utf8(rest@);
            lemma_boundary_at_break(bytes@, k as int);
        }
        let (line, tail) = rest.split_at(k);
        proof {
            encode_utf8_valid_utf8(tail@);
            lemma_boundary_after_break(encode_utf8(tail@));
        }
        let (_, after) = tail.split_at(1);
        proof {
            assert(encode_utf8(line@) + encode_utf8(tail@) =~= encode_utf8(rest@));
            lemma_cut_at_break(rest@, line@, tail@, after@);
            lemma_no_break_bytes(line@);
            let n = line@.len() as int;
            assert(rest@[n] == '\n');
            assert forall|j: int| 0 <= j < n implies rest@[j] != '\n' by {
                assert(rest@[j] == line@[j]);
            }
            lemma_line_end_is(rest@, n);
            assert(rest@.take(n) =~= line@);
            assert(rest@.skip(n + 1) =~= after@);
            assert(before.push(line@) + lines(after@) =~= before + lines(rest@));
        }
        out.push(String::from_str(line));
        assert(out.deep_view() =~= before.push(line@));
        rest = after;
    }
}

} // verus!
