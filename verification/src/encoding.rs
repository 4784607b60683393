//! How the bytes of UTF-8 text relate to its characters.
//!
//! The search scans bytes, while its contracts speak of characters. The
//! lemmas here carry facts from one side to the other: encoding distributes
//! over concatenation, an ASCII character is exactly one byte of the same
//! value, and a run of bytes that is itself valid UTF-8 and occurs in the
//! encoding of a text is the encoding of a run of that text's characters.

use vstd::prelude::*;
use vstd::utf8::*;
use crate::text::{occurs_at, occurs_in};

verus! {

/// A character below U+0080.
pub open spec fn is_ascii_char(c: char) -> bool {
    (c as u32) < 0x80
}

/// Encoding a concatenation concatenates the encodings.
pub proof fn lemma_encode_concat(a: Seq<char>, b: Seq<char>)
    ensures
        encode_utf8(a + b) == encode_utf8(a) + encode_utf8(b),
    decreases a.len(),
{
    if a.len() > 0 {
        lemma_encode_concat(a.drop_first(), b);
        assert((a + b).drop_first() == a.drop_first() + b);
    }
}

/// Two texts with the same encoding are the same text.
pub proof fn lemma_encode_injective(a: Seq<char>, b: Seq<char>)
    requires
        encode_utf8(a) == encode_utf8(b),
    ensures
        a == b,
{
    encode_utf8_decode_utf8(a);
    encode_utf8_decode_utf8(b);
}

/// The encoding of a text is never shorter than the text.
pub proof fn lemma_encode_len(s: Seq<char>)
    ensures
        s.len() <= encode_utf8(s).len(),
    decreases s.len(),
{
    if s.len() > 0 {
        lemma_encode_len(s.drop_first());
    }
}

/// An ASCII character is encoded as the one byte of its own value.
pub proof fn lemma_encode_ascii(c: char)
    requires
        is_ascii_char(c),
    ensures
        encode_utf8(seq![c]) == seq![c as u8],
{
    is_ascii_chars_encode_utf8(seq![c]);
}

/// A text whose encoding is a single ASCII byte is that one character.
pub proof fn lemma_decode_ascii(s: Seq<char>, c: char)
    requires
        is_ascii_char(c),
        encode_utf8(s) == seq![c as u8],
    ensures
        s == seq![c],
{
    lemma_encode_ascii(c);
    lemma_encode_injective(s, seq![c]);
}

/// Cutting the encoding of `whole` in two at `mid` cuts `whole` in two,
/// provided both pieces are themselves encodings.
pub proof fn lemma_split(whole: Seq<char>, head: Seq<char>, tail: Seq<char>, mid: int)
    requires
        0 <= mid <= encode_utf8(whole).len(),
        encode_utf8(head) == encode_utf8(whole).subrange(0, mid),
        encode_utf8(tail) == encode_utf8(whole).subrange(mid, encode_utf8(whole).len() as int),
    ensures
        whole == head + tail,
{
    lemma_encode_concat(head, tail);
    assert(encode_utf8(head) + encode_utf8(tail) == encode_utf8(whole));
    lemma_encode_injective(whole, head + tail);
}

/// An ASCII character at index `i` of a text shows as its byte in the
/// encoding, right behind the encoding of what precedes it.
pub proof fn lemma_ascii_byte_of_char(s: Seq<char>, i: int)
    requires
        0 <= i < s.len(),
        is_ascii_char(s[i]),
    ensures
        encode_utf8(s.take(i)).len() < encode_utf8(s).len(),
        encode_utf8(s)[encode_utf8(s.take(i)).len() as int] == s[i] as u8,
{
    let before = s.take(i);
    let after = s.skip(i + 1);
    assert(s == before + seq![s[i]] + after);
    lemma_encode_concat(before + seq![s[i]], after);
    lemma_encode_concat(before, seq![s[i]]);
    lemma_encode_ascii(s[i]);
}

/// A text whose encoding lacks the byte of an ASCII character lacks that
/// character.
pub proof fn lemma_absent_byte_absent_char(s: Seq<char>, c: char)
    requires
        is_ascii_char(c),
        forall|k: int| 0 <= k < encode_utf8(s).len() ==> encode_utf8(s)[k] != c as u8,
    ensures
        forall|i: int| 0 <= i < s.len() ==> s[i] != c,
{
    assert forall|i: int| 0 <= i < s.len() implies s[i] != c by {
        if s[i] == c {
            lemma_ascii_byte_of_char(s, i);
        }
    }
}

/// The byte that ends the encoding of a non-empty text is an ASCII byte
/// exactly when the text's last character is that ASCII character.
pub proof fn lemma_last_ascii(s: Seq<char>, c: char)
    requires
        is_ascii_char(c),
        s.len() > 0,
    ensures
        encode_utf8(s).len() > 0,
        (s.last() == c) <==> (encode_utf8(s).last() == c as u8),
{
    let bytes = encode_utf8(s);
    lemma_encode_len(s);
    encode_utf8_valid_utf8(s);
    if s.last() == c {
        assert(s == s.drop_last() + seq![c]);
        lemma_encode_concat(s.drop_last(), seq![c]);
        lemma_encode_ascii(c);
    }
    if bytes.last() == c as u8 {
        let cut = bytes.len() - 1;
        is_char_boundary_iff_not_is_continuation_byte(bytes, cut);
        valid_utf8_split(bytes, cut);
        let init = decode_utf8(bytes.subrange(0, cut));
        let end = decode_utf8(bytes.subrange(cut, bytes.len() as int));
        decode_utf8_encode_utf8(bytes.subrange(0, cut));
        decode_utf8_encode_utf8(bytes.subrange(cut, bytes.len() as int));
        lemma_decode_ascii(end, c);
        lemma_split(s, init, end, cut);
    }
}

/// What follows a valid prefix of valid UTF-8 is valid UTF-8.
pub proof fn lemma_valid_suffix(u: Seq<u8>, v: Seq<u8>)
    requires
        valid_utf8(u),
        valid_utf8(u + v),
    ensures
        valid_utf8(v),
    decreases u.len(),
{
    if u.len() > 0 {
        // The first character of `u + v` is that of `u`.
        assert(pop_first_scalar(u + v) == pop_first_scalar(u) + v);
        lemma_valid_suffix(pop_first_scalar(u), v);
    }
}

/// A query occurs in a text exactly when the query's encoding occurs in the
/// text's encoding: a match found among the bytes never starts or ends
/// inside a character.
pub proof fn lemma_occurs_in_encoding(needle: Seq<char>, hay: Seq<char>)
    ensures
        occurs_in(needle, hay) <==> occurs_in(encode_utf8(needle), encode_utf8(hay)),
{
    let pat = encode_utf8(needle);
    let bytes = encode_utf8(hay);
    encode_utf8_valid_utf8(needle);
    encode_utf8_valid_utf8(hay);
    if occurs_in(needle, hay) {
        let at = choose|at: int| occurs_at(hay, needle, at);
        let before = hay.take(at);
        let after = hay.skip(at + needle.len());
        assert(hay == before + needle + after);
        lemma_encode_concat(before + needle, after);
        lemma_encode_concat(before, needle);
        let k = encode_utf8(before).len() as int;
        assert(bytes.subrange(k, k + pat.len()) == pat);
        assert(occurs_at(bytes, pat, k));
    }
    if occurs_in(pat, bytes) {
        let k = choose|k: int| occurs_at(bytes, pat, k);
        if pat.len() == 0 {
            lemma_encode_len(needle);
            assert(hay.subrange(0, 0) == needle);
            assert(occurs_at(hay, needle, 0));
        } else {
            // The match starts with the first byte of a character, so what
            // precedes it is valid, and so is what follows the match.
            is_char_boundary_iff_not_is_continuation_byte(bytes, k);
            valid_utf8_split(bytes, k);
            let head = bytes.subrange(0, k);
            let tail = bytes.subrange(k + pat.len(), bytes.len() as int);
            assert(bytes.subrange(k, bytes.len() as int) == pat + tail);
            lemma_valid_suffix(pat, tail);
            let before = decode_utf8(head);
            let after = decode_utf8(tail);
            decode_utf8_encode_utf8(head);
            decode_utf8_encode_utf8(tail);
            lemma_encode_concat(before + needle, after);
            lemma_encode_concat(before, needle);
            assert(bytes == head + pat + tail);
            lemma_encode_injective(hay, before + needle + after);
            let at = before.len() as int;
            assert(hay.subrange(at, at + needle.len()) == needle);
            assert(occurs_at(hay, needle, at));
        }
    }
}

} // verus!
