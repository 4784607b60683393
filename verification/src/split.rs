//! Cutting the first line off a text, without copying.

use vstd::prelude::*;
use vstd::utf8::*;
use crate::encoding::{
    lemma_absent_byte_absent_char, lemma_decode_ascii, lemma_encode_len, lemma_last_ascii,
    lemma_split,
};
use crate::text::{after_first_line, first_line, first_newline, lemma_first_newline_is, without_cr};

verus! {

/// The byte of a line feed.
pub const LINE_FEED: u8 = 0x0A;

/// The byte of a carriage return.
pub const CARRIAGE_RETURN: u8 = 0x0D;

/// `line` without the carriage return that ends it, if one does.
pub fn strip_carriage_return<'a>(line: &'a str) -> (stripped: &'a str)
    ensures
        stripped@ == without_cr(line@),
{
    let bytes = line.as_bytes();
    let n: usize = bytes.len();
    proof {
        encode_utf8_valid_utf8(line@);
        lemma_encode_len(line@);
        if line@.len() > 0 {
            lemma_last_ascii(line@, '\r');
        }
    }
    if n > 0 && bytes[n - 1] == CARRIAGE_RETURN {
        proof {
            is_char_boundary_iff_not_is_continuation_byte(bytes@, n - 1);
        }
        let (stripped, cr) = line.split_at(n - 1);
        proof {
            assert(encode_utf8(cr@) == seq!['\r' as u8]);
            lemma_decode_ascii(cr@, '\r');
            lemma_split(line@, stripped@, cr@, n - 1);
        }
        stripped
    } else {
        line
    }
}

/// Cuts `text` behind its first line: returns that line, without the line
/// feed (or carriage return and line feed) that ends it, and what follows
/// the line feed. Both borrow from `text`. A text without a line feed is
/// its own first line, and nothing follows.
pub fn split_first_line<'a>(text: &'a str) -> (parts: (&'a str, &'a str))
    ensures
        parts.0@ == first_line(text@),
        parts.1@ == after_first_line(text@),
{
    let bytes = text.as_bytes();
    let n: usize = bytes.len();
    let mut i: usize = 0;
    while i < n && bytes[i] != LINE_FEED
        invariant
            i <= n,
            n == bytes@.len(),
            forall|k: int| 0 <= k < i ==> bytes@[k] != LINE_FEED,
        decreases n - i,
    {
        i += 1;
    }
    proof {
        encode_utf8_valid_utf8(text@);
    }
    if i == n {
        proof {
            lemma_absent_byte_absent_char(text@, '\n');
            lemma_first_newline_is(text@, text@.len() as int);
            is_char_boundary_start_end_of_seq(bytes@);
        }
        let (whole, nothing) = text.split_at(n);
        proof {
            lemma_split(text@, whole@, nothing@, n as int);
            lemma_encode_len(nothing@);
        }
        return (whole, nothing);
    }
    proof {
        is_char_boundary_iff_not_is_continuation_byte(bytes@, i as int);
    }
    let (head, tail) = text.split_at(i);
    proof {
        encode_utf8_valid_utf8(tail@);
        reveal_with_fuel(is_char_boundary, 2);
    }
    let (feed, rest) = tail.split_at(1);
    proof {
        lemma_split(text@, head@, tail@, i as int);
        lemma_split(tail@, feed@, rest@, 1);
        lemma_decode_ascii(feed@, '\n');
        lemma_absent_byte_absent_char(head@, '\n');
        let cut = head@.len() as int;
        lemma_first_newline_is(text@, cut);
    }
    (strip_carriage_return(head), rest)
}

} // verus!
