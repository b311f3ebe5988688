//! Trimming of white space, for every character that Unicode gives the
//! property White_Space, read from its UTF-8 encoding.

use vstd::prelude::*;
use vstd::string::*;
use vstd::utf8::*;
use crate::text::{lemma_next_boundary, slice_between};

verus! {

/// The three bytes encode a white-space character of three bytes: U+1680,
/// U+2000 to U+200A, U+2028, U+2029, U+202F, U+205F or U+3000.
pub open spec fn is_wide_space(x: u8, y: u8, z: u8) -> bool {
    ||| x == 0xe1 && y == 0x9a && z == 0x80
    ||| x == 0xe2 && y == 0x80 && (0x80 <= z <= 0x8a || z == 0xa8 || z == 0xa9 || z == 0xaf)
    ||| x == 0xe2 && y == 0x81 && z == 0x9f
    ||| x == 0xe3 && y == 0x80 && z == 0x80
}

/// The number of bytes of the white-space character encoded at offset `i`,
/// or 0 where none is: one byte for U+0009 to U+000D and U+0020, two for
/// U+0085 and U+00A0, three for the others.
pub open spec fn space_width_at(text: Seq<u8>, i: int) -> int {
    if i < 0 || i >= text.len() {
        0
    } else if 0x09 <= text[i] <= 0x0d || text[i] == 0x20 {
        1
    } else if i + 1 < text.len() && text[i] == 0xc2 && (text[i + 1] == 0x85 || text[i + 1]
        == 0xa0) {
        2
    } else if i + 2 < text.len() && is_wide_space(text[i], text[i + 1], text[i + 2]) {
        3
    } else {
        0
    }
}

/// The number of bytes of the white-space character whose encoding ends just
/// in front of offset `i` and starts no earlier than `low`, or 0 where none is.
pub open spec fn space_width_before(text: Seq<u8>, low: int, i: int) -> int {
    if i - 1 >= low && space_width_at(text, i - 1) == 1 {
        1
    } else if i - 2 >= low && space_width_at(text, i - 2) == 2 {
        2
    } else if i - 3 >= low && space_width_at(text, i - 3) == 3 {
        3
    } else {
        0
    }
}

/// The first offset from `i` on at which no white-space character stands.
pub open spec fn trim_start(text: Seq<u8>, i: int) -> int
    decreases text.len() - i,
{
    if space_width_at(text, i) > 0 {
        trim_start(text, i + space_width_at(text, i))
    } else {
        i
    }
}

/// The last offset down from `i`, and not below `low`, in front of which no
/// white-space character ends.
pub open spec fn trim_end(text: Seq<u8>, low: int, i: int) -> int
    decreases i,
{
    if space_width_before(text, low, i) > 0 && i > 0 {
        trim_end(text, low, i - space_width_before(text, low, i))
    } else {
        i
    }
}

/// `text` without the white space at its beginning and at its end.
pub open spec fn trimmed(text: Seq<u8>) -> Seq<u8> {
    let from = trim_start(text, 0);
    let to = trim_end(text, from, text.len() as int);
    text.subrange(from, to)
}

/// The number of bytes of the white-space character encoded at offset `i`, or 0.
pub fn width_at(text: &[u8], i: usize) -> (r: usize)
    ensures
        r == space_width_at(text@, i as int),
{
    let n: usize = text.len();
    if i >= n {
        return 0;
    }
    let x: u8 = text[i];
    if (0x09 <= x && x <= 0x0d) || x == 0x20 {
        return 1;
    }
    if n - i > 1 {
        let y: u8 = text[i + 1];
        if x == 0xc2 && (y == 0x85 || y == 0xa0) {
            return 2;
        }
        if n - i > 2 {
            let z: u8 = text[i + 2];
            if (x == 0xe1 && y == 0x9a && z == 0x80) || (x == 0xe2 && y == 0x80 && ((0x80 <= z
                && z <= 0x8a) || z == 0xa8 || z == 0xa9 || z == 0xaf)) || (x == 0xe2 && y
                == 0x81 && z == 0x9f) || (x == 0xe3 && y == 0x80 && z == 0x80) {
                return 3;
            }
        }
    }
    0
}

/// The number of bytes of the white-space character that ends just in front
/// of offset `i` and starts no earlier than `low`, or 0.
pub fn width_before(text: &[u8], low: usize, i: usize) -> (r: usize)
    ensures
        r == space_width_before(text@, low as int, i as int),
{
    if i >= 1 && i - 1 >= low && width_at(text, i - 1) == 1 {
        1
    } else if i >= 2 && i - 2 >= low && width_at(text, i - 2) == 2 {
        2
    } else if i >= 3 && i - 3 >= low && width_at(text, i - 3) == 3 {
        3
    } else {
        0
    }
}

proof fn lemma_space_is_one_character(bytes: Seq<u8>, i: int)
    requires
        valid_utf8(bytes),
        is_char_boundary(bytes, i),
        space_width_at(bytes, i) > 0,
    ensures
        is_char_boundary(bytes, i + space_width_at(bytes, i)),
{
    lemma_next_boundary(bytes, i);
    let tail = bytes.subrange(i, bytes.len() as int);
    assert(tail[0] == bytes[i]);
}

proof fn lemma_space_starts_character(bytes: Seq<u8>, i: int)
    requires
        valid_utf8(bytes),
        space_width_at(bytes, i) > 0,
    ensures
        is_char_boundary(bytes, i),
{
    is_char_boundary_iff_not_is_continuation_byte(bytes, i);
}

/// `text` without the white space at its beginning and at its end.
pub fn trim(text: &str) -> (r: &str)
    ensures
        r.spec_bytes() == trimmed(text.spec_bytes()),
{
    let bytes = text.as_bytes();
    let n: usize = bytes.len();
    proof {
        encode_utf8_valid_utf8(text@);
        is_char_boundary_start_end_of_seq(bytes@);
    }
    let mut from: usize = 0;
    let mut width: usize = width_at(bytes, from);
    while width > 0
        invariant
            bytes@ == text.spec_bytes(),
            valid_utf8(bytes@),
            n == bytes@.len(),
            from <= n,
            width == space_width_at(bytes@, from as int),
            is_char_boundary(bytes@, from as int),
            trim_start(bytes@, from as int) == trim_start(bytes@, 0),
        decreases n - from,
    {
        proof {
            lemma_space_is_one_character(bytes@, from as int);
        }
        from = from + width;
        width = width_at(bytes, from);
    }
    let mut to: usize = n;
    let mut back: usize = width_before(bytes, from, to);
    while back > 0 && to > 0
        invariant
            bytes@ == text.spec_bytes(),
            valid_utf8(bytes@),
            n == bytes@.len(),
            from <= to <= n,
            back == space_width_before(bytes@, from as int, to as int),
            is_char_boundary(bytes@, to as int),
            trim_end(bytes@, from as int, to as int) == trim_end(bytes@, from as int, n as int),
        decreases to,
    {
        proof {
            lemma_space_starts_character(bytes@, to - back);
        }
        to = to - back;
        back = width_before(bytes, from, to);
    }
    slice_between(text, from, to)
}

} // verus!
