//! Cutting string slices at byte offsets that are known to fall between characters.

use vstd::prelude::*;
use vstd::string::*;
use vstd::utf8::*;
use crate::search::{
    after_first, before_first, count_occurrences, find, lemma_first_occurrence,
    lemma_second_piece, occurs, occurs_at, second_piece, split_terminator,
};

verus! {

/// In well-formed UTF-8, the character that starts at a boundary ends at a boundary.
pub proof fn lemma_next_boundary(bytes: Seq<u8>, i: int)
    requires
        valid_utf8(bytes),
        is_char_boundary(bytes, i),
        0 <= i < bytes.len(),
    ensures
        valid_first_scalar(bytes.subrange(i, bytes.len() as int)),
        i + length_of_first_scalar(bytes.subrange(i, bytes.len() as int)) <= bytes.len(),
        is_char_boundary(
            bytes,
            i + length_of_first_scalar(bytes.subrange(i, bytes.len() as int)),
        ),
{
    valid_utf8_split(bytes, i);
    let tail = bytes.subrange(i, bytes.len() as int);
    assert(tail.len() > 0);
    assert(valid_first_scalar(tail) && valid_utf8(pop_first_scalar(tail)));
    let width = length_of_first_scalar(tail);
    let rest = pop_first_scalar(tail);
    assert(rest =~= bytes.subrange(i + width, bytes.len() as int));
    if i + width < bytes.len() {
        assert(rest.len() > 0);
        assert(rest[0] == bytes[i + width]);
        assert(valid_first_scalar(rest));
        is_char_boundary_iff_not_is_continuation_byte(bytes, i + width);
    } else {
        is_char_boundary_start_end_of_seq(bytes);
    }
}

/// Where well-formed UTF-8 holds a well-formed pattern at a boundary, the
/// pattern ends at a boundary too.
pub proof fn lemma_boundary_after_occurrence(bytes: Seq<u8>, pat: Seq<u8>, i: int)
    requires
        valid_utf8(bytes),
        valid_utf8(pat),
        is_char_boundary(bytes, i),
        occurs_at(bytes, pat, i),
    ensures
        is_char_boundary(bytes, i + pat.len()),
    decreases pat.len(),
{
    if pat.len() > 0 {
        let tail = bytes.subrange(i, bytes.len() as int);
        assert(tail[0] == bytes.subrange(i, i + pat.len())[0]);
        lemma_next_boundary(bytes, i);
        let width = length_of_first_scalar(pat);
        assert(width == length_of_first_scalar(tail));
        let rest = pop_first_scalar(pat);
        assert(bytes.subrange(i + width, i + width + rest.len()) =~= rest) by {
            assert forall|k: int| 0 <= k < rest.len() implies bytes[i + width + k] == rest[k] by {
                assert(bytes.subrange(i, i + pat.len())[width + k] == pat[width + k]);
            }
        }
        lemma_boundary_after_occurrence(bytes, rest, i + width);
    }
}

/// Where well-formed UTF-8 holds a well-formed, non-empty pattern, the pattern
/// starts at a boundary.
pub proof fn lemma_boundary_at_occurrence(bytes: Seq<u8>, pat: Seq<u8>, i: int)
    requires
        valid_utf8(bytes),
        valid_utf8(pat),
        pat.len() > 0,
        occurs_at(bytes, pat, i),
    ensures
        is_char_boundary(bytes, i),
{
    assert(bytes[i] == bytes.subrange(i, i + pat.len())[0]);
    is_char_boundary_iff_not_is_continuation_byte(bytes, i);
}

/// Cuts `text` at the leftmost occurrence of `pat`: what stands in front of it
/// and what stands behind it. `None` exactly when `pat` does not occur.
pub fn split_once<'a>(text: &'a str, pat: &str) -> (r: Option<(&'a str, &'a str)>)
    ensures
        r is Some <==> occurs(text.spec_bytes(), pat.spec_bytes()),
        r matches Some((head, tail)) ==> {
            &&& head.spec_bytes() == before_first(text.spec_bytes(), pat.spec_bytes())
            &&& tail.spec_bytes() == after_first(text.spec_bytes(), pat.spec_bytes())
        },
{
    let pat_bytes = pat.as_bytes();
    match find(text.as_bytes(), pat_bytes) {
        None => None,
        Some(at) => {
            let ghost bytes = text.spec_bytes();
            proof {
                lemma_first_occurrence(bytes, pat.spec_bytes());
                encode_utf8_valid_utf8(text@);
                encode_utf8_valid_utf8(pat@);
                if pat.spec_bytes().len() > 0 {
                    lemma_boundary_at_occurrence(bytes, pat.spec_bytes(), at as int);
                } else {
                    assert(bytes.subrange(0, 0) =~= pat.spec_bytes());
                    assert(occurs_at(bytes, pat.spec_bytes(), 0));
                }
            }
            let (head, rest) = text.split_at(at);
            proof {
                encode_utf8_valid_utf8(rest@);
                assert(rest.spec_bytes().subrange(0, pat.spec_bytes().len() as int)
                    =~= bytes.subrange(at as int, at + pat.spec_bytes().len()));
                lemma_boundary_after_occurrence(rest.spec_bytes(), pat.spec_bytes(), 0);
            }
            let (_, tail) = rest.split_at(pat_bytes.len());
            assert(tail.spec_bytes() =~= after_first(bytes, pat.spec_bytes()));
            Some((head, tail))
        },
    }
}

/// The encoding of a text made of two parts is the encoding of the first part
/// followed by that of the second.
pub proof fn lemma_encode_concat(a: Seq<char>, b: Seq<char>)
    ensures
        encode_utf8(a + b) == encode_utf8(a) + encode_utf8(b),
    decreases a.len(),
{
    if a.len() == 0 {
        assert(a + b =~= b);
        assert(encode_utf8(a) + encode_utf8(b) =~= encode_utf8(b));
    } else {
        lemma_encode_concat(a.drop_first(), b);
        assert((a + b).drop_first() =~= a.drop_first() + b);
        assert((a + b)[0] == a[0]);
        assert(encode_utf8(a + b) =~= encode_utf8(a) + encode_utf8(b));
    }
}

/// The part of `text` between two byte offsets that fall between characters.
pub(crate) fn slice_between(text: &str, from: usize, to: usize) -> (r: &str)
    requires
        from <= to <= text.spec_bytes().len(),
        is_char_boundary(text.spec_bytes(), from as int),
        is_char_boundary(text.spec_bytes(), to as int),
    ensures
        r.spec_bytes() == text.spec_bytes().subrange(from as int, to as int),
{
    let ghost bytes = text.spec_bytes();
    proof {
        encode_utf8_valid_utf8(text@);
    }
    let (head, _) = text.split_at(to);
    proof {
        encode_utf8_valid_utf8(head@);
        if from < to {
            is_char_boundary_iff_not_is_continuation_byte(bytes, from as int);
            assert(head.spec_bytes()[from as int] == bytes[from as int]);
            is_char_boundary_iff_not_is_continuation_byte(head.spec_bytes(), from as int);
        } else {
            is_char_boundary_start_end_of_seq(head.spec_bytes());
        }
    }
    let (_, middle) = head.split_at(from);
    assert(middle.spec_bytes() =~= bytes.subrange(from as int, to as int));
    middle
}

/// The bytes of each line of a list of string slices.
pub open spec fn line_bytes(lines: Seq<&str>) -> Seq<Seq<u8>> {
    Seq::new(lines.len(), |i: int| lines[i].spec_bytes())
}

/// The second of the pieces into which `sep` cuts `text`, if there are two.
pub fn second_piece_of<'a>(text: &'a str, sep: &str) -> (r: Option<&'a str>)
    ensures
        r is Some <==> second_piece(text.spec_bytes(), sep.spec_bytes()) is Some,
        r matches Some(piece) ==> Some(piece.spec_bytes()) == second_piece(
            text.spec_bytes(),
            sep.spec_bytes(),
        ),
{
    proof {
        lemma_second_piece(text.spec_bytes(), sep.spec_bytes());
    }
    if sep.as_bytes().len() == 0 {
        return None;
    }
    match split_once(text, sep) {
        None => None,
        Some((_, rest)) => {
            if rest.as_bytes().len() == 0 {
                None
            } else {
                match split_once(rest, sep) {
                    None => Some(rest),
                    Some((piece, _)) => Some(piece),
                }
            }
        },
    }
}

/// How many times `pat` is met in `text`, scanning from the left and resuming
/// behind each occurrence.
pub fn count_matches(text: &str, pat: &str) -> (r: usize)
    ensures
        r == count_occurrences(text.spec_bytes(), pat.spec_bytes()),
{
    if pat.as_bytes().len() == 0 {
        return 0;
    }
    let ghost total = count_occurrences(text.spec_bytes(), pat.spec_bytes());
    let limit: usize = text.as_bytes().len();
    let mut count: usize = 0;
    let mut rest: &str = text;
    let mut done: bool = false;
    while !done
        invariant
            pat.spec_bytes().len() > 0,
            limit == text.spec_bytes().len(),
            count + rest.spec_bytes().len() <= text.spec_bytes().len(),
            !done ==> count + count_occurrences(rest.spec_bytes(), pat.spec_bytes()) == total,
            done ==> count == total,
        decreases
            (if done { 0 } else { rest.spec_bytes().len() + 1 }),
    {
        let ghost before = rest.spec_bytes();
        match split_once(rest, pat) {
            None => {
                done = true;
            },
            Some((_, tail)) => {
                proof {
                    lemma_first_occurrence(before, pat.spec_bytes());
                }
                count += 1;
                rest = tail;
            },
        }
    }
    count
}

/// The pieces into which `pat` cuts `text`, without an empty piece at the end.
pub fn split_pieces<'a>(text: &'a str, pat: &str) -> (r: Vec<&'a str>)
    ensures
        line_bytes(r@) == split_terminator(text.spec_bytes(), pat.spec_bytes()),
{
    let ghost total = split_terminator(text.spec_bytes(), pat.spec_bytes());
    let mut pieces: Vec<&'a str> = Vec::new();
    if pat.as_bytes().len() == 0 {
        if text.as_bytes().len() > 0 {
            pieces.push(text);
        }
        assert(line_bytes(pieces@) =~= total);
        return pieces;
    }
    let mut rest: &'a str = text;
    let mut done: bool = false;
    assert(line_bytes(pieces@) + total =~= total);
    while !done
        invariant
            pat.spec_bytes().len() > 0,
            !done ==> line_bytes(pieces@) + split_terminator(
                rest.spec_bytes(),
                pat.spec_bytes(),
            ) == total,
            done ==> line_bytes(pieces@) == total,
        decreases
            (if done { 0 } else { rest.spec_bytes().len() + 1 }),
    {
        let ghost before = rest.spec_bytes();
        let ghost so_far = line_bytes(pieces@);
        if rest.as_bytes().len() == 0 {
            assert(so_far + Seq::<Seq<u8>>::empty() =~= so_far);
            done = true;
        } else {
            match split_once(rest, pat) {
                None => {
                    pieces.push(rest);
                    assert(line_bytes(pieces@) =~= so_far + seq![before]);
                    done = true;
                },
                Some((head, tail)) => {
                    proof {
                        lemma_first_occurrence(before, pat.spec_bytes());
                    }
                    pieces.push(head);
                    assert(line_bytes(pieces@) =~= so_far + seq![head.spec_bytes()]);
                    assert(line_bytes(pieces@) + split_terminator(
                        tail.spec_bytes(),
                        pat.spec_bytes(),
                    ) =~= so_far + (seq![head.spec_bytes()] + split_terminator(
                        tail.spec_bytes(),
                        pat.spec_bytes(),
                    )));
                    rest = tail;
                },
            }
        }
    }
    pieces
}

} // verus!
