//! Occurrences of a byte pattern in a byte text, and the pieces a text falls
//! into when it is cut at them.

use vstd::prelude::*;

verus! {

/// `pat` stands in `text` at offset `i`.
pub open spec fn occurs_at(text: Seq<u8>, pat: Seq<u8>, i: int) -> bool {
    0 <= i && i + pat.len() <= text.len() && text.subrange(i, i + pat.len()) == pat
}

/// `pat` stands somewhere in `text`.
pub open spec fn occurs(text: Seq<u8>, pat: Seq<u8>) -> bool {
    exists|i: int| occurs_at(text, pat, i)
}

/// `i` is the leftmost offset at which `pat` stands in `text`.
pub open spec fn is_first_occurrence(text: Seq<u8>, pat: Seq<u8>, i: int) -> bool {
    occurs_at(text, pat, i) && forall|j: int| 0 <= j < i ==> !occurs_at(text, pat, j)
}

/// The leftmost offset at which `pat` stands in `text`; meaningful when `occurs(text, pat)`.
pub open spec fn first_occurrence(text: Seq<u8>, pat: Seq<u8>) -> int {
    choose|i: int| is_first_occurrence(text, pat, i)
}

/// The text in front of the leftmost occurrence of `pat`.
pub open spec fn before_first(text: Seq<u8>, pat: Seq<u8>) -> Seq<u8> {
    text.subrange(0, first_occurrence(text, pat))
}

/// The text behind the leftmost occurrence of `pat`.
pub open spec fn after_first(text: Seq<u8>, pat: Seq<u8>) -> Seq<u8> {
    text.subrange(first_occurrence(text, pat) + pat.len(), text.len() as int)
}

/// `text` begins with `prefix`.
pub open spec fn starts_with(text: Seq<u8>, prefix: Seq<u8>) -> bool {
    occurs_at(text, prefix, 0)
}

/// The pieces between successive occurrences of a non-empty `pat`, scanning from
/// the left; an empty piece at the very end is left out, so a text that ends
/// with `pat` gives the same pieces as the text without that ending.
pub open spec fn split_terminator(text: Seq<u8>, pat: Seq<u8>) -> Seq<Seq<u8>>
    decreases text.len(),
    via split_terminator_decreases
{
    if text.len() == 0 {
        seq![]
    } else if pat.len() > 0 && occurs(text, pat) {
        seq![before_first(text, pat)] + split_terminator(after_first(text, pat), pat)
    } else {
        seq![text]
    }
}

#[via_fn]
proof fn split_terminator_decreases(text: Seq<u8>, pat: Seq<u8>) {
    if text.len() != 0 && pat.len() > 0 && occurs(text, pat) {
        lemma_first_occurrence(text, pat);
    }
}

/// How many times a non-empty `pat` is met when scanning `text` from the left,
/// each scan resuming behind the occurrence just found.
pub open spec fn count_occurrences(text: Seq<u8>, pat: Seq<u8>) -> nat
    decreases text.len(),
    via count_occurrences_decreases
{
    if pat.len() > 0 && occurs(text, pat) {
        1 + count_occurrences(after_first(text, pat), pat)
    } else {
        0
    }
}

#[via_fn]
proof fn count_occurrences_decreases(text: Seq<u8>, pat: Seq<u8>) {
    if pat.len() > 0 && occurs(text, pat) {
        lemma_first_occurrence(text, pat);
    }
}

proof fn lemma_least_occurrence(text: Seq<u8>, pat: Seq<u8>, i: int)
    requires
        occurs_at(text, pat, i),
    ensures
        exists|k: int| is_first_occurrence(text, pat, k),
    decreases i,
{
    if forall|j: int| 0 <= j < i ==> !occurs_at(text, pat, j) {
        assert(is_first_occurrence(text, pat, i));
    } else {
        let j = choose|j: int| 0 <= j < i && occurs_at(text, pat, j);
        lemma_least_occurrence(text, pat, j);
    }
}

/// Where `pat` occurs at all, `first_occurrence` is its leftmost occurrence.
pub proof fn lemma_first_occurrence(text: Seq<u8>, pat: Seq<u8>)
    requires
        occurs(text, pat),
    ensures
        is_first_occurrence(text, pat, first_occurrence(text, pat)),
{
    let i = choose|i: int| occurs_at(text, pat, i);
    lemma_least_occurrence(text, pat, i);
}

/// The leftmost occurrence is unique.
pub proof fn lemma_first_occurrence_is(text: Seq<u8>, pat: Seq<u8>, i: int)
    requires
        is_first_occurrence(text, pat, i),
    ensures
        occurs(text, pat),
        first_occurrence(text, pat) == i,
{
    lemma_first_occurrence(text, pat);
}

/// The second of the pieces that `split_terminator` gives, if there are two.
pub open spec fn second_piece(text: Seq<u8>, sep: Seq<u8>) -> Option<Seq<u8>> {
    let pieces = split_terminator(text, sep);
    if pieces.len() >= 2 {
        Some(pieces[1])
    } else {
        None
    }
}

/// The second piece is what follows the first separator, up to the next
/// separator or the end; it exists exactly when something follows the first
/// separator.
pub proof fn lemma_second_piece(text: Seq<u8>, sep: Seq<u8>)
    ensures
        second_piece(text, sep) == if sep.len() > 0 && occurs(text, sep) && after_first(
            text,
            sep,
        ).len() > 0 {
            let rest = after_first(text, sep);
            if occurs(rest, sep) {
                Some(before_first(rest, sep))
            } else {
                Some(rest)
            }
        } else {
            None
        },
{
    if sep.len() > 0 && occurs(text, sep) {
        lemma_first_occurrence(text, sep);
        let rest = after_first(text, sep);
        let tail = split_terminator(rest, sep);
        assert(split_terminator(text, sep) == seq![before_first(text, sep)] + tail);
        if rest.len() > 0 {
            assert(tail.len() >= 1);
            assert(split_terminator(text, sep)[1] == tail[0]);
        }
    }
}

/// The ASCII lower-case form of a byte: `A` to `Z` become `a` to `z`, every
/// other byte stays.
pub open spec fn ascii_lower(b: u8) -> u8 {
    if 0x41 <= b <= 0x5a {
        (b + 0x20) as u8
    } else {
        b
    }
}

/// `text` with every byte in its ASCII lower-case form.
pub open spec fn lowered(text: Seq<u8>) -> Seq<u8> {
    Seq::new(text.len(), |i: int| ascii_lower(text[i]))
}

/// The ASCII lower-case form of `b`.
pub fn to_ascii_lower(b: u8) -> (r: u8)
    ensures
        r == ascii_lower(b),
{
    if 0x41 <= b && b <= 0x5a {
        b + 0x20
    } else {
        b
    }
}

/// `true` exactly when `text`, taken in ASCII lower case, begins with `prefix`.
pub fn starts_with_lowered(text: &[u8], prefix: &[u8]) -> (r: bool)
    ensures
        r == starts_with(lowered(text@), prefix@),
{
    if prefix.len() > text.len() {
        return false;
    }
    let mut k: usize = 0;
    while k < prefix.len()
        invariant
            k <= prefix@.len() <= text@.len(),
            forall|m: int| 0 <= m < k ==> ascii_lower(text@[m]) == prefix@[m],
        decreases prefix@.len() - k,
    {
        if to_ascii_lower(text[k]) != prefix[k] {
            assert(lowered(text@).subrange(0, prefix@.len() as int)[k as int] != prefix@[k as int]);
            return false;
        }
        k += 1;
    }
    assert(lowered(text@).subrange(0, prefix@.len() as int) =~= prefix@);
    true
}

/// `true` exactly when `text`, taken in ASCII lower case, equals `other`.
pub fn equals_lowered(text: &[u8], other: &[u8]) -> (r: bool)
    ensures
        r == (lowered(text@) == other@),
{
    if text.len() != other.len() {
        return false;
    }
    let r = starts_with_lowered(text, other);
    assert(lowered(text@).subrange(0, other@.len() as int) =~= lowered(text@));
    r
}

/// `true` exactly when the two texts hold the same bytes.
pub fn equal_bytes(a: &[u8], b: &[u8]) -> (r: bool)
    ensures
        r == (a@ == b@),
{
    if a.len() != b.len() {
        return false;
    }
    let r = matches_at(a, b, 0);
    assert(a@.subrange(0, b@.len() as int) =~= a@);
    r
}

/// `true` exactly when `text` begins with `prefix`.
pub fn has_prefix(text: &[u8], prefix: &[u8]) -> (r: bool)
    ensures
        r == starts_with(text@, prefix@),
{
    if prefix.len() > text.len() {
        return false;
    }
    matches_at(text, prefix, 0)
}

/// `true` exactly when `pat` stands in `text` at offset `i`.
pub fn matches_at(text: &[u8], pat: &[u8], i: usize) -> (r: bool)
    ensures
        r == occurs_at(text@, pat@, i as int),
{
    let n: usize = text.len();
    if pat.len() > n || i > n - pat.len() {
        return false;
    }
    let mut k: usize = 0;
    while k < pat.len()
        invariant
            k <= pat@.len(),
            i + pat@.len() <= text@.len(),
            n == text@.len(),
            forall|m: int| 0 <= m < k ==> text@[i + m] == pat@[m],
        decreases pat@.len() - k,
    {
        if text[i + k] != pat[k] {
            assert(text@.subrange(i as int, i + pat@.len())[k as int] != pat@[k as int]);
            return false;
        }
        k += 1;
    }
    assert(text@.subrange(i as int, i + pat@.len()) =~= pat@);
    true
}

/// The leftmost offset at which `pat` stands in `text`, if it stands there at all.
pub fn find(text: &[u8], pat: &[u8]) -> (r: Option<usize>)
    ensures
        r is Some <==> occurs(text@, pat@),
        r matches Some(i) ==> i == first_occurrence(text@, pat@),
{
    if pat.len() > text.len() {
        return None;
    }
    let last: usize = text.len() - pat.len();
    let mut i: usize = 0;
    while i <= last
        invariant
            last + pat@.len() == text@.len(),
            i <= last + 1,
            forall|j: int| 0 <= j < i ==> !occurs_at(text@, pat@, j),
        decreases last + 1 - i,
    {
        if matches_at(text, pat, i) {
            proof {
                lemma_first_occurrence_is(text@, pat@, i as int);
            }
            return Some(i);
        }
        if i == last {
            return None;
        }
        i += 1;
    }
    None
}

} // verus!
