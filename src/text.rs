//! Byte-level facts and operations on UTF-8 text: valid ranges, slicing,
//! equality and lexicographic order.
use core::cmp::Ordering;
use vstd::prelude::*;
use vstd::string::StringSliceAdditionalSpecFns;
use vstd::utf8::*;

verus! {

/// `start..end` lies within `bytes` and both ends fall on character
/// boundaries.
pub open spec fn valid_range(bytes: Seq<u8>, start: int, end: int) -> bool {
    &&& 0 <= start <= end <= bytes.len()
    &&& is_char_boundary(bytes, start)
    &&& is_char_boundary(bytes, end)
}

/// Byte-wise lexicographic order, the order of `str`.
pub open spec fn lex_cmp(a: Seq<u8>, b: Seq<u8>) -> Ordering
    decreases a.len(),
{
    if a.len() == 0 {
        if b.len() == 0 {
            Ordering::Equal
        } else {
            Ordering::Less
        }
    } else if b.len() == 0 {
        Ordering::Greater
    } else if a[0] < b[0] {
        Ordering::Less
    } else if a[0] > b[0] {
        Ordering::Greater
    } else {
        lex_cmp(a.drop_first(), b.drop_first())
    }
}

/// A suffix of valid UTF-8 that starts on a boundary has its boundaries
/// where the whole has them, shifted.
proof fn lemma_boundary_in_suffix(bytes: Seq<u8>, start: int, j: int)
    requires
        valid_utf8(bytes),
        0 <= start <= bytes.len(),
        is_char_boundary(bytes, start),
        0 <= j <= bytes.len() - start,
    ensures
        valid_utf8(bytes.subrange(start, bytes.len() as int)),
        is_char_boundary(bytes.subrange(start, bytes.len() as int), j) <==> is_char_boundary(
            bytes,
            start + j,
        ),
{
    let tail = bytes.subrange(start, bytes.len() as int);
    valid_utf8_split(bytes, start);
    if j < tail.len() {
        assert(tail[j] == bytes[start + j]);
        is_char_boundary_iff_not_is_continuation_byte(tail, j);
        is_char_boundary_iff_not_is_continuation_byte(bytes, start + j);
    } else {
        is_char_boundary_start_end_of_seq(tail);
        is_char_boundary_start_end_of_seq(bytes);
    }
}

/// A prefix of valid UTF-8 that ends on a boundary has its boundaries where
/// the whole has them.
proof fn lemma_boundary_in_prefix(bytes: Seq<u8>, end: int, i: int)
    requires
        valid_utf8(bytes),
        0 <= end <= bytes.len(),
        is_char_boundary(bytes, end),
        0 <= i <= end,
    ensures
        valid_utf8(bytes.subrange(0, end)),
        is_char_boundary(bytes.subrange(0, end), i) <==> is_char_boundary(bytes, i),
{
    let head = bytes.subrange(0, end);
    valid_utf8_split(bytes, end);
    if i < end {
        assert(head[i] == bytes[i]);
        is_char_boundary_iff_not_is_continuation_byte(head, i);
        is_char_boundary_iff_not_is_continuation_byte(bytes, i);
    } else {
        is_char_boundary_start_end_of_seq(head);
    }
}

/// Inside a valid range of valid UTF-8, an offset is a character boundary of
/// the range exactly where the matching offset of the whole is one.
pub proof fn lemma_boundary_in_range(bytes: Seq<u8>, start: int, end: int, i: int)
    requires
        valid_utf8(bytes),
        valid_range(bytes, start, end),
        0 <= i <= end - start,
    ensures
        valid_utf8(bytes.subrange(start, end)),
        is_char_boundary(bytes.subrange(start, end), i) <==> is_char_boundary(bytes, start + i),
{
    let tail = bytes.subrange(start, bytes.len() as int);
    lemma_boundary_in_suffix(bytes, start, end - start);
    lemma_boundary_in_suffix(bytes, start, i);
    lemma_boundary_in_prefix(tail, end - start, i);
    assert(tail.subrange(0, end - start) =~= bytes.subrange(start, end));
}

/// The text of a valid range of a string.
pub fn slice_text(s: &str, start: usize, end: usize) -> (r: &str)
    requires
        valid_utf8(s.spec_bytes()),
        valid_range(s.spec_bytes(), start as int, end as int),
    ensures
        r.spec_bytes() == s.spec_bytes().subrange(start as int, end as int),
{
    let ghost bytes = s.spec_bytes();
    let (head, _) = s.split_at(end);
    proof {
        lemma_boundary_in_range(bytes, 0, end as int, start as int);
        assert(bytes.subrange(0, end as int) == head.spec_bytes());
    }
    let (_, mid) = head.split_at(start);
    assert(mid.spec_bytes() =~= bytes.subrange(start as int, end as int));
    mid
}

/// Whether two byte strings are equal.
pub fn bytes_eq(a: &[u8], b: &[u8]) -> (r: bool)
    ensures
        r == (a@ == b@),
{
    if a.len() != b.len() {
        return false;
    }
    let mut i: usize = 0;
    while i < a.len()
        invariant
            a@.len() == b@.len(),
            0 <= i <= a@.len(),
            a@.subrange(0, i as int) == b@.subrange(0, i as int),
        decreases a@.len() - i,
    {
        if a[i] != b[i] {
            return false;
        }
        assert(a@.subrange(0, i + 1) =~= a@.subrange(0, i as int).push(a@[i as int]));
        assert(b@.subrange(0, i + 1) =~= b@.subrange(0, i as int).push(b@[i as int]));
        i = i + 1;
    }
    assert(a@ =~= a@.subrange(0, i as int));
    assert(b@ =~= b@.subrange(0, i as int));
    true
}

/// Byte-wise lexicographic comparison.
pub fn bytes_cmp(a: &[u8], b: &[u8]) -> (r: Ordering)
    ensures
        r == lex_cmp(a@, b@),
{
    let mut i: usize = 0;
    assert(a@.skip(0) =~= a@);
    assert(b@.skip(0) =~= b@);
    while i < a.len() && i < b.len()
        invariant
            0 <= i <= a@.len(),
            i <= b@.len(),
            lex_cmp(a@, b@) == lex_cmp(a@.skip(i as int), b@.skip(i as int)),
        decreases a@.len() - i,
    {
        if a[i] < b[i] {
            return Ordering::Less;
        }
        if a[i] > b[i] {
            return Ordering::Greater;
        }
        assert(a@.skip(i as int).drop_first() =~= a@.skip(i + 1));
        assert(b@.skip(i as int).drop_first() =~= b@.skip(i + 1));
        i = i + 1;
    }
    if i < a.len() {
        Ordering::Greater
    } else if i < b.len() {
        Ordering::Less
    } else {
        Ordering::Equal
    }
}

} // verus!
