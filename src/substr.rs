//! Views of a byte range of a shared string, which keep their parent alive
//! without copying its text.
use core::cmp::Ordering;
use core::ops::Range;
use vstd::prelude::*;
use vstd::string::StringSliceAdditionalSpecFns;
use vstd::utf8::*;

use crate::arc_str::{fragment_offset, text_addrs, text_len, ArcStr};
use crate::text::{bytes_cmp, bytes_eq, lemma_boundary_in_range, lex_cmp, slice_text, valid_range};

verus! {

/// The largest offset that a view can hold.
pub const IDX_MAX: usize = 0xffff_ffff;

/// An offset narrowed to the index type of views.
pub fn to_idx(i: usize) -> (r: u32)
    requires
        i <= IDX_MAX,
    ensures
        r == i,
{
    i as u32
}

/// An offset narrowed to the index type of views, for ranges that are
/// already known to be valid.
pub fn to_idx_const(i: usize) -> (r: u32)
    requires
        i <= IDX_MAX,
    ensures
        r == i,
{
    i as u32
}

/// Why a range cannot be taken of a string's text.
#[derive(Clone, Copy, Debug, PartialEq, Eq, Structural)]
pub enum BadSubstrRange {
    /// The start lies after the end.
    StartAfterEnd { start: usize, end: usize },
    /// The end lies past the bound: the string's length, or the largest
    /// offset a view can hold where that is smaller.
    EndOutOfRange { end: usize, bound: usize },
    /// A bound falls inside a character.
    NotCharBoundary { start: usize, end: usize },
}

/// The bound that a range's end must keep to in text of `len` bytes.
pub open spec fn end_bound(len: int) -> int {
    if len < IDX_MAX {
        len
    } else {
        IDX_MAX as int
    }
}

/// Why `start..end` is no range that a view of text `bytes` can hold,
/// judged in this order: the order of the bounds, the end against the bound,
/// the character boundaries; `None` where it is one.
pub open spec fn range_error(bytes: Seq<u8>, start: usize, end: usize) -> Option<BadSubstrRange> {
    if start > end {
        Some(BadSubstrRange::StartAfterEnd { start, end })
    } else if end > end_bound(bytes.len() as int) {
        Some(BadSubstrRange::EndOutOfRange { end, bound: end_bound(bytes.len() as int) as usize })
    } else if !(is_char_boundary(bytes, start as int) && is_char_boundary(bytes, end as int)) {
        Some(BadSubstrRange::NotCharBoundary { start, end })
    } else {
        None
    }
}

/// Why `start..end` is no range that a view of `s` can hold; `None` where
/// it is one.
pub fn bad_substr_idx(s: &ArcStr, start: usize, end: usize) -> (r: Option<BadSubstrRange>)
    ensures
        r == range_error(s@, start, end),
        r is None <==> valid_range(s@, start as int, end as int) && end <= IDX_MAX,
{
    text_range_error(s.as_str(), start, end)
}

/// Why `start..end` is no range that a view of `text` can hold; `None`
/// where it is one.
fn text_range_error(text: &str, start: usize, end: usize) -> (r: Option<BadSubstrRange>)
    ensures
        r == range_error(text.spec_bytes(), start, end),
        r is None <==> valid_range(text.spec_bytes(), start as int, end as int) && end <= IDX_MAX,
{
    if start > end {
        return Some(BadSubstrRange::StartAfterEnd { start, end });
    }
    let len = text_len(text);
    let bound = if len < IDX_MAX {
        len
    } else {
        IDX_MAX
    };
    if end > bound {
        return Some(BadSubstrRange::EndOutOfRange { end, bound });
    }
    if !(text.is_char_boundary(start) && text.is_char_boundary(end)) {
        return Some(BadSubstrRange::NotCharBoundary { start, end });
    }
    None
}

/// A shared view of the range `start..end` of a parent string.
#[derive(Debug)]
pub struct Substr(ArcStr, u32, u32);

impl View for Substr {
    type V = Seq<u8>;

    /// The bytes of the viewed range of the parent.
    open spec fn view(&self) -> Seq<u8> {
        self.spec_parent()@.subrange(self.spec_start(), self.spec_end())
    }
}

impl Substr {
    /// The string that the view keeps alive.
    pub closed spec fn spec_parent(&self) -> ArcStr {
        self.0
    }

    /// Where the view starts in its parent.
    pub closed spec fn spec_start(&self) -> int {
        self.1 as int
    }

    /// Where the view ends in its parent.
    pub closed spec fn spec_end(&self) -> int {
        self.2 as int
    }

    /// The range is a valid range of the parent.
    #[verifier::type_invariant]
    closed spec fn inv(&self) -> bool {
        valid_range(self.0@, self.1 as int, self.2 as int)
    }

    /// The view is the canonical empty one: an empty range of the static
    /// empty string, which holds no heap record alive.
    pub open spec fn is_canonical_empty(&self) -> bool {
        &&& self@ == Seq::<u8>::empty()
        &&& self.spec_parent().spec_is_static()
        &&& self.spec_parent()@ == Seq::<u8>::empty()
        &&& self.spec_start() == 0
        &&& self.spec_end() == 0
    }

    /// The view lies over `start..end` of `parent`.
    pub open spec fn views(&self, parent: ArcStr, start: int, end: int) -> bool {
        &&& self.spec_parent() == parent
        &&& self.spec_start() == start
        &&& self.spec_end() == end
        &&& self@ == parent@.subrange(start, end)
    }

    proof fn lemma_inv(&self)
        requires
            self.inv(),
        ensures
            valid_range(self.spec_parent()@, self.spec_start(), self.spec_end()),
            valid_utf8(self.spec_parent()@),
            self@ == self.spec_parent()@.subrange(self.spec_start(), self.spec_end()),
            self@.len() == self.spec_end() - self.spec_start(),
    {
        self.0.lemma_valid_utf8();
    }

    /// The canonical empty view.
    pub fn new() -> (r: Self)
        ensures
            r.is_canonical_empty(),
    {
        let e = ArcStr::new();
        proof {
            e.lemma_valid_utf8();
            is_char_boundary_start_end_of_seq(e@);
        }
        let r = Substr(e, 0, 0);
        assert(r@ =~= Seq::<u8>::empty());
        r
    }

    /// A view of the whole of `a`.
    pub fn full(a: ArcStr) -> (r: Self)
        requires
            a@.len() <= IDX_MAX,
        ensures
            r.views(a, 0, a@.len() as int),
            r@ == a@,
    {
        let l = to_idx(a.len());
        proof {
            a.lemma_valid_utf8();
            is_char_boundary_start_end_of_seq(a@);
        }
        let r = Substr(a, 0, l);
        assert(r@ =~= a@);
        r
    }

    /// A view of `range` of `a`, which must be a valid range whose end the
    /// index type can hold; an empty range gives the canonical empty view.
    pub(crate) fn from_parts(a: &ArcStr, range: Range<usize>) -> (r: Self)
        requires
            valid_range(a@, range.start as int, range.end as int),
            range.end <= IDX_MAX,
        ensures
            r@ == a@.subrange(range.start as int, range.end as int),
            range.start == range.end ==> r.is_canonical_empty(),
            range.start < range.end ==> r.views(*a, range.start as int, range.end as int),
    {
        if range.end == range.start {
            let r = Self::new();
            assert(r@ =~= a@.subrange(range.start as int, range.end as int));
            r
        } else {
            Substr(a.clone(), to_idx(range.start), to_idx(range.end))
        }
    }

    /// A view of `range`, counted from the start of this view, of the same
    /// parent. The range must be valid in this view's text; an empty one gives
    /// the canonical empty view.
    pub fn substr(&self, range: Range<usize>) -> (r: Self)
        requires
            valid_range(self@, range.start as int, range.end as int),
        ensures
            r@ == self@.subrange(range.start as int, range.end as int),
            range.start == range.end ==> r.is_canonical_empty(),
            range.start < range.end ==> r.views(
                self.spec_parent(),
                self.spec_start() + range.start,
                self.spec_start() + range.end,
            ),
    {
        proof {
            use_type_invariant(self);
            self.lemma_inv();
            lemma_boundary_in_range(
                self.0@,
                self.1 as int,
                self.2 as int,
                range.start as int,
            );
            lemma_boundary_in_range(self.0@, self.1 as int, self.2 as int, range.end as int);
        }
        let new_begin = self.1 as usize + range.start;
        let new_end = self.1 as usize + range.end;
        if new_end == new_begin {
            let r = Self::new();
            assert(r@ =~= self@.subrange(range.start as int, range.end as int));
            r
        } else {
            let r = Substr(self.0.clone(), to_idx(new_begin), to_idx(new_end));
            assert(r@ =~= self@.subrange(range.start as int, range.end as int));
            r
        }
    }

    /// The viewed text.
    pub fn as_str(&self) -> (r: &str)
        ensures
            r.spec_bytes() == self@,
    {
        proof {
            use_type_invariant(self);
            self.lemma_inv();
        }
        slice_text(self.0.as_str(), self.1 as usize, self.2 as usize)
    }

    /// The length of the view in bytes.
    pub fn len(&self) -> (r: usize)
        ensures
            r == self@.len(),
    {
        proof {
            use_type_invariant(self);
            self.lemma_inv();
        }
        (self.2 - self.1) as usize
    }

    /// Whether the view is empty.
    pub fn is_empty(&self) -> (r: bool)
        ensures
            r == (self@.len() == 0),
    {
        proof {
            use_type_invariant(self);
            self.lemma_inv();
        }
        self.2 == self.1
    }

    /// An owned copy of the viewed text.
    pub fn to_string(&self) -> (r: String)
        ensures
            encode_utf8(r@) == self@,
    {
        self.as_str().to_owned()
    }

    /// A view of `range` of `s`, which must be a valid range whose end the
    /// index type can hold. An empty range is kept as given.
    pub fn from_parts_unchecked(s: ArcStr, range: Range<usize>) -> (r: Self)
        requires
            valid_range(s@, range.start as int, range.end as int),
            range.end <= IDX_MAX,
        ensures
            r.views(s, range.start as int, range.end as int),
    {
        Substr(s, to_idx_const(range.start), to_idx_const(range.end))
    }

    /// Whether both views share a record and a range. Such views hold the
    /// same text.
    pub fn shallow_eq(this: &Self, o: &Self) -> (r: bool)
        ensures
            r ==> this@ == o@ && this.spec_start() == o.spec_start() && this.spec_end()
                == o.spec_end(),
    {
        ArcStr::ptr_eq(&this.0, &o.0) && (this.1 == o.1) && (this.2 == o.2)
    }

    /// The string that the view keeps alive.
    pub fn parent(&self) -> (r: &ArcStr)
        ensures
            *r == self.spec_parent(),
            valid_range(r@, self.spec_start(), self.spec_end()),
    {
        proof {
            use_type_invariant(self);
        }
        &self.0
    }

    /// The viewed range of the parent.
    pub fn range(&self) -> (r: Range<usize>)
        ensures
            r.start == self.spec_start(),
            r.end == self.spec_end(),
            valid_range(self.spec_parent()@, r.start as int, r.end as int),
            self@.len() == r.end - r.start,
    {
        proof {
            use_type_invariant(self);
            self.lemma_inv();
        }
        (self.1 as usize)..(self.2 as usize)
    }

    /// The view of `len` bytes at `offset`, counted from the start of this
    /// view, where the offset is given and `offset..offset + len` is a valid
    /// range of this view's text; `None` otherwise. An empty range gives the
    /// canonical empty view.
    pub fn view_at(&self, offset: Option<usize>, len: usize) -> (r: Option<Self>)
        ensures
            r is Some <==> (offset matches Some(i) && valid_range(self@, i as int, i + len)),
            r matches Some(v) ==> (offset matches Some(i) && v@ == self@.subrange(
                i as int,
                i + len,
            ) && (len == 0 ==> v.is_canonical_empty()) && (len > 0 ==> v.views(
                self.spec_parent(),
                self.spec_start() + i,
                self.spec_start() + i + len,
            ))),
    {
        match offset {
            None => None,
            Some(i) => {
                let n = self.len();
                if i > n || len > n - i {
                    return None;
                }
                match self.try_substr(i..i + len) {
                    Ok(v) => Some(v),
                    Err(_) => None,
                }
            },
        }
    }

    /// A view over `substr`, a fragment borrowed from this view's own text,
    /// with offsets counted from the start of this view: its text is the
    /// fragment's. `None` where `substr` does not lie in that text. An empty
    /// fragment gives the canonical empty view.
    pub fn try_substr_from(&self, substr: &str) -> (r: Option<Substr>)
        ensures
            substr.spec_bytes().len() == 0 ==> (r matches Some(v) && v.is_canonical_empty()),
            r matches Some(v) ==> v@ == substr.spec_bytes(),
            substr.spec_bytes().len() > 0 ==> (r matches Some(v) ==> v.views(
                self.spec_parent(),
                v.spec_start(),
                v.spec_end(),
            ) && self.spec_start() <= v.spec_start() && v.spec_end() <= self.spec_end()),
    {
        let n = text_len(substr);
        if n == 0 {
            let e = Substr::new();
            assert(e@ =~= substr.spec_bytes());
            return Some(e);
        }
        proof {
            use_type_invariant(self);
            self.lemma_inv();
        }
        let (p, q) = text_addrs(self.as_str(), substr);
        self.view_at(fragment_offset(p, self.len(), q, n), n)
    }

    /// A view of `range`, counted from the start of this view, as
    /// [`Substr::substr`] gives it; or why `range` is no valid range of this
    /// view's text.
    pub fn try_substr(&self, range: Range<usize>) -> (r: Result<Self, BadSubstrRange>)
        ensures
            r is Ok <==> valid_range(self@, range.start as int, range.end as int),
            r matches Err(e) ==> Some(e) == range_error(self@, range.start, range.end),
            r matches Ok(v) ==> v@ == self@.subrange(range.start as int, range.end as int),
            r matches Ok(v) ==> (range.start == range.end ==> v.is_canonical_empty()),
            r matches Ok(v) ==> (range.start < range.end ==> v.views(
                self.spec_parent(),
                self.spec_start() + range.start,
                self.spec_start() + range.end,
            )),
    {
        proof {
            use_type_invariant(self);
            self.lemma_inv();
        }
        match text_range_error(self.as_str(), range.start, range.end) {
            Some(e) => Err(e),
            None => Ok(self.substr(range)),
        }
    }

    /// A view over the fragment that `f` picks out of this view's text, as
    /// [`Substr::try_substr_from`] gives it for that fragment.
    pub fn try_substr_using<F: FnOnce(&str) -> &str>(&self, f: F) -> (r: Option<Self>)
        requires
            forall|s: &str| s.spec_bytes() == self@ ==> #[trigger] f.requires((s,)),
        ensures
            exists|s: &str, frag: &str|
                {
                    &&& s.spec_bytes() == self@
                    &&& #[trigger] f.ensures((s,), frag)
                    &&& frag.spec_bytes().len() == 0 ==> (r matches Some(v)
                        && v.is_canonical_empty())
                    &&& r matches Some(v) ==> v@ == frag.spec_bytes()
                    &&& frag.spec_bytes().len() > 0 ==> (r matches Some(v) ==> v.views(
                        self.spec_parent(),
                        v.spec_start(),
                        v.spec_end(),
                    ) && self.spec_start() <= v.spec_start() && v.spec_end()
                        <= self.spec_end())
                },
    {
        let text = self.as_str();
        let frag = f(text);
        let r = self.try_substr_from(frag);
        assert(text.spec_bytes() == self@ && f.ensures((text,), frag));
        r
    }
}

impl AsRef<str> for Substr {
    fn as_ref(&self) -> &str {
        self.as_str()
    }
}

impl AsRef<[u8]> for Substr {
    fn as_ref(&self) -> &[u8] {
        self.as_str().as_bytes()
    }
}

impl core::borrow::Borrow<str> for Substr {
    fn borrow(&self) -> &str {
        self.as_str()
    }
}

/// Slicing a slice is slicing once: where `c..d` is a valid range of the
/// text of `a..b` of a string, `a + c..a + d` is a valid range of the string,
/// and it holds the same text.
pub proof fn lemma_slice_of_slice(h: ArcStr, a: int, b: int, c: int, d: int)
    requires
        valid_range(h@, a, b),
        valid_range(h@.subrange(a, b), c, d),
    ensures
        valid_range(h@, a + c, a + d),
        a + d <= b,
        h@.subrange(a, b).subrange(c, d) == h@.subrange(a + c, a + d),
{
    h.lemma_valid_utf8();
    lemma_boundary_in_range(h@, a, b, c);
    lemma_boundary_in_range(h@, a, b, d);
    assert(h@.subrange(a, b).subrange(c, d) =~= h@.subrange(a + c, a + d));
}

impl core::ops::Deref for Substr {
    type Target = str;

    fn deref(&self) -> (r: &str)
        ensures
            r.spec_bytes() == self@,
    {
        self.as_str()
    }
}

impl core::hash::Hash for Substr {
    fn hash<H: core::hash::Hasher>(&self, state: &mut H) {
        crate::arc_str::hash_text(self.as_str(), state)
    }
}

impl Ord for Substr {
    /// Relies on `<str as Ord>::cmp`: byte-wise lexicographic order.
    #[verifier::external_body]
    fn cmp(&self, o: &Self) -> Ordering {
        self.as_str().cmp(o.as_str())
    }
}

impl Clone for Substr {
    fn clone(&self) -> (r: Self)
        ensures
            r == *self,
    {
        proof {
            use_type_invariant(self);
        }
        Substr(self.0.clone(), self.1, self.2)
    }
}

impl Default for Substr {
    fn default() -> (r: Self)
        ensures
            r.is_canonical_empty(),
    {
        Self::new()
    }
}

impl PartialEq for Substr {
    /// Same record and range, or else the same bytes.
    fn eq(&self, o: &Self) -> (r: bool) {
        Substr::shallow_eq(self, o) || bytes_eq(self.as_str().as_bytes(), o.as_str().as_bytes())
    }
}

impl vstd::std_specs::cmp::PartialEqSpecImpl for Substr {
    open spec fn obeys_eq_spec() -> bool {
        true
    }

    open spec fn eq_spec(&self, o: &Substr) -> bool {
        self@ == o@
    }
}

impl Eq for Substr {}

impl PartialOrd for Substr {
    fn partial_cmp(&self, o: &Self) -> (r: Option<Ordering>) {
        Some(bytes_cmp(self.as_str().as_bytes(), o.as_str().as_bytes()))
    }
}

impl vstd::std_specs::cmp::PartialOrdSpecImpl for Substr {
    open spec fn obeys_partial_cmp_spec() -> bool {
        true
    }

    open spec fn partial_cmp_spec(&self, o: &Substr) -> Option<Ordering> {
        Some(lex_cmp(self@, o@))
    }
}

} // verus!
