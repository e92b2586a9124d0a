//! The shared string handle: one value type over two kinds of record, a
//! static one that is never counted or freed, and a heap one that is shared
//! through an atomic count.
use core::cmp::Ordering;
use core::ops::Range;
use std::sync::Arc;
use vstd::prelude::*;
use vstd::string::StringSliceAdditionalSpecFns;
use vstd::utf8::*;

use crate::header::LenFlags;
use crate::substr::{bad_substr_idx, range_error, BadSubstrRange, Substr, IDX_MAX};
use crate::text::{bytes_cmp, bytes_eq, lex_cmp, valid_range};

verus! {

/// A record in static memory: the header, a count field that is never used
/// as a counter, and the text.
#[derive(Debug)]
pub struct StaticArcStrInner<Buf> {
    pub len_flags: usize,
    pub count: usize,
    pub data: Buf,
}

/// The heap record: the header and the text. Its count is the strong count
/// of the `Arc` that holds it.
#[derive(Debug)]
struct ThinInner {
    len_flags: LenFlags,
    data: String,
}

#[derive(Debug)]
enum Record {
    Static(StaticArcStrInner<&'static str>),
    Heap(Arc<ThinInner>),
}

/// An immutable string shared by reference counting, whose literals cost
/// neither an allocation nor an atomic operation.
#[derive(Debug)]
pub struct ArcStr {
    rec: Record,
}

/// Relies on `str::len`: the byte length, which for any string in memory is
/// at most `isize::MAX`.
#[verifier::external_body]
pub(crate) fn text_len(s: &str) -> (r: usize)
    ensures
        r == s.spec_bytes().len(),
        r <= isize::MAX,
{
    s.len()
}

/// Relies on `Arc::clone`: the new handle points at the same record.
#[verifier::external_body]
fn share_record(h: &Arc<ThinInner>) -> (r: Arc<ThinInner>)
    ensures
        r == *h,
{
    Arc::clone(h)
}

/// Relies on `Arc::strong_count`: the number of live handles to the record,
/// of which the one passed in is one.
#[verifier::external_body]
fn record_count(h: &Arc<ThinInner>) -> (r: usize)
    ensures
        r >= 1,
{
    Arc::strong_count(h)
}

/// Relies on `Arc::ptr_eq`: two handles to one allocation see one record.
#[verifier::external_body]
fn same_record(a: &Arc<ThinInner>, b: &Arc<ThinInner>) -> (r: bool)
    ensures
        r ==> *a == *b,
{
    Arc::ptr_eq(a, b)
}

/// Relies on `core::ptr::eq` on two string references: equal addresses and
/// equal lengths denote the same bytes.
#[verifier::external_body]
fn same_text(a: &str, b: &str) -> (r: bool)
    ensures
        r ==> a.spec_bytes() == b.spec_bytes(),
{
    core::ptr::eq(a, b)
}

/// Relies on `str::as_ptr`, called on a text and on a fragment: the
/// addresses of their first bytes. Neither string wraps around the end of
/// the address space, and where the fragment's bytes lie within the text's,
/// they are the very bytes of the text at that offset.
#[verifier::external_body]
pub(crate) fn text_addrs(text: &str, frag: &str) -> (r: (usize, usize))
    ensures
        r.0 + text.spec_bytes().len() <= usize::MAX,
        r.1 + frag.spec_bytes().len() <= usize::MAX,
        r.0 <= r.1 && r.1 + frag.spec_bytes().len() <= r.0 + text.spec_bytes().len()
            ==> text.spec_bytes().subrange(r.1 - r.0, r.1 - r.0 + frag.spec_bytes().len())
            == frag.spec_bytes(),
{
    (text.as_ptr() as usize, frag.as_ptr() as usize)
}

/// Where a fragment of `inner_len` bytes at address `inner_start` begins
/// within text of `outer_len` bytes at address `outer_start`, or `None`
/// where the fragment does not lie wholly inside that text.
pub fn fragment_offset(outer_start: usize, outer_len: usize, inner_start: usize, inner_len: usize) -> (r:
    Option<usize>)
    requires
        outer_start + outer_len <= usize::MAX,
        inner_start + inner_len <= usize::MAX,
    ensures
        r is Some <==> outer_start <= inner_start && inner_start + inner_len <= outer_start
            + outer_len,
        r matches Some(i) ==> i == inner_start - outer_start,
{
    if inner_start < outer_start || inner_start + inner_len > outer_start + outer_len {
        None
    } else {
        Some(inner_start - outer_start)
    }
}

/// Relies on `<str as Hash>::hash`: feeds the text to the hasher.
#[verifier::external_body]
pub(crate) fn hash_text<H: core::hash::Hasher>(s: &str, state: &mut H) {
    core::hash::Hash::hash(s, state)
}

impl View for ArcStr {
    type V = Seq<u8>;

    /// The bytes of the text.
    closed spec fn view(&self) -> Seq<u8> {
        match self.rec {
            Record::Static(s) => s.data.spec_bytes(),
            Record::Heap(h) => encode_utf8(h.data@),
        }
    }
}

impl ArcStr {
    /// Whether the handle addresses a static record.
    pub closed spec fn spec_is_static(&self) -> bool {
        self.rec is Static
    }

    /// The header of the record, whichever kind it is.
    closed spec fn spec_len_flags(&self) -> LenFlags {
        match self.rec {
            Record::Static(s) => LenFlags(s.len_flags),
            Record::Heap(h) => h.len_flags,
        }
    }

    /// The header agrees with the text and with the kind of record; a heap
    /// record is never empty.
    #[verifier::type_invariant]
    closed spec fn inv(&self) -> bool {
        &&& self.spec_len_flags().spec_len() == self@.len()
        &&& self.spec_len_flags().spec_is_static() == self.spec_is_static()
        &&& !self.spec_is_static() ==> self@.len() > 0
    }

    /// The text is valid UTF-8.
    pub proof fn lemma_valid_utf8(&self)
        ensures
            valid_utf8(self@),
    {
        match self.rec {
            Record::Static(s) => encode_utf8_valid_utf8(s.data@),
            Record::Heap(h) => encode_utf8_valid_utf8(h.data@),
        }
    }

    /// The canonical empty string, a static one.
    pub fn new() -> (r: Self)
        ensures
            r@ == Seq::<u8>::empty(),
            r.spec_is_static(),
    {
        proof {
            reveal_strlit("");
        }
        let r = Self::from_static("");
        assert(encode_utf8(""@) =~= Seq::<u8>::empty());
        r
    }

    /// A handle over text that lives as long as the program: no allocation
    /// is made, and clones and drops touch no counter.
    pub fn from_static(s: &'static str) -> (r: Self)
        ensures
            r@ == s.spec_bytes(),
            r.spec_is_static(),
    {
        let n = text_len(s);
        let lf = LenFlags::from_len_static_raw(n, true);
        ArcStr { rec: Record::Static(StaticArcStrInner { len_flags: lf.0, count: 0, data: s }) }
    }

    /// A handle over a copy of `s`: the empty string gives the canonical
    /// empty value, any other a fresh heap record with a count of one.
    pub fn from_text(s: &str) -> (r: Self)
        ensures
            r@ == s.spec_bytes(),
            r.spec_is_static() <==> s.spec_bytes().len() == 0,
    {
        let n = text_len(s);
        if n == 0 {
            let e = Self::new();
            assert(e@ =~= s.spec_bytes());
            e
        } else {
            Self::allocate(s, n)
        }
    }

    /// A fresh heap record holding a copy of a non-empty `s`.
    fn allocate(s: &str, n: usize) -> (r: Self)
        requires
            n == s.spec_bytes().len(),
            0 < n <= isize::MAX,
        ensures
            r@ == s.spec_bytes(),
            !r.spec_is_static(),
    {
        let lf = LenFlags::from_len_static_raw(n, false);
        let data = s.to_owned();
        ArcStr { rec: Record::Heap(Arc::new(ThinInner { len_flags: lf, data })) }
    }

    /// The text.
    pub fn as_str(&self) -> (r: &str)
        ensures
            r.spec_bytes() == self@,
    {
        match &self.rec {
            Record::Static(s) => s.data,
            Record::Heap(h) => h.data.as_str(),
        }
    }

    /// The bytes of the text.
    pub fn as_bytes(&self) -> (r: &[u8])
        ensures
            r@ == self@,
    {
        self.as_str().as_bytes()
    }

    /// The length in bytes, read from the record's header.
    pub fn len(&self) -> (r: usize)
        ensures
            r == self@.len(),
    {
        proof {
            use_type_invariant(self);
        }
        self.len_flags().len()
    }

    fn len_flags(&self) -> (r: LenFlags)
        ensures
            r == self.spec_len_flags(),
    {
        match &self.rec {
            Record::Static(s) => LenFlags(s.len_flags),
            Record::Heap(h) => h.len_flags,
        }
    }

    /// Whether the text is empty.
    pub fn is_empty(&self) -> (r: bool)
        ensures
            r == (self@.len() == 0),
    {
        self.len() == 0
    }

    /// An owned copy of the text.
    pub fn to_string(&self) -> (r: String)
        ensures
            encode_utf8(r@) == self@,
    {
        self.as_str().to_owned()
    }

    /// Whether both handles address the same record. Handles that share a
    /// record hold the same text.
    pub fn ptr_eq(lhs: &Self, rhs: &Self) -> (r: bool)
        ensures
            r ==> lhs@ == rhs@,
    {
        match (&lhs.rec, &rhs.rec) {
            (Record::Static(a), Record::Static(b)) => same_text(a.data, b.data),
            (Record::Heap(a), Record::Heap(b)) => same_record(a, b),
            _ => false,
        }
    }

    /// The number of live handles to a heap record; `None` for a static one.
    pub fn strong_count(this: &Self) -> (r: Option<usize>)
        ensures
            r is None <==> this.spec_is_static(),
            r matches Some(n) ==> n >= 1,
    {
        proof {
            use_type_invariant(this);
        }
        if this.len_flags().is_static() {
            None
        } else {
            match &this.rec {
                Record::Heap(h) => Some(record_count(h)),
                Record::Static(_) => None,
            }
        }
    }

    /// Whether the handle addresses a static record, as read from its header.
    pub fn is_static(this: &Self) -> (r: bool)
        ensures
            r == this.spec_is_static(),
    {
        proof {
            use_type_invariant(this);
        }
        this.len_flags().is_static()
    }

    /// The text as a borrow valid for the rest of the program, for a static
    /// handle; `None` for a heap one.
    pub fn as_static(this: &Self) -> (r: Option<&'static str>)
        ensures
            r is Some <==> this.spec_is_static(),
            r matches Some(s) ==> s.spec_bytes() == this@,
    {
        match &this.rec {
            Record::Static(s) => Some(s.data),
            Record::Heap(_) => None,
        }
    }

    /// A view of `range` of this string, which must be a valid range whose
    /// end the index type of views can hold. An empty range gives the
    /// canonical empty view, which keeps no heap record alive.
    pub fn substr(&self, range: Range<usize>) -> (r: Substr)
        requires
            valid_range(self@, range.start as int, range.end as int),
            range.end <= IDX_MAX,
        ensures
            r@ == self@.subrange(range.start as int, range.end as int),
            range.start == range.end ==> r.is_canonical_empty(),
            range.start < range.end ==> r.views(*self, range.start as int, range.end as int),
    {
        Substr::from_parts(self, range)
    }

    /// A view of `range` of this string, as [`ArcStr::substr`] gives it; or
    /// why `range` is no range that a view of this string can hold.
    pub fn try_substr(&self, range: Range<usize>) -> (r: Result<Substr, BadSubstrRange>)
        ensures
            r is Ok <==> valid_range(self@, range.start as int, range.end as int) && range.end
                <= IDX_MAX,
            r matches Err(e) ==> Some(e) == range_error(self@, range.start, range.end),
            r matches Ok(v) ==> v@ == self@.subrange(range.start as int, range.end as int),
            r matches Ok(v) ==> (range.start == range.end ==> v.is_canonical_empty()),
            r matches Ok(v) ==> (range.start < range.end ==> v.views(
                *self,
                range.start as int,
                range.end as int,
            )),
    {
        match bad_substr_idx(self, range.start, range.end) {
            Some(e) => Err(e),
            None => Ok(self.substr(range)),
        }
    }

    /// The view of `len` bytes at `offset`, where the offset is given and
    /// `offset..offset + len` is a valid range whose end a view can index;
    /// `None` otherwise. An empty range gives the canonical empty view.
    pub fn view_at(&self, offset: Option<usize>, len: usize) -> (r: Option<Substr>)
        ensures
            r is Some <==> (offset matches Some(i) && i + len <= IDX_MAX && valid_range(
                self@,
                i as int,
                i + len,
            )),
            r matches Some(v) ==> (offset matches Some(i) && v@ == self@.subrange(
                i as int,
                i + len,
            ) && (len == 0 ==> v.is_canonical_empty()) && (len > 0 ==> v.views(
                *self,
                i as int,
                i + len,
            ))),
    {
        match offset {
            None => None,
            Some(i) => {
                if i > IDX_MAX || len > IDX_MAX - i {
                    return None;
                }
                match self.try_substr(i..i + len) {
                    Ok(v) => Some(v),
                    Err(_) => None,
                }
            },
        }
    }

    /// A view of this string over `substr`, a fragment borrowed from this
    /// string's own text: its text is the fragment's. `None` where `substr`
    /// does not lie in that text, or ends beyond what a view can index. An
    /// empty fragment gives the canonical empty view.
    pub fn try_substr_from(&self, substr: &str) -> (r: Option<Substr>)
        ensures
            substr.spec_bytes().len() == 0 ==> (r matches Some(v) && v.is_canonical_empty()),
            r matches Some(v) ==> v@ == substr.spec_bytes(),
            substr.spec_bytes().len() > 0 ==> (r matches Some(v) ==> v.views(
                *self,
                v.spec_start(),
                v.spec_end(),
            )),
    {
        let n = text_len(substr);
        if n == 0 {
            let e = Substr::new();
            assert(e@ =~= substr.spec_bytes());
            return Some(e);
        }
        let (p, q) = text_addrs(self.as_str(), substr);
        self.view_at(fragment_offset(p, self.len(), q, n), n)
    }

    /// A view of this string over the fragment that `f` picks out of its
    /// text, as [`ArcStr::try_substr_from`] gives it for that fragment.
    pub fn try_substr_using<F: FnOnce(&str) -> &str>(&self, f: F) -> (r: Option<Substr>)
        requires
            forall|s: &str| s.spec_bytes() == self@ ==> #[trigger] f.requires((s,)),
        ensures
            exists|s: &str, frag: &str|
                {
                    &&& s.spec_bytes() == self@
                    &&& #[trigger] f.ensures((s,), frag)
                    &&& frag.spec_bytes().len() == 0 ==> (r matches Some(v)
                        && v.is_canonical_empty())
                    &&& r matches Some(v) ==> v@ == frag.spec_bytes()
                    &&& frag.spec_bytes().len() > 0 ==> (r matches Some(v) ==> v.views(
                        *self,
                        v.spec_start(),
                        v.spec_end(),
                    ))
                },
    {
        let text = self.as_str();
        let frag = f(text);
        let r = self.try_substr_from(frag);
        assert(text.spec_bytes() == self@ && f.ensures((text,), frag));
        r
    }
}

impl Clone for ArcStr {
    /// Another handle to the same record: a static one is copied, a heap
    /// one has its count raised.
    fn clone(&self) -> (r: Self)
        ensures
            r == *self,
    {
        proof {
            use_type_invariant(self);
        }
        match &self.rec {
            Record::Static(s) => ArcStr {
                rec: Record::Static(
                    StaticArcStrInner { len_flags: s.len_flags, count: s.count, data: s.data },
                ),
            },
            Record::Heap(h) => ArcStr { rec: Record::Heap(share_record(h)) },
        }
    }
}

impl Default for ArcStr {
    fn default() -> (r: Self)
        ensures
            r@ == Seq::<u8>::empty(),
            r.spec_is_static(),
    {
        Self::new()
    }
}

impl From<&str> for ArcStr {
    fn from(s: &str) -> (r: Self)
        ensures
            r@ == s.spec_bytes(),
            r.spec_is_static() <==> s.spec_bytes().len() == 0,
    {
        Self::from_text(s)
    }
}

impl vstd::std_specs::convert::FromSpecImpl<&str> for ArcStr {
    open spec fn obeys_from_spec() -> bool {
        false
    }

    open spec fn from_spec(s: &str) -> ArcStr {
        arbitrary()
    }
}

impl vstd::std_specs::convert::FromSpecImpl<String> for ArcStr {
    open spec fn obeys_from_spec() -> bool {
        false
    }

    open spec fn from_spec(s: String) -> ArcStr {
        arbitrary()
    }
}

impl From<String> for ArcStr {
    fn from(s: String) -> (r: Self)
        ensures
            r@ == encode_utf8(s@),
            r.spec_is_static() <==> s@.len() == 0,
    {
        Self::from_text(s.as_str())
    }
}

impl vstd::std_specs::convert::FromSpecImpl<&String> for ArcStr {
    open spec fn obeys_from_spec() -> bool {
        false
    }

    open spec fn from_spec(s: &String) -> ArcStr {
        arbitrary()
    }
}

impl From<&String> for ArcStr {
    fn from(s: &String) -> (r: Self)
        ensures
            r@ == encode_utf8(s@),
            r.spec_is_static() <==> s@.len() == 0,
    {
        Self::from_text(s.as_str())
    }
}

impl vstd::std_specs::convert::FromSpecImpl<&ArcStr> for ArcStr {
    open spec fn obeys_from_spec() -> bool {
        false
    }

    open spec fn from_spec(s: &ArcStr) -> ArcStr {
        arbitrary()
    }
}

impl From<&ArcStr> for ArcStr {
    /// Another handle to the same record.
    fn from(s: &ArcStr) -> (r: Self)
        ensures
            r == *s,
    {
        s.clone()
    }
}

impl core::str::FromStr for ArcStr {
    type Err = core::convert::Infallible;

    fn from_str(s: &str) -> (r: Result<Self, Self::Err>)
        ensures
            r matches Ok(a) && a@ == s.spec_bytes() && (a.spec_is_static() <==> s.spec_bytes().len()
                == 0),
    {
        Ok(Self::from_text(s))
    }
}

impl core::ops::Deref for ArcStr {
    type Target = str;

    fn deref(&self) -> (r: &str)
        ensures
            r.spec_bytes() == self@,
    {
        self.as_str()
    }
}

impl AsRef<str> for ArcStr {
    fn as_ref(&self) -> &str {
        self.as_str()
    }
}

impl AsRef<[u8]> for ArcStr {
    fn as_ref(&self) -> &[u8] {
        self.as_bytes()
    }
}

impl core::borrow::Borrow<str> for ArcStr {
    fn borrow(&self) -> &str {
        self.as_str()
    }
}

impl core::hash::Hash for ArcStr {
    /// Hashes the text as `str` does, so that equal strings hash alike.
    fn hash<H: core::hash::Hasher>(&self, state: &mut H) {
        hash_text(self.as_str(), state)
    }
}

impl Ord for ArcStr {
    /// Relies on `<str as Ord>::cmp`: byte-wise lexicographic order.
    #[verifier::external_body]
    fn cmp(&self, o: &Self) -> Ordering {
        self.as_str().cmp(o.as_str())
    }
}

impl PartialEq for ArcStr {
    /// Same record, or else the same bytes.
    fn eq(&self, o: &Self) -> (r: bool) {
        ArcStr::ptr_eq(self, o) || bytes_eq(self.as_bytes(), o.as_bytes())
    }
}

impl vstd::std_specs::cmp::PartialEqSpecImpl for ArcStr {
    open spec fn obeys_eq_spec() -> bool {
        true
    }

    open spec fn eq_spec(&self, o: &ArcStr) -> bool {
        self@ == o@
    }
}

impl Eq for ArcStr {}

impl PartialOrd for ArcStr {
    fn partial_cmp(&self, o: &Self) -> (r: Option<Ordering>) {
        Some(bytes_cmp(self.as_bytes(), o.as_bytes()))
    }
}

impl vstd::std_specs::cmp::PartialOrdSpecImpl for ArcStr {
    open spec fn obeys_partial_cmp_spec() -> bool {
        true
    }

    open spec fn partial_cmp_spec(&self, o: &ArcStr) -> Option<Ordering> {
        Some(lex_cmp(self@, o@))
    }
}

} // verus!
