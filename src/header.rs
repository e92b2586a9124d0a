//! The one-word header that every string record starts with: the byte
//! length shifted left by one, and in bit 0 the complement of the
//! "static" flag.
use vstd::prelude::*;

verus! {

/// The largest length that a header can carry: doubling it must not overflow.
pub open spec fn len_fits(l: int) -> bool {
    0 <= l && 2 * l <= usize::MAX
}

/// The word that encodes length `l` and the flag `is_static`.
pub open spec fn encode_spec(l: usize, is_static: bool) -> int {
    2 * l + (if is_static { 0int } else { 1int })
}

/// A packed `(length, is_static)` pair.
#[derive(Clone, Copy, Debug)]
pub struct LenFlags(pub usize);

impl LenFlags {
    /// The length that the header carries.
    pub open spec fn spec_len(self) -> usize {
        (self.0 / 2) as usize
    }

    /// Whether the header marks a static record (bit 0 clear).
    pub open spec fn spec_is_static(self) -> bool {
        self.0 % 2 == 0
    }

    /// Decodes the length.
    pub fn len(self) -> (r: usize)
        ensures
            r == self.spec_len(),
    {
        let w = self.0;
        assert(w >> 1usize == w / 2) by (bit_vector);
        w >> 1usize
    }

    /// Decodes the static flag: bit 0 clear means static.
    pub fn is_static(self) -> (r: bool)
        ensures
            r == self.spec_is_static(),
    {
        let w = self.0;
        assert((w & 1usize == 0usize) == (w % 2 == 0)) by (bit_vector);
        (w & 1usize) == 0usize
    }

    /// Encodes a length and a flag, or `None` where the length cannot be
    /// doubled without overflow.
    pub fn from_len_static(l: usize, is_static: bool) -> (r: Option<Self>)
        ensures
            r is Some <==> len_fits(l as int),
            r matches Some(h) ==> h.0 == encode_spec(l, is_static) && h.spec_len() == l
                && h.spec_is_static() == is_static,
    {
        match l.checked_mul(2) {
            Some(doubled) => Some(Self::with_flag(doubled, is_static)),
            None => None,
        }
    }

    /// Encodes a length that is known to fit, and a flag.
    pub fn from_len_static_raw(l: usize, is_static: bool) -> (r: Self)
        requires
            len_fits(l as int),
        ensures
            r.0 == encode_spec(l, is_static),
            r.spec_len() == l,
            r.spec_is_static() == is_static,
    {
        let doubled: usize = l << 1usize;
        assert(doubled == 2 * l) by {
            vstd::arithmetic::power2::lemma2_to64();
            vstd::bits::lemma_usize_shl_is_mul(l, 1);
        }
        Self::with_flag(doubled, is_static)
    }

    /// Sets bit 0 of an even word to the complement of `is_static`.
    fn with_flag(doubled: usize, is_static: bool) -> (r: Self)
        requires
            doubled % 2 == 0,
        ensures
            r.0 == doubled + (if is_static { 0int } else { 1int }),
            r.spec_len() == doubled / 2,
            r.spec_is_static() == is_static,
    {
        let flag: usize = if is_static { 0usize } else { 1usize };
        assert(doubled | flag == doubled + flag) by (bit_vector)
            requires
                doubled % 2 == 0,
                flag <= 1,
        ;
        Self(doubled | flag)
    }
}

/// Decoding an encoded header gives back the length and the flag that were
/// encoded, for every length that fits and for both flags.
pub proof fn lemma_round_trip(l: usize, is_static: bool)
    requires
        len_fits(l as int),
    ensures
        LenFlags(encode_spec(l, is_static) as usize).spec_len() == l,
        LenFlags(encode_spec(l, is_static) as usize).spec_is_static() == is_static,
{
}

} // verus!
