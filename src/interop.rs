//! Comparisons between the library's strings and std's, by bytes.
use vstd::prelude::*;
use vstd::string::StringSliceAdditionalSpecFns;
use vstd::utf8::*;

use crate::arc_str::ArcStr;
use crate::substr::Substr;
use crate::text::bytes_eq;

verus! {

impl PartialEq<str> for ArcStr {
    fn eq(&self, o: &str) -> (r: bool) {
        bytes_eq(self.as_bytes(), o.as_bytes())
    }
}

impl vstd::std_specs::cmp::PartialEqSpecImpl<str> for ArcStr {
    open spec fn obeys_eq_spec() -> bool {
        true
    }

    open spec fn eq_spec(&self, o: &str) -> bool {
        self@ == o.spec_bytes()
    }
}

impl PartialEq<ArcStr> for str {
    fn eq(&self, o: &ArcStr) -> (r: bool) {
        bytes_eq(self.as_bytes(), o.as_bytes())
    }
}

impl vstd::std_specs::cmp::PartialEqSpecImpl<ArcStr> for str {
    open spec fn obeys_eq_spec() -> bool {
        true
    }

    open spec fn eq_spec(&self, o: &ArcStr) -> bool {
        self.spec_bytes() == o@
    }
}

impl<'a> PartialEq<&'a str> for ArcStr {
    fn eq(&self, o: &&'a str) -> (r: bool) {
        bytes_eq(self.as_bytes(), o.as_bytes())
    }
}

impl<'a> vstd::std_specs::cmp::PartialEqSpecImpl<&'a str> for ArcStr {
    open spec fn obeys_eq_spec() -> bool {
        true
    }

    open spec fn eq_spec(&self, o: &&'a str) -> bool {
        self@ == o.spec_bytes()
    }
}

impl<'a> PartialEq<ArcStr> for &'a str {
    fn eq(&self, o: &ArcStr) -> (r: bool) {
        bytes_eq(self.as_bytes(), o.as_bytes())
    }
}

impl<'a> vstd::std_specs::cmp::PartialEqSpecImpl<ArcStr> for &'a str {
    open spec fn obeys_eq_spec() -> bool {
        true
    }

    open spec fn eq_spec(&self, o: &ArcStr) -> bool {
        self.spec_bytes() == o@
    }
}

impl PartialEq<String> for ArcStr {
    fn eq(&self, o: &String) -> (r: bool) {
        bytes_eq(self.as_bytes(), o.as_str().as_bytes())
    }
}

impl vstd::std_specs::cmp::PartialEqSpecImpl<String> for ArcStr {
    open spec fn obeys_eq_spec() -> bool {
        true
    }

    open spec fn eq_spec(&self, o: &String) -> bool {
        self@ == encode_utf8(o@)
    }
}

impl PartialEq<ArcStr> for String {
    fn eq(&self, o: &ArcStr) -> (r: bool) {
        bytes_eq(self.as_str().as_bytes(), o.as_bytes())
    }
}

impl vstd::std_specs::cmp::PartialEqSpecImpl<ArcStr> for String {
    open spec fn obeys_eq_spec() -> bool {
        true
    }

    open spec fn eq_spec(&self, o: &ArcStr) -> bool {
        encode_utf8(self@) == o@
    }
}

impl PartialEq<str> for Substr {
    fn eq(&self, o: &str) -> (r: bool) {
        bytes_eq(self.as_str().as_bytes(), o.as_bytes())
    }
}

impl vstd::std_specs::cmp::PartialEqSpecImpl<str> for Substr {
    open spec fn obeys_eq_spec() -> bool {
        true
    }

    open spec fn eq_spec(&self, o: &str) -> bool {
        self@ == o.spec_bytes()
    }
}

impl PartialEq<Substr> for str {
    fn eq(&self, o: &Substr) -> (r: bool) {
        bytes_eq(self.as_bytes(), o.as_str().as_bytes())
    }
}

impl vstd::std_specs::cmp::PartialEqSpecImpl<Substr> for str {
    open spec fn obeys_eq_spec() -> bool {
        true
    }

    open spec fn eq_spec(&self, o: &Substr) -> bool {
        self.spec_bytes() == o@
    }
}

impl<'a> PartialEq<&'a str> for Substr {
    fn eq(&self, o: &&'a str) -> (r: bool) {
        bytes_eq(self.as_str().as_bytes(), o.as_bytes())
    }
}

impl<'a> vstd::std_specs::cmp::PartialEqSpecImpl<&'a str> for Substr {
    open spec fn obeys_eq_spec() -> bool {
        true
    }

    open spec fn eq_spec(&self, o: &&'a str) -> bool {
        self@ == o.spec_bytes()
    }
}

impl<'a> PartialEq<Substr> for &'a str {
    fn eq(&self, o: &Substr) -> (r: bool) {
        bytes_eq(self.as_bytes(), o.as_str().as_bytes())
    }
}

impl<'a> vstd::std_specs::cmp::PartialEqSpecImpl<Substr> for &'a str {
    open spec fn obeys_eq_spec() -> bool {
        true
    }

    open spec fn eq_spec(&self, o: &Substr) -> bool {
        self.spec_bytes() == o@
    }
}

impl PartialEq<String> for Substr {
    fn eq(&self, o: &String) -> (r: bool) {
        bytes_eq(self.as_str().as_bytes(), o.as_str().as_bytes())
    }
}

impl vstd::std_specs::cmp::PartialEqSpecImpl<String> for Substr {
    open spec fn obeys_eq_spec() -> bool {
        true
    }

    open spec fn eq_spec(&self, o: &String) -> bool {
        self@ == encode_utf8(o@)
    }
}

impl PartialEq<Substr> for String {
    fn eq(&self, o: &Substr) -> (r: bool) {
        bytes_eq(self.as_str().as_bytes(), o.as_str().as_bytes())
    }
}

impl vstd::std_specs::cmp::PartialEqSpecImpl<Substr> for String {
    open spec fn obeys_eq_spec() -> bool {
        true
    }

    open spec fn eq_spec(&self, o: &Substr) -> bool {
        encode_utf8(self@) == o@
    }
}

impl PartialEq<ArcStr> for Substr {
    fn eq(&self, o: &ArcStr) -> (r: bool) {
        bytes_eq(self.as_str().as_bytes(), o.as_bytes())
    }
}

impl vstd::std_specs::cmp::PartialEqSpecImpl<ArcStr> for Substr {
    open spec fn obeys_eq_spec() -> bool {
        true
    }

    open spec fn eq_spec(&self, o: &ArcStr) -> bool {
        self@ == o@
    }
}

impl PartialEq<Substr> for ArcStr {
    fn eq(&self, o: &Substr) -> (r: bool) {
        bytes_eq(self.as_bytes(), o.as_str().as_bytes())
    }
}

impl vstd::std_specs::cmp::PartialEqSpecImpl<Substr> for ArcStr {
    open spec fn obeys_eq_spec() -> bool {
        true
    }

    open spec fn eq_spec(&self, o: &Substr) -> bool {
        self@ == o@
    }
}

} // verus!
