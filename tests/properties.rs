use std::collections::HashSet;

use arcstr::arc_str::fragment_offset;
use arcstr::substr::{bad_substr_idx, to_idx, to_idx_const, BadSubstrRange};
use arcstr::{ArcStr, LenFlags, Substr};

#[test]
fn header_round_trips() {
    for &l in &[0usize, 1, 5, 1 << 20, usize::MAX / 2] {
        for &s in &[true, false] {
            let h = LenFlags::from_len_static(l, s).unwrap();
            assert_eq!(h.len(), l);
            assert_eq!(h.is_static(), s);
            let raw = LenFlags::from_len_static_raw(l, s);
            assert_eq!(raw.0, h.0);
        }
    }
}

#[test]
fn header_bit_layout() {
    assert_eq!(LenFlags::from_len_static_raw(3, false).0, 7);
    assert_eq!(LenFlags::from_len_static_raw(3, true).0, 6);
    assert_eq!(LenFlags::from_len_static_raw(0, true).0, 0);
    assert_eq!(LenFlags(9).len(), 4);
    assert!(!LenFlags(9).is_static());
    assert!(LenFlags(8).is_static());
}

#[test]
fn header_rejects_lengths_that_cannot_double() {
    assert!(LenFlags::from_len_static(usize::MAX / 2 + 1, true).is_none());
    assert!(LenFlags::from_len_static(usize::MAX, false).is_none());
}

#[test]
fn dynamic_counts() {
    let a = ArcStr::from("foobar");
    assert_eq!(ArcStr::strong_count(&a), Some(1));
    let b = a.clone();
    assert_eq!(ArcStr::strong_count(&a), Some(2));
    assert_eq!(ArcStr::strong_count(&b), Some(2));
    drop(b);
    assert_eq!(ArcStr::strong_count(&a), Some(1));
    assert!(!ArcStr::is_static(&a));
}

#[test]
fn static_clones_are_uncounted() {
    let lit = ArcStr::from_static("cool robot!");
    let mut clones = Vec::new();
    for _ in 0..50 {
        clones.push(lit.clone());
    }
    for c in &clones {
        assert_eq!(ArcStr::strong_count(c), None);
        assert!(ArcStr::is_static(c));
        assert!(ArcStr::ptr_eq(c, &lit));
    }
    drop(clones);
    assert_eq!(ArcStr::strong_count(&lit), None);
}

#[test]
fn literal_scenario() {
    let lit = ArcStr::from_static("cool robot!");
    assert_eq!(lit, "cool robot!");
    assert!(ArcStr::is_static(&lit));
    let forever: Option<&'static str> = ArcStr::as_static(&lit);
    assert_eq!(forever, Some("cool robot!"));
    assert_eq!(lit.len(), 11);
}

#[test]
fn equality_ignores_origin() {
    let st = ArcStr::from_static("same text");
    let dy = ArcStr::from("same text");
    assert_eq!(st, dy);
    assert!(!ArcStr::ptr_eq(&st, &dy));
    assert_ne!(dy, ArcStr::from("other text"));
    let mut set = HashSet::new();
    set.insert(st.clone());
    assert!(set.contains(&dy));
    assert!(set.contains("same text"));
}

#[test]
fn shared_record_means_equal() {
    let a = ArcStr::from("shared");
    let b = a.clone();
    assert!(ArcStr::ptr_eq(&a, &b));
    assert_eq!(a, b);
    let c = ArcStr::from(&a);
    assert!(ArcStr::ptr_eq(&a, &c));
}

#[test]
fn ordering_is_bytewise() {
    let a = ArcStr::from("abc");
    let b = ArcStr::from_static("abd");
    let c = ArcStr::from("ab");
    assert!(a < b);
    assert!(c < a);
    assert_eq!(a.partial_cmp(&a.clone()), Some(std::cmp::Ordering::Equal));
    assert_eq!(b.cmp(&a), std::cmp::Ordering::Greater);
}

#[test]
fn empty_is_canonical() {
    let e = ArcStr::from("");
    assert!(ArcStr::is_static(&e));
    assert_eq!(e, ArcStr::new());
    assert_eq!(ArcStr::strong_count(&e), None);
    assert!(e.is_empty());
    let from_string = ArcStr::from(String::new());
    assert!(ArcStr::is_static(&from_string));
}

#[test]
fn empty_slice_drops_parent() {
    let parent = ArcStr::from("abcdef");
    let s = parent.substr(2..2);
    assert_eq!(ArcStr::strong_count(&parent), Some(1));
    assert!(ArcStr::is_static(s.parent()));
    assert_eq!(s.range(), 0..0);
    assert_eq!(s, Substr::new());
    let v = parent.substr(1..4);
    assert_eq!(ArcStr::strong_count(&parent), Some(2));
    let w = v.substr(1..1);
    assert!(ArcStr::is_static(w.parent()));
    assert_eq!(Substr::default(), w);
}

#[test]
fn boundary_scenario() {
    let s = ArcStr::from("abcde");
    assert_eq!(s.substr(2..s.len()), "cde");
    assert_eq!(s.substr(2..5).substr(1..2), "d");
    assert_eq!(s.substr(2..5).substr(1..2).range(), 3..4);
}

#[test]
fn slice_of_slice_is_one_slice() {
    let h = ArcStr::from("héllo wörld");
    let (a, b) = (1usize, 12usize);
    let (c, d) = (2usize, 7usize);
    let twice = h.substr(a..b).substr(c..d);
    let once = h.substr(a + c..a + d);
    assert_eq!(twice, once);
    assert_eq!(twice.range(), once.range());
    assert!(ArcStr::ptr_eq(twice.parent(), once.parent()));
    assert_eq!(twice.as_str(), &h.as_str()[a + c..a + d]);
}

#[test]
fn fragment_reconstruction_scenario() {
    let s = ArcStr::from("   abc");
    let trimmed = s.trim_start();
    assert_eq!(trimmed, "abc");
    let v = s.try_substr_from(trimmed).unwrap();
    assert_eq!(v, "abc");
    assert_eq!(v.range(), 3..6);
    let unrelated = String::from("abc");
    assert!(s.try_substr_from(unrelated.as_str()).is_none());
    let by_closure = s.try_substr_using(str::trim_start).unwrap();
    assert_eq!(by_closure.range(), 3..6);
}

#[test]
fn fragment_of_a_view() {
    let s = ArcStr::from("xx  hello  yy");
    let v = s.substr(2..11);
    assert_eq!(v, "  hello  ");
    let inner = v.try_substr_using(str::trim).unwrap();
    assert_eq!(inner, "hello");
    assert_eq!(inner.range(), 4..9);
    let outside = &s.as_str()[0..2];
    assert!(v.try_substr_from(outside).is_none());
    assert_eq!(v.try_substr_from(""), Some(Substr::new()));
}

#[test]
fn fragment_offsets() {
    assert_eq!(fragment_offset(100, 10, 103, 3), Some(3));
    assert_eq!(fragment_offset(100, 10, 100, 10), Some(0));
    assert_eq!(fragment_offset(100, 10, 99, 3), None);
    assert_eq!(fragment_offset(100, 10, 108, 3), None);
}

#[test]
fn view_accessors() {
    let s = ArcStr::from("foobar");
    let full = Substr::full(s.clone());
    assert_eq!(full, s);
    assert_eq!(s, full);
    assert_eq!(full.range(), 0..6);
    assert_eq!(full.len(), 6);
    let part = full.substr(1..4);
    assert_eq!(part, "oob");
    assert_eq!(part.to_string(), String::from("oob"));
    assert!(!part.is_empty());
    assert!(Substr::shallow_eq(&part, &part.clone()));
    let same_text = ArcStr::from("xoob").substr(1..4);
    assert!(!Substr::shallow_eq(&part, &same_text));
    assert_eq!(part, same_text);
    assert!(part < ArcStr::from("z").substr(0..1));
}

#[test]
fn index_narrowing() {
    assert_eq!(to_idx(0), 0u32);
    assert_eq!(to_idx(0xffff_ffff), u32::MAX);
    assert_eq!(to_idx_const(77), 77u32);
}

#[test]
fn text_accessors() {
    let s = ArcStr::from("ünïcode");
    assert_eq!(s.len(), "ünïcode".len());
    assert_eq!(s.as_bytes(), "ünïcode".as_bytes());
    assert_eq!(s.to_string(), String::from("ünïcode"));
    assert_eq!(String::from("ünïcode"), s);
}

#[test]
fn boundary_violations_are_reported() {
    let s = ArcStr::from("abcde");
    assert_eq!(
        s.try_substr(0..10).unwrap_err(),
        BadSubstrRange::EndOutOfRange { end: 10, bound: 5 }
    );
    assert_eq!(
        bad_substr_idx(&s, 3, 2),
        Some(BadSubstrRange::StartAfterEnd { start: 3, end: 2 })
    );
    assert_eq!(bad_substr_idx(&s, 1, 5), None);
    let u = ArcStr::from("aé");
    assert_eq!(
        u.try_substr(0..2).unwrap_err(),
        BadSubstrRange::NotCharBoundary { start: 0, end: 2 }
    );
    assert_eq!(u.try_substr(1..3).unwrap(), "é");
    let v = s.substr(1..4);
    assert_eq!(
        v.try_substr(0..4).unwrap_err(),
        BadSubstrRange::EndOutOfRange { end: 4, bound: 3 }
    );
    assert_eq!(v.try_substr(1..3).unwrap(), "cd");
    assert!(v.try_substr(2..2).unwrap().parent().is_empty());
}

#[test]
fn views_at_given_offsets() {
    let s = ArcStr::from("héllo");
    let v = s.view_at(Some(3), 2).unwrap();
    assert_eq!(v, "ll");
    assert_eq!(v.range(), 3..5);
    assert!(s.view_at(None, 2).is_none());
    assert!(s.view_at(Some(2), 1).is_none());
    assert!(s.view_at(Some(4), 5).is_none());
    let e = s.view_at(Some(3), 0).unwrap();
    assert!(ArcStr::is_static(e.parent()));
    assert_eq!(e.range(), 0..0);

    let w = s.substr(1..6);
    let x = w.view_at(Some(2), 3).unwrap();
    assert_eq!(x, "llo");
    assert_eq!(x.range(), 3..6);
    assert!(w.view_at(Some(1), 1).is_none());
    assert!(w.view_at(Some(3), 3).is_none());
    assert!(w.view_at(None, 0).is_none());
}

#[test]
fn fragment_through_closure_edge_cases() {
    let s = ArcStr::from("   abc");
    assert!(s.try_substr_using(|_s| "different string!").is_none());
    assert_eq!(s.try_substr_using(|_s| ""), Some(Substr::new()));
}
