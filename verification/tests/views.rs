use zcstring::ZCString;

#[test]
fn empty_view() {
    let z = ZCString::new();
    assert_eq!(z.as_str(), "");
    assert_eq!(z.len(), 0);
    let d = ZCString::default();
    assert_eq!(d.as_str(), "");
}

#[test]
fn copy_construction_holds_content() {
    let z = ZCString::from_str_without_source("hello world");
    assert_eq!(z.as_str(), "hello world");
    assert_eq!(z.len(), 11);
}

#[test]
fn arcstr_buffer_wraps_without_copy() {
    let buffer = arcstr::ArcStr::from("shared storage");
    let z = ZCString::from_arcstr(buffer.clone());
    assert_eq!(z.as_str(), "shared storage");
    // the view aliases the buffer's own storage rather than a copy of it
    assert!(z.source_of(&buffer.as_str()[0..6]));
}

#[test]
fn arcstr_buffer_checked_wrap() {
    let buffer = arcstr::ArcStr::from("within range");
    let z = ZCString::try_from_arcstr(buffer.clone()).unwrap();
    assert_eq!(z.as_str(), "within range");
    assert!(z.source_of(&buffer.as_str()[0..6]));
}

#[test]
fn detach_of_empty_view() {
    let root = ZCString::new();
    let owned = root.detach();
    assert_eq!(owned.as_str(), "");
}

#[test]
fn substr_in_bounds() {
    let z = ZCString::from_str_without_source("hello world");
    let sub = z.substr(6, 11).unwrap();
    assert_eq!(sub.as_str(), "world");
    assert!(z.source_of(sub.as_str()));
}

#[test]
fn substr_rejects_bad_ranges() {
    let z = ZCString::from_str_without_source("h\u{e9}llo");
    // splits the two-byte character
    assert!(z.substr(0, 2).is_none());
    // inverted
    assert!(z.substr(3, 1).is_none());
    // out of bounds
    assert!(z.substr(0, 99).is_none());
    // whole view and empty prefix are fine
    assert_eq!(z.substr(0, 6).unwrap().as_str(), "h\u{e9}llo");
    assert_eq!(z.substr(0, 0).unwrap().as_str(), "");
}

#[test]
fn containment_soundness() {
    let root = ZCString::from_str_without_source("hello world");
    let s = &root.as_str()[0..5];
    assert!(root.source_of(s));
    let v = root.from_substr(s);
    assert_eq!(v.as_str(), "hello");
    // the result addresses the same shared storage
    assert!(root.source_of(v.as_str()));
    let tail = &root.as_str()[6..11];
    assert!(root.source_of(tail));
    let w = root.from_substr(tail);
    assert_eq!(w.as_str(), "world");
    assert!(root.source_of(w.as_str()));
}

#[test]
fn containment_end_bound() {
    let root = ZCString::from_str_without_source("hello world");
    let v = root.substr(0, 5).unwrap();
    // starts inside v but runs past v's end
    let s = &root.as_str()[3..8];
    assert!(!v.source_of(s));
    // reslicing falls back to a copy that still holds the right text
    let r = v.from_substr(s);
    assert_eq!(r.as_str(), "lo wo");
    assert!(!v.source_of(r.as_str()));
}

#[test]
fn empty_candidate_at_end_is_not_contained() {
    let root = ZCString::from_str_without_source("hello");
    let s = &root.as_str()[5..];
    assert!(!root.source_of(s));
}

#[test]
fn non_containment_allocates() {
    let v = ZCString::from_str_without_source("shared text");
    let other = String::from("text");
    assert!(!v.source_of(&other));
    let r = v.from_substr(&other);
    assert_eq!(r.as_str(), "text");
    // content-equal to the candidate, buffer-distinct from the source
    assert!(!v.source_of(r.as_str()));
}

#[test]
fn detach_isolation() {
    let root = ZCString::from_str_without_source("a large buffer with a fragment");
    let frag = root.substr(2, 7).unwrap();
    assert!(root.source_of(frag.as_str()));
    let owned = frag.detach();
    assert!(!root.source_of(owned.as_str()));
    assert!(owned == frag);
    drop(frag);
    drop(root);
    // dropping the original buffer leaves the detached view intact
    assert_eq!(owned.as_str(), "large");
}

#[test]
fn equality_is_by_content() {
    let a = ZCString::from_str_without_source("same text");
    let b = ZCString::from_str_without_source("same text");
    assert!(!a.source_of(b.as_str()));
    assert!(a == b);
    let c = ZCString::from_str_without_source("other text");
    assert!(a != c);
    let sub = a.substr(0, 4).unwrap();
    let copy = sub.detach();
    assert!(sub == copy);
    assert!(a.eq_str("same text"));
    assert!(!a.eq_str("same tex"));
    assert!(!a.eq_str("same texts"));
}

#[test]
fn ordering_is_by_content() {
    let a = ZCString::from_str_without_source("apple");
    let b = ZCString::from_str_without_source("banana");
    assert!(a < b);
    assert!(b > a);
    let prefix = ZCString::from_str_without_source("app");
    assert!(prefix < a);
    let same = ZCString::from_str_without_source("apple");
    assert!(!a.source_of(same.as_str()));
    assert_eq!(a.partial_cmp(&same), Some(std::cmp::Ordering::Equal));
}

#[test]
fn clone_aliases_the_buffer() {
    let a = ZCString::from_str_without_source("cloned view");
    let b = a.clone();
    assert_eq!(b.as_str(), "cloned view");
    assert!(a.source_of(b.as_str()));
}

#[test]
fn map_reslices_zero_copy() {
    let zc = ZCString::from_str_without_source("  zero-copy  ");
    let trimmed = zc.map(|s| s.trim());
    assert_eq!(trimmed.as_str(), "zero-copy");
    assert!(zc.source_of(trimmed.as_str()));
}

#[test]
fn is_boundary_on_multibyte_text() {
    let z = ZCString::from_str_without_source("h\u{e9}llo");
    assert!(z.is_boundary(0));
    assert!(z.is_boundary(1));
    assert!(!z.is_boundary(2));
    assert!(z.is_boundary(3));
    assert!(z.is_boundary(6));
    assert!(!z.is_boundary(7));
}
