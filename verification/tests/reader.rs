use zcstring::reader::plan_read;
use zcstring::RangeEdge;
use zcstring::ReadPlan;
use zcstring::ReaderError;
use zcstring::ZCString;

#[test]
fn plan_read_explicit_range() {
    // read "and" out of "Cats and dogs": bytes 5..8
    let plan = plan_read(RangeEdge::Included(5), RangeEdge::Excluded(8), 0, 13).unwrap();
    assert!(matches!(plan, ReadPlan::Span { start: 5, len: 3 }));
}

#[test]
fn plan_read_inclusive_end() {
    let plan = plan_read(RangeEdge::Included(5), RangeEdge::Included(7), 0, 13).unwrap();
    assert!(matches!(plan, ReadPlan::Span { start: 5, len: 3 }));
}

#[test]
fn plan_read_open_edges() {
    // an open start reads from the stream's current position
    let plan = plan_read(RangeEdge::Open, RangeEdge::Excluded(9), 4, 13).unwrap();
    assert!(matches!(plan, ReadPlan::Span { start: 4, len: 5 }));
    // an open end reads to end-of-stream
    let plan2 = plan_read(RangeEdge::Included(0), RangeEdge::Open, 0, 13).unwrap();
    assert!(matches!(plan2, ReadPlan::Span { start: 0, len: 13 }));
}

#[test]
fn plan_read_empty_range() {
    let plan = plan_read(RangeEdge::Included(7), RangeEdge::Excluded(7), 0, 13).unwrap();
    assert!(matches!(plan, ReadPlan::Empty));
}

#[test]
fn plan_read_inverted_range() {
    let err = plan_read(RangeEdge::Included(9), RangeEdge::Excluded(2), 0, 13).unwrap_err();
    assert!(matches!(err, ReaderError::InvalidRange { start: 9, end: 2 }));
}

#[test]
fn utf8_bytes_accepted() {
    let bytes = vec![67u8, 97, 116, 115];
    let z = ZCString::from_utf8_bytes(&bytes).unwrap();
    assert_eq!(z.as_str(), "Cats");
}

#[test]
fn utf8_bytes_rejected() {
    let bytes = vec![0xffu8, 0xfe];
    let err = ZCString::from_utf8_bytes(&bytes).unwrap_err();
    assert!(matches!(err, ReaderError::Utf8(_)));
}

#[test]
fn io_errors_pass_through() {
    let inner = std::io::Error::new(std::io::ErrorKind::UnexpectedEof, "short read");
    let err = ReaderError::Io(inner);
    match err {
        ReaderError::Io(e) => assert_eq!(e.kind(), std::io::ErrorKind::UnexpectedEof),
        _ => panic!("wrong variant"),
    }
}
