//! Constructing views from external byte sources.
//!
//! Reading itself — files, streams, seeking — is the host program's side;
//! the library owns the decisions around it: resolving a requested byte
//! range against the stream's position and length, rejecting an inverted
//! range, recognizing the empty range, and validating bytes read as UTF-8
//! before a view is made of them.

use vstd::prelude::*;
use vstd::string::StringSliceAdditionalSpecFns;
use vstd::utf8::valid_utf8;
use crate::zcstring::MAX_VIEW_BYTES;
use crate::zcstring::ZCString;

verus! {

/// Declares `std::io::Error` so a failure of the host's read or seek can
/// be handed through verbatim.
#[verifier::external_type_specification]
#[verifier::external_body]
pub struct ExIoError(std::io::Error);

/// Declares `core::str::Utf8Error`, the description of where byte input
/// stopped being valid UTF-8.
#[verifier::external_type_specification]
#[verifier::external_body]
pub struct ExUtf8Error(core::str::Utf8Error);

/// Relies on `core::str::from_utf8`: it succeeds exactly on valid UTF-8
/// and returns the same bytes viewed as text.
#[verifier::external_body]
fn bytes_as_str(v: &[u8]) -> (r: Result<&str, core::str::Utf8Error>)
    ensures
        r matches Ok(s) ==> s.spec_bytes() == v@,
        r is Ok <==> valid_utf8(v@),
{
    core::str::from_utf8(v)
}

/// Why constructing a view from an external byte source failed.
#[derive(Debug)]
pub enum ReaderError {
    /// The requested byte range is inverted: its start lies past its end.
    InvalidRange { start: u64, end: u64 },
    /// The underlying read or seek failed; the host's error is handed
    /// through verbatim.
    Io(std::io::Error),
    /// The bytes read are not valid UTF-8.
    Utf8(core::str::Utf8Error),
}

/// One edge of a requested byte range: a bound that includes its offset, a
/// bound that excludes it, or no bound at all — an open start falls back to
/// the stream's current position, an open end to the stream's length.
pub enum RangeEdge {
    Included(u64),
    Excluded(u64),
    Open,
}

/// The byte offset a range's start edge resolves to, given the stream
/// position that stands in for an open start.
pub open spec fn resolved_start(start: RangeEdge, open_pos: u64) -> int {
    match start {
        RangeEdge::Included(s) => s as int,
        RangeEdge::Excluded(s) => s as int + 1,
        RangeEdge::Open => open_pos as int,
    }
}

/// The byte offset just past a range's last byte, given the stream length
/// that stands in for an open end.
pub open spec fn resolved_end(end: RangeEdge, open_end: u64) -> int {
    match end {
        RangeEdge::Included(e) => e as int + 1,
        RangeEdge::Excluded(e) => e as int,
        RangeEdge::Open => open_end as int,
    }
}

/// What a resolved range asks the host to do: nothing, or one read of
/// `len` bytes starting at byte offset `start`.
#[derive(Debug)]
pub enum ReadPlan {
    Empty,
    Span { start: u64, len: u64 },
}

/// Resolves a requested byte range against the stream's current position
/// (standing in for an open start) and length (standing in for an open
/// end): an inverted range is a range error naming both resolved offsets,
/// an empty range asks for no read, and any other range asks for one read
/// of exactly the bytes between the two offsets.
pub fn plan_read(start: RangeEdge, end: RangeEdge, open_pos: u64, open_end: u64) -> (r: Result<
    ReadPlan,
    ReaderError,
>)
    requires
        start matches RangeEdge::Excluded(s) ==> s < u64::MAX,
        end matches RangeEdge::Included(e) ==> e < u64::MAX,
    ensures
        ({
            let s = resolved_start(start, open_pos);
            let e = resolved_end(end, open_end);
            &&& (r matches Err(err) <==> s > e)
            &&& (r matches Err(err) ==> err == (ReaderError::InvalidRange {
                start: s as u64,
                end: e as u64,
            }))
            &&& (s == e ==> r == Ok::<ReadPlan, ReaderError>(ReadPlan::Empty))
            &&& (s < e ==> r == Ok::<ReadPlan, ReaderError>(ReadPlan::Span {
                start: s as u64,
                len: (e - s) as u64,
            }))
        }),
{
    let s: u64 = match start {
        RangeEdge::Included(v) => v,
        RangeEdge::Excluded(v) => v + 1,
        RangeEdge::Open => open_pos,
    };
    let e: u64 = match end {
        RangeEdge::Included(v) => v + 1,
        RangeEdge::Excluded(v) => v,
        RangeEdge::Open => open_end,
    };
    if s > e {
        Err(ReaderError::InvalidRange { start: s, end: e })
    } else if s == e {
        Ok(ReadPlan::Empty)
    } else {
        Ok(ReadPlan::Span { start: s, len: e - s })
    }
}

impl ZCString {
    /// Copies bytes read from an external source into a fresh shared
    /// buffer as text, once they validate as UTF-8; fails with an encoding
    /// error otherwise.
    pub fn from_utf8_bytes(v: &[u8]) -> (r: Result<ZCString, ReaderError>)
        requires
            v@.len() <= MAX_VIEW_BYTES,
        ensures
            r is Ok <==> valid_utf8(v@),
            r matches Ok(z) ==> z@ == v@,
            r matches Err(err) ==> err matches ReaderError::Utf8(_),
    {
        match bytes_as_str(v) {
            Ok(s) => Ok(ZCString::from_str_without_source(s)),
            Err(e) => Err(ReaderError::Utf8(e)),
        }
    }
}

} // verus!
