//! The provenance checker: pure arithmetic on (address, length) pairs.
//!
//! Deciding whether a candidate character range is a zero-copy slice of a
//! source view never scans content; it only compares the two address spans.
//! The check is sound only under the documented caller contract that the
//! candidate's storage genuinely originates from the source's own buffer —
//! an unrelated allocation whose addresses coincidentally overlap the
//! source's span cannot be told apart by address arithmetic alone.

use vstd::prelude::*;

verus! {

/// Whether the address span `[s_addr, s_addr + s_len)` of a candidate range
/// lies inside the span `[v_addr, v_addr + v_len)` of a source view: the
/// candidate must not start before the source's first byte, its start must
/// fall strictly inside the source's extent, and its end must not run past
/// the source's end.
pub open spec fn span_in_source(v_addr: int, v_len: int, s_addr: int, s_len: int) -> bool {
    &&& v_addr <= s_addr
    &&& s_addr - v_addr < v_len
    &&& s_addr - v_addr + s_len <= v_len
}

/// Given the address and byte length of a source view and of a candidate
/// range, return the candidate's byte offset inside the source when the
/// candidate's whole span lies within the source's span, and `None`
/// otherwise.
pub fn span_offset(v_addr: usize, v_len: usize, s_addr: usize, s_len: usize) -> (r: Option<
    usize,
>)
    ensures
        r is Some <==> span_in_source(v_addr as int, v_len as int, s_addr as int, s_len as int),
        r matches Some(off) ==> off == s_addr - v_addr && off < v_len && off + s_len <= v_len,
{
    if s_addr >= v_addr {
        let off = s_addr - v_addr;
        if off < v_len && s_len <= v_len - off {
            Some(off)
        } else {
            None
        }
    } else {
        None
    }
}

/// Containment soundness: a candidate actually sliced out of the source's
/// own storage — starting `off` bytes into a source of `v_len` bytes, with
/// `off` strictly inside the source, and ending at or before the source's
/// end — is accepted by the provenance check.
pub proof fn lemma_span_check_sound(v_addr: int, v_len: int, off: int, s_len: int)
    requires
        0 <= off < v_len,
        0 <= s_len,
        off + s_len <= v_len,
    ensures
        span_in_source(v_addr, v_len, v_addr + off, s_len),
{
}

/// Containment completeness at the end boundary: a candidate that runs past
/// the source's end is rejected, even when its start lies inside the source.
pub proof fn lemma_span_check_end_bound(v_addr: int, v_len: int, s_addr: int, s_len: int)
    requires
        s_addr - v_addr + s_len > v_len,
    ensures
        !span_in_source(v_addr, v_len, s_addr, s_len),
{
}

} // verus!
