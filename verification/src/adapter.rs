//! The iterator adapter: fragments of a view's text, each reinterpreted as
//! a zero-copy view of the original buffer.
//!
//! [`ZCString::split_lines`] splits a view's text by line endings, yielding
//! sub-views of the same buffer.  [`ZCString::wrap_iter`] takes the
//! fragments any string operation produced over a view's text and reslices
//! each against the view, for iteration as a finite single-pass sequence.

use vstd::prelude::*;
use vstd::string::StringSliceAdditionalSpecFns;
use vstd::utf8::is_char_boundary;
use vstd::utf8::is_char_boundary_iff_not_is_continuation_byte;
use vstd::utf8::is_char_boundary_start_end_of_seq;
use vstd::utf8::length_of_first_scalar;
use vstd::utf8::pop_first_scalar;
use vstd::utf8::valid_utf8;
use crate::zcstring::MAX_VIEW_BYTES;
use crate::zcstring::ZCString;
use crate::zcstring::resliced_or_copied;

verus! {

/// The byte value of a line feed.
pub const LINE_FEED: u8 = 10;

/// The byte value of a carriage return.
pub const CARRIAGE_RETURN: u8 = 13;

/// The index of the first line feed in `s`, or `s.len()` when there is
/// none.
pub open spec fn first_line_feed(s: Seq<u8>) -> nat
    decreases s.len(),
{
    if s.len() == 0 {
        0
    } else if s[0] == LINE_FEED {
        0
    } else {
        1 + first_line_feed(s.subrange(1, s.len() as int))
    }
}

/// A line with a carriage return left at its end — the first half of a
/// two-byte line ending — loses it; any other line is kept whole.
pub open spec fn strip_trailing_cr(line: Seq<u8>) -> Seq<u8> {
    if line.len() > 0 && line[line.len() - 1] == CARRIAGE_RETURN {
        line.subrange(0, line.len() - 1)
    } else {
        line
    }
}

/// The lines of a text: maximal runs between line endings, where a line
/// ending is a line feed or a carriage return followed by a line feed, and
/// the terminator belongs to no line.  A final line ending closes the last
/// line rather than opening an empty one, and a final run without one is a
/// line of its own, kept whole.
pub open spec fn lines_of(s: Seq<u8>) -> Seq<Seq<u8>>
    decreases s.len(),
{
    if s.len() == 0 {
        Seq::empty()
    } else {
        let k = first_line_feed(s);
        if k >= s.len() {
            seq![s]
        } else {
            seq![strip_trailing_cr(s.subrange(0, k as int))] + lines_of(
                s.subrange(k as int + 1, s.len() as int),
            )
        }
    }
}

/// The first line feed is exactly the index before which no line feed
/// occurs: at most the length, itself a line feed when inside the text.
proof fn lemma_first_line_feed_at(s: Seq<u8>, k: int)
    requires
        0 <= k <= s.len(),
        forall|j: int| 0 <= j < k ==> s[j] != LINE_FEED,
        k < s.len() ==> s[k] == LINE_FEED,
    ensures
        first_line_feed(s) == k,
    decreases s.len(),
{
    if s.len() == 0 || s[0] == LINE_FEED {
    } else {
        let rest = s.subrange(1, s.len() as int);
        lemma_first_line_feed_at(rest, k - 1);
    }
}

/// An ASCII byte — one below 0x80 — always sits on a character boundary of
/// valid UTF-8 text.
proof fn lemma_ascii_is_boundary(bytes: Seq<u8>, i: int)
    requires
        valid_utf8(bytes),
        0 <= i < bytes.len(),
        bytes[i] < 0x80,
    ensures
        is_char_boundary(bytes, i),
{
    is_char_boundary_iff_not_is_continuation_byte(bytes, i);
}

/// The position just past an ASCII byte on a character boundary is itself
/// a character boundary: a one-byte character ends there.
proof fn lemma_boundary_after_ascii(bytes: Seq<u8>, i: int)
    requires
        valid_utf8(bytes),
        0 <= i < bytes.len(),
        bytes[i] < 0x80,
        is_char_boundary(bytes, i),
    ensures
        is_char_boundary(bytes, i + 1),
    decreases bytes.len(),
{
    if i + 1 == bytes.len() {
        is_char_boundary_start_end_of_seq(bytes);
    } else if i < length_of_first_scalar(bytes) {
        assert(i == 0) by {
            if i > 0 {
                is_char_boundary_iff_not_is_continuation_byte(bytes, i);
            }
        }
        reveal_with_fuel(is_char_boundary, 3);
        assert(length_of_first_scalar(bytes) == 1);
    } else {
        let rest = pop_first_scalar(bytes);
        let w = length_of_first_scalar(bytes);
        assert(rest[i - w] == bytes[i]);
        assert(is_char_boundary(rest, i - w)) by {
            is_char_boundary_iff_not_is_continuation_byte(bytes, i);
            is_char_boundary_iff_not_is_continuation_byte(rest, i - w);
        }
        lemma_boundary_after_ascii(rest, i - w);
        assert(is_char_boundary(bytes, i + 1)) by {
            is_char_boundary_iff_not_is_continuation_byte(bytes, i + 1);
            is_char_boundary_iff_not_is_continuation_byte(rest, i + 1 - w);
        }
    }
}

impl ZCString {
    /// Splits this view's text by line and returns the lines in order,
    /// every one a zero-copy sub-view of this view's own buffer.  Line
    /// endings are a line feed or a carriage return followed by a line
    /// feed, and belong to no line; a final line ending closes the last
    /// line rather than opening an empty one.
    pub fn split_lines(&self) -> (r: Vec<ZCString>)
        ensures
            r@.map_values(|z: ZCString| z@) == lines_of(self@),
            forall|k: int|
                0 <= k < r@.len() ==> (#[trigger] r@[k]).provenance() == self.provenance(),
    {
        proof {
            use_type_invariant(self);
        }
        let text = self.as_str();
        let bytes = text.as_bytes();
        let ghost whole = self@;
        let n = bytes.len();
        let mut out: Vec<ZCString> = Vec::new();
        let mut start: usize = 0;
        let mut i: usize = 0;
        proof {
            is_char_boundary_start_end_of_seq(whole);
            assert(whole.subrange(0, n as int) =~= whole);
            assert(out@.map_values(|z: ZCString| z@) + lines_of(whole) =~~= lines_of(whole));
        }
        while i < n
            invariant
                whole == self@,
                valid_utf8(whole),
                whole.len() <= MAX_VIEW_BYTES,
                bytes@ == whole,
                n == whole.len(),
                0 <= start <= i <= n,
                is_char_boundary(whole, start as int),
                forall|j: int| start <= j < i ==> whole[j] != LINE_FEED,
                out@.map_values(|z: ZCString| z@) + lines_of(
                    whole.subrange(start as int, n as int),
                ) == lines_of(whole),
                forall|k: int|
                    0 <= k < out@.len() ==> (#[trigger] out@[k]).provenance()
                        == self.provenance(),
            decreases n - i,
        {
            if bytes[i] == LINE_FEED {
                let line_end = if i > start && bytes[i - 1] == CARRIAGE_RETURN {
                    i - 1
                } else {
                    i
                };
                proof {
                    lemma_ascii_is_boundary(whole, line_end as int);
                }
                let z = self.slice_unchecked(start, line_end);
                proof {
                    let tail = whole.subrange(start as int, n as int);
                    lemma_first_line_feed_at(tail, i - start);
                    assert(tail.subrange(0, i - start) =~= whole.subrange(start as int, i as int));
                    assert(strip_trailing_cr(whole.subrange(start as int, i as int)) =~= z@);
                    assert(tail.subrange(i - start + 1, tail.len() as int) =~= whole.subrange(
                        i + 1,
                        n as int,
                    ));
                    assert(lines_of(tail) == seq![z@] + lines_of(whole.subrange(i + 1, n as int)));
                    assert((out@ + seq![z]).map_values(|y: ZCString| y@) =~= out@.map_values(
                        |y: ZCString| y@,
                    ) + seq![z@]);
                    assert((out@ + seq![z]).map_values(|y: ZCString| y@) + lines_of(
                        whole.subrange(i + 1 as int, n as int),
                    ) =~~= lines_of(whole));
                    lemma_ascii_is_boundary(whole, i as int);
                    lemma_boundary_after_ascii(whole, i as int);
                }
                out.push(z);
                start = i + 1;
            }
            i += 1;
        }
        if start < n {
            let z = self.slice_unchecked(start, n);
            proof {
                let tail = whole.subrange(start as int, n as int);
                lemma_first_line_feed_at(tail, n - start);
                assert(lines_of(tail) == seq![tail]);
                assert((out@ + seq![z]).map_values(|y: ZCString| y@) =~~= lines_of(whole));
            }
            out.push(z);
        } else {
            proof {
                assert(whole.subrange(start as int, n as int) =~= Seq::<u8>::empty());
            }
        }
        out
    }
}

/// A finite, single-pass, non-restartable sequence of views: the fragments
/// some string operation produced over a source view's text, each already
/// resliced against that view.  The wrapper keeps its own handle onto the
/// source, so the shared buffer stays alive for the sequence's whole
/// lifetime even when the view that created it is dropped first.
pub struct ZCStringIterWrapper {
    source: ZCString,
    items: Vec<ZCString>,
    pos: usize,
}

impl ZCStringIterWrapper {
    /// The yield position never runs past the sequence's end.
    #[verifier::type_invariant]
    pub closed spec fn wf(&self) -> bool {
        self.pos <= self.items@.len()
    }

    /// The views not yet yielded, in order.
    pub closed spec fn remaining(&self) -> Seq<ZCString> {
        self.items@.subrange(self.pos as int, self.items@.len() as int)
    }

    /// Yields the next view, or `None` once the sequence is exhausted.
    pub fn next(&mut self) -> (r: Option<ZCString>)
        ensures
            old(self).remaining().len() == 0 ==> r is None && final(self).remaining()
                == old(self).remaining(),
            old(self).remaining().len() > 0 ==> (r matches Some(z) && z@
                == old(self).remaining()[0]@ && z.provenance()
                == old(self).remaining()[0].provenance() && final(self).remaining()
                == old(self).remaining().subrange(1, old(self).remaining().len() as int)),
    {
        proof {
            use_type_invariant(&*self);
        }
        if self.pos < self.items.len() {
            let z = self.items[self.pos].clone();
            self.pos += 1;
            proof {
                assert(final(self).remaining() =~= old(self).remaining().subrange(
                    1,
                    old(self).remaining().len() as int,
                ));
            }
            Some(z)
        } else {
            proof {
                assert(final(self).remaining() =~= old(self).remaining());
            }
            None
        }
    }
}

impl ZCString {
    /// Wraps the fragments that a string operation over this view's text —
    /// a split, a trim, a line iterator — produced, reslicing each against
    /// this view: zero-copy whenever a fragment's storage lies inside this
    /// view's buffer, a fresh copy otherwise.
    pub fn wrap_iter(&self, fragments: Vec<&str>) -> (r: ZCStringIterWrapper)
        requires
            forall|k: int|
                0 <= k < fragments@.len() ==> (#[trigger] fragments@[k]).spec_bytes().len()
                    <= MAX_VIEW_BYTES,
        ensures
            r.remaining().len() == fragments@.len(),
            forall|k: int|
                0 <= k < fragments@.len() ==> resliced_or_copied(
                    *self,
                    fragments@[k].spec_bytes(),
                    #[trigger] r.remaining()[k],
                ),
    {
        let mut items: Vec<ZCString> = Vec::new();
        let n = fragments.len();
        let mut k: usize = 0;
        while k < n
            invariant
                n == fragments@.len(),
                0 <= k <= n,
                items@.len() == k,
                forall|j: int|
                    0 <= j < fragments@.len() ==> (#[trigger] fragments@[j]).spec_bytes().len()
                        <= MAX_VIEW_BYTES,
                forall|j: int|
                    0 <= j < k ==> resliced_or_copied(
                        *self,
                        fragments@[j].spec_bytes(),
                        #[trigger] items@[j],
                    ),
            decreases n - k,
        {
            items.push(self.from_substr(fragments[k]));
            k += 1;
        }
        let r = ZCStringIterWrapper { source: self.clone(), items, pos: 0 };
        proof {
            assert(r.remaining() =~= r.items@);
        }
        r
    }
}

} // verus!
