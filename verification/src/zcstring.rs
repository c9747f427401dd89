//! The shared buffer, the string view over it, and zero-copy reslicing.
//!
//! A [`ZCString`] owns a share of one immutable `arcstr` buffer and addresses
//! a byte range within it.  Slicing a view narrows the range without copying;
//! [`ZCString::from_substr`] turns a raw candidate slice back into a view of
//! the same buffer when the provenance check places it inside the view's
//! storage, and copies it into a fresh buffer otherwise.

use vstd::prelude::*;
use vstd::string::StringSliceAdditionalSpecFns;
use vstd::utf8::is_char_boundary;
use vstd::utf8::valid_utf8;
use vstd::utf8::valid_utf8_split;
use vstd::utf8::is_char_boundary_start_end_of_seq;
use vstd::utf8::is_char_boundary_iff_not_is_continuation_byte;
use vstd::utf8::encode_utf8;
use vstd::utf8::encode_utf8_valid_utf8;
use crate::provenance::span_offset;

verus! {

/// The largest byte length a view can address: the backing buffer's view
/// indices are 32-bit.
pub const MAX_VIEW_BYTES: usize = 0xffff_ffff;

/// Declares `arcstr::Substr` — conceptually a `(shared buffer, start, end)`
/// triple — so that views can hold one; its contents are reached only
/// through the trusted wrappers in this module.
#[verifier::external_type_specification]
#[verifier::external_body]
pub struct ExSubstr(arcstr::Substr);

/// The UTF-8 bytes of the text that a `Substr` addresses.
pub uninterp spec fn substr_bytes(z: arcstr::Substr) -> Seq<u8>;

/// Identifies the shared buffer allocation backing a `Substr`: narrowing
/// and cloning keep it, construction from a plain string gets a fresh one.
pub uninterp spec fn substr_provenance(z: arcstr::Substr) -> int;

/// Declares `arcstr::ArcStr`, the shared, immutable, reference-counted
/// buffer itself, so that text whose storage is already eligible for
/// long-lived sharing — a literal, a previously built buffer — can become
/// a view without a copy.
#[verifier::external_type_specification]
#[verifier::external_body]
pub struct ExArcStr(arcstr::ArcStr);

/// The UTF-8 bytes of the text that an `ArcStr` buffer holds.
pub uninterp spec fn arcstr_bytes(a: arcstr::ArcStr) -> Seq<u8>;

/// Relies on `arcstr::Substr::from(ArcStr)`: the view over the whole
/// buffer, sharing its storage, no copy made.  The buffer holds text, so
/// its bytes are valid UTF-8.  View indices are `u32` and the call panics
/// on longer buffers, so those are kept out.
#[verifier::external_body]
fn substr_whole(a: arcstr::ArcStr) -> (r: arcstr::Substr)
    requires
        arcstr_bytes(a).len() <= MAX_VIEW_BYTES,
    ensures
        substr_bytes(r) == arcstr_bytes(a),
        valid_utf8(substr_bytes(r)),
{
    arcstr::Substr::from(a)
}

/// Relies on `arcstr::ArcStr::len`: the byte length of the buffer's text.
#[verifier::external_body]
fn arcstr_len(a: &arcstr::ArcStr) -> (r: usize)
    ensures
        r == arcstr_bytes(*a).len(),
{
    a.len()
}

/// Relies on `arcstr::ArcStr::from(&str)`, which copies the text into one
/// fresh shared allocation (empty text gets the static empty buffer), and
/// `arcstr::Substr::from`, the view over all of it: the result addresses
/// exactly the bytes of `s`.  A fresh allocation is never the live one
/// backing `apart`, so for nonempty text the copy's buffer differs from
/// `apart`'s — `apart` is a witness for that clause and plays no part in
/// the call; for empty text the static empty buffer is reused and nothing
/// is claimed.  `arcstr` stores view indices as `u32` and panics on longer
/// text, so such inputs are kept out here.
#[verifier::external_body]
#[allow(unused_variables)]
fn substr_new_copy(s: &str, apart: Option<&arcstr::Substr>) -> (r: arcstr::Substr)
    requires
        s.spec_bytes().len() <= MAX_VIEW_BYTES,
    ensures
        substr_bytes(r) == s.spec_bytes(),
        apart matches Some(z) ==> (s.spec_bytes().len() > 0 ==> substr_provenance(r)
            != substr_provenance(*z)),
{
    arcstr::Substr::from(arcstr::ArcStr::from(s))
}

/// Relies on `arcstr::Substr::substr(start..end)`: the narrowed view keeps
/// the parent's buffer and addresses byte range `[start, end)` of this
/// view's text.  The call panics unless `start <= end <= len` and both
/// offsets fall on character boundaries, so those inputs are kept out.
#[verifier::external_body]
fn substr_narrow(z: &arcstr::Substr, start: usize, end: usize) -> (r: arcstr::Substr)
    requires
        start <= end <= substr_bytes(*z).len(),
        valid_utf8(substr_bytes(*z)),
        is_char_boundary(substr_bytes(*z), start as int),
        is_char_boundary(substr_bytes(*z), end as int),
    ensures
        substr_bytes(r) == substr_bytes(*z).subrange(start as int, end as int),
        substr_provenance(r) == substr_provenance(*z),
{
    z.substr(start..end)
}

/// Relies on `arcstr::Substr::as_str` (its `Deref` to `str`): the returned
/// slice is the view's own text, borrowed from the shared buffer.
#[verifier::external_body]
fn substr_str<'a>(z: &'a arcstr::Substr) -> (r: &'a str)
    ensures
        r.spec_bytes() == substr_bytes(*z),
{
    z.as_str()
}

/// Relies on the derived `Clone` for `arcstr::Substr`: it clones the inner
/// buffer handle — the same shared allocation — and copies the two
/// indices, so the copy addresses the same bytes of the same buffer.
#[verifier::external_body]
fn substr_dup(z: &arcstr::Substr) -> (r: arcstr::Substr)
    ensures
        substr_bytes(r) == substr_bytes(*z),
        substr_provenance(r) == substr_provenance(*z),
{
    z.clone()
}

/// Relies on `str::as_ptr`: the address of the first byte of a slice's
/// storage.  Nothing is promised of the value — where an allocation lands
/// is the machine's choice.
#[verifier::external_body]
fn str_addr(s: &str) -> usize {
    s.as_ptr() as usize
}

/// What reslice-or-copy guarantees: the result holds exactly as many bytes
/// as the candidate, and either it is a zero-copy sub-view of the source —
/// same backing buffer, text equal to some in-bounds sub-range of the
/// source's text — or it is a copy holding exactly the candidate's bytes.
pub open spec fn resliced_or_copied(src: ZCString, s_bytes: Seq<u8>, r: ZCString) -> bool {
    &&& r@.len() == s_bytes.len()
    &&& ((r.provenance() == src.provenance() && (exists|off: int|
        0 <= off && off + s_bytes.len() <= src@.len() && r@ == #[trigger] src@.subrange(
            off,
            off + s_bytes.len(),
        ))) || (r@ == s_bytes && (s_bytes.len() > 0 ==> r.provenance() != src.provenance())))
}

/// A zero-copy string view: shared ownership of one immutable buffer
/// together with a byte range within it.  Many views may alias one buffer;
/// the buffer lives until its last view is dropped, and its content is
/// never mutated.  Views compare equal by the content of the addressed
/// range, never by buffer identity.
#[derive(Debug)]
pub struct ZCString {
    inner: arcstr::Substr,
}

impl View for ZCString {
    type V = Seq<u8>;

    closed spec fn view(&self) -> Seq<u8> {
        substr_bytes(self.inner)
    }
}

impl ZCString {
    /// Identifies the shared buffer backing this view: equal exactly for
    /// views that alias one allocation.
    pub closed spec fn provenance(&self) -> int {
        substr_provenance(self.inner)
    }

    /// Every view addresses valid UTF-8 text whose length fits the backing
    /// buffer's 32-bit view indices.
    #[verifier::type_invariant]
    pub open spec fn wf(&self) -> bool {
        valid_utf8(self@) && self@.len() <= MAX_VIEW_BYTES
    }

    /// Creates a new, empty view.
    pub fn new() -> (r: ZCString)
        ensures
            r@ == Seq::<u8>::empty(),
    {
        proof {
            reveal_strlit("");
            assert(""@ =~= Seq::<char>::empty());
            assert(encode_utf8(""@) =~= Seq::<u8>::empty());
        }
        ZCString::from_str_without_source("")
    }

    /// The view over the whole of an existing shared buffer — a literal's
    /// static storage, a buffer built elsewhere — sharing its storage
    /// without a copy.
    pub fn from_arcstr(a: arcstr::ArcStr) -> (r: ZCString)
        requires
            arcstr_bytes(a).len() <= MAX_VIEW_BYTES,
        ensures
            r@ == arcstr_bytes(a),
    {
        let inner = substr_whole(a);
        ZCString { inner }
    }

    /// The view over the whole of an existing shared buffer, like
    /// [`Self::from_arcstr`], but checking the buffer's length itself:
    /// `None` exactly when the text is too long for the view indices.
    pub fn try_from_arcstr(a: arcstr::ArcStr) -> (r: Option<ZCString>)
        ensures
            r is Some <==> arcstr_bytes(a).len() <= MAX_VIEW_BYTES,
            r matches Some(z) ==> z@ == arcstr_bytes(a),
    {
        if arcstr_len(&a) <= MAX_VIEW_BYTES {
            Some(ZCString::from_arcstr(a))
        } else {
            None
        }
    }

    /// Copies `s` into a fresh shared buffer and returns the view over all
    /// of it, bypassing any provenance check.
    pub fn from_str_without_source(s: &str) -> (r: ZCString)
        requires
            s.spec_bytes().len() <= MAX_VIEW_BYTES,
        ensures
            r@ == s.spec_bytes(),
    {
        let inner = substr_new_copy(s, None);
        proof {
            encode_utf8_valid_utf8(s@);
        }
        ZCString { inner }
    }

    /// Copies `s` into a fresh shared buffer, like
    /// [`Self::from_str_without_source`], but with the guarantee that for
    /// nonempty text the copy's buffer is not this view's buffer.
    fn copy_detached(&self, s: &str) -> (r: ZCString)
        requires
            s.spec_bytes().len() <= MAX_VIEW_BYTES,
        ensures
            r@ == s.spec_bytes(),
            s.spec_bytes().len() > 0 ==> r.provenance() != self.provenance(),
    {
        let inner = substr_new_copy(s, Some(&self.inner));
        proof {
            encode_utf8_valid_utf8(s@);
        }
        ZCString { inner }
    }

    /// The text this view addresses, borrowed from the shared buffer.
    pub fn as_str(&self) -> (r: &str)
        ensures
            r.spec_bytes() == self@,
    {
        substr_str(&self.inner)
    }

    /// The view's length in bytes.
    pub fn len(&self) -> (r: usize)
        ensures
            r == self@.len(),
    {
        proof {
            use_type_invariant(self);
        }
        substr_str(&self.inner).len()
    }

    /// Whether byte offset `i` of this view's text falls on a character
    /// boundary (or at the very end), so that slicing there would not split
    /// a multi-byte character.
    pub fn is_boundary(&self, i: usize) -> (r: bool)
        ensures
            r == is_char_boundary(self@, i as int),
    {
        proof {
            use_type_invariant(self);
        }
        substr_str(&self.inner).is_char_boundary(i)
    }

    /// Slicing at byte offsets already known to be in range and on
    /// character boundaries.
    pub(crate) fn slice_unchecked(&self, start: usize, end: usize) -> (r: ZCString)
        requires
            start <= end <= self@.len(),
            is_char_boundary(self@, start as int),
            is_char_boundary(self@, end as int),
        ensures
            r@ == self@.subrange(start as int, end as int),
            r.provenance() == self.provenance(),
    {
        proof {
            use_type_invariant(self);
            lemma_subrange_at_boundaries_valid(self@, start as int, end as int);
        }
        let inner = substr_narrow(&self.inner, start, end);
        ZCString { inner }
    }

    /// Returns the sub-view over byte range `[start, end)` of this view's
    /// text, sharing the same buffer, or `None` when the range is out of
    /// bounds or either offset would split a multi-byte character.
    pub fn substr(&self, start: usize, end: usize) -> (r: Option<ZCString>)
        ensures
            r is Some <==> (start <= end <= self@.len() && is_char_boundary(self@, start as int)
                && is_char_boundary(self@, end as int)),
            r matches Some(z) ==> z@ == self@.subrange(start as int, end as int)
                && z.provenance() == self.provenance(),
    {
        if start <= end && end <= self.len() && self.is_boundary(start) && self.is_boundary(end) {
            Some(self.slice_unchecked(start, end))
        } else {
            None
        }
    }

    /// Returns `true` when the candidate slice's storage lies within the
    /// address span of this view's own storage.  A pure address comparison,
    /// never a content scan: it identifies `s` as a slice of this view only
    /// under the caller contract that `s` was produced by string operations
    /// over this view's own text, since an unrelated allocation falling
    /// inside the span by coincidence cannot be told apart.
    pub fn source_of(&self, s: &str) -> (r: bool)
        requires
            s.spec_bytes().len() <= usize::MAX,
        ensures
            r ==> s.spec_bytes().len() <= self@.len(),
    {
        let v_addr = str_addr(self.as_str());
        let s_addr = str_addr(s);
        span_offset(v_addr, self.len(), s_addr, s.len()).is_some()
    }

    /// Reslice-or-copy: when the provenance check places `s` inside this
    /// view's storage and the matching range lies on character boundaries,
    /// returns the zero-copy sub-view of the same buffer at that offset;
    /// otherwise copies `s` into a fresh buffer.  (The boundary test guards
    /// the slice against a candidate that only coincidentally overlaps the
    /// span; a candidate genuinely derived from this view always passes
    /// it.)
    pub fn from_substr(&self, s: &str) -> (r: ZCString)
        requires
            s.spec_bytes().len() <= MAX_VIEW_BYTES,
        ensures
            resliced_or_copied(*self, s.spec_bytes(), r),
    {
        let v_addr = str_addr(self.as_str());
        let s_addr = str_addr(s);
        match span_offset(v_addr, self.len(), s_addr, s.len()) {
            Some(off) => {
                let end = off + s.len();
                if self.is_boundary(off) && self.is_boundary(end) {
                    proof {
                        use_type_invariant(self);
                    }
                    let z = self.slice_unchecked(off, end);
                    proof {
                        assert(z@ == self@.subrange(off as int, off + s.spec_bytes().len()));
                    }
                    z
                } else {
                    self.copy_detached(s)
                }
            },
            None => self.copy_detached(s),
        }
    }

    /// Transforms this view through a borrowed-string operation — a trim,
    /// a pattern slice — and reslices the operation's result against this
    /// view: zero-copy whenever the result genuinely is a sub-slice of
    /// this view's text.
    pub fn map<'a, F: FnOnce(&'a str) -> &'a str>(&'a self, f: F) -> (r: ZCString)
        requires
            forall|s: &'a str| s.spec_bytes() == self@ ==> #[trigger] call_requires(f, (s,)),
            forall|s: &'a str, t: &'a str| #[trigger] call_ensures(f, (s,), t)
                ==> t.spec_bytes().len() <= MAX_VIEW_BYTES,
        ensures
            exists|s: &'a str, t: &'a str|
                s.spec_bytes() == self@ && #[trigger] call_ensures(f, (s,), t)
                    && resliced_or_copied(*self, t.spec_bytes(), r),
    {
        let s = self.as_str();
        let t = f(s);
        self.from_substr(t)
    }

    /// Whether this view's text equals the given string — a content
    /// comparison, whatever storage either side uses.
    pub fn eq_str(&self, s: &str) -> (r: bool)
        ensures
            r == (self@ == s.spec_bytes()),
    {
        bytes_eq(self.as_str().as_bytes(), s.as_bytes())
    }

    /// Copies this view's text into a fresh independent buffer, severing
    /// all aliasing with the original, so that a large source buffer can be
    /// released while a small fragment lives on: for nonempty text the
    /// result's buffer is not this view's buffer.  (Empty text reuses the
    /// one static empty buffer, where there is nothing to release.)
    pub fn detach(&self) -> (r: ZCString)
        ensures
            r@ == self@,
            self@.len() > 0 ==> r.provenance() != self.provenance(),
    {
        proof {
            use_type_invariant(self);
        }
        self.copy_detached(self.as_str())
    }
}

impl Default for ZCString {
    /// The default view is empty.
    fn default() -> (r: Self)
        ensures
            r@ == Seq::<u8>::empty(),
    {
        ZCString::new()
    }
}

impl Clone for ZCString {
    /// The clone addresses the same bytes of the same shared buffer.
    fn clone(&self) -> (r: Self)
        ensures
            r@ == self@ && r.provenance() == self.provenance(),
    {
        proof {
            use_type_invariant(self);
        }
        ZCString { inner: substr_dup(&self.inner) }
    }
}

impl PartialEq for ZCString {
    fn eq(&self, other: &ZCString) -> (r: bool) {
        bytes_eq(self.as_str().as_bytes(), other.as_str().as_bytes())
    }
}

impl vstd::std_specs::cmp::PartialEqSpecImpl for ZCString {
    open spec fn obeys_eq_spec() -> bool {
        true
    }

    open spec fn eq_spec(&self, other: &ZCString) -> bool {
        self@ == other@
    }
}

/// Lexicographic order of two byte sequences: the first differing position
/// decides, and a proper prefix orders below its extension.
pub open spec fn lex_cmp(a: Seq<u8>, b: Seq<u8>) -> core::cmp::Ordering
    decreases a.len(),
{
    if a.len() == 0 && b.len() == 0 {
        core::cmp::Ordering::Equal
    } else if a.len() == 0 {
        core::cmp::Ordering::Less
    } else if b.len() == 0 {
        core::cmp::Ordering::Greater
    } else if a[0] < b[0] {
        core::cmp::Ordering::Less
    } else if a[0] > b[0] {
        core::cmp::Ordering::Greater
    } else {
        lex_cmp(a.subrange(1, a.len() as int), b.subrange(1, b.len() as int))
    }
}

/// The order is coherent with equality: two byte sequences compare `Equal`
/// exactly when they are the same sequence.
pub proof fn lemma_lex_cmp_equal_iff(a: Seq<u8>, b: Seq<u8>)
    ensures
        lex_cmp(a, b) == core::cmp::Ordering::Equal <==> a == b,
    decreases a.len(),
{
    if a.len() == 0 && b.len() == 0 {
        assert(a =~= b);
    } else if a.len() == 0 || b.len() == 0 {
    } else if a[0] == b[0] {
        let a1 = a.subrange(1, a.len() as int);
        let b1 = b.subrange(1, b.len() as int);
        lemma_lex_cmp_equal_iff(a1, b1);
        if a1 == b1 {
            assert forall|j: int| 0 <= j < a.len() implies a[j] == b[j] by {
                if j >= 1 {
                    assert(a[j] == a1[j - 1] && b[j] == b1[j - 1]);
                }
            }
            assert(a =~= b);
        }
        if a == b {
            assert(a1 =~= b1);
        }
    } else {
        if a == b {
            assert(a[0] == b[0]);
        }
    }
}

impl PartialOrd for ZCString {
    fn partial_cmp(&self, other: &Self) -> (r: Option<core::cmp::Ordering>) {
        proof {
            lemma_lex_cmp_equal_iff(self@, other@);
        }
        Some(bytes_cmp(self.as_str().as_bytes(), other.as_str().as_bytes()))
    }
}

impl vstd::std_specs::cmp::PartialOrdSpecImpl for ZCString {
    open spec fn obeys_partial_cmp_spec() -> bool {
        true
    }

    open spec fn partial_cmp_spec(&self, other: &ZCString) -> Option<core::cmp::Ordering> {
        Some(lex_cmp(self@, other@))
    }
}

/// Compares two byte slices in lexicographic order.
fn bytes_cmp(a: &[u8], b: &[u8]) -> (r: core::cmp::Ordering)
    ensures
        r == lex_cmp(a@, b@),
{
    let a_len = a.len();
    let b_len = b.len();
    let n = if a_len < b_len {
        a_len
    } else {
        b_len
    };
    let mut i: usize = 0;
    proof {
        assert(a@.subrange(0, a@.len() as int) =~= a@);
        assert(b@.subrange(0, b@.len() as int) =~= b@);
    }
    while i < n
        invariant
            n <= a@.len() && n <= b@.len(),
            n == a@.len() || n == b@.len(),
            0 <= i <= n,
            lex_cmp(a@, b@) == lex_cmp(
                a@.subrange(i as int, a@.len() as int),
                b@.subrange(i as int, b@.len() as int),
            ),
        decreases n - i,
    {
        let ghost x = a@.subrange(i as int, a@.len() as int);
        let ghost y = b@.subrange(i as int, b@.len() as int);
        if a[i] < b[i] {
            proof {
                assert(x[0] == a@[i as int] && y[0] == b@[i as int]);
            }
            return core::cmp::Ordering::Less;
        } else if a[i] > b[i] {
            proof {
                assert(x[0] == a@[i as int] && y[0] == b@[i as int]);
            }
            return core::cmp::Ordering::Greater;
        }
        proof {
            assert(x[0] == y[0]);
            assert(x.subrange(1, x.len() as int) =~= a@.subrange(i + 1 as int, a@.len() as int));
            assert(y.subrange(1, y.len() as int) =~= b@.subrange(i + 1 as int, b@.len() as int));
        }
        i += 1;
    }
    proof {
        assert(a@.subrange(n as int, a@.len() as int).len() == a@.len() - n);
        assert(b@.subrange(n as int, b@.len() as int).len() == b@.len() - n);
    }
    if a_len == b_len {
        core::cmp::Ordering::Equal
    } else if a_len < b_len {
        core::cmp::Ordering::Less
    } else {
        core::cmp::Ordering::Greater
    }
}

/// Compares two byte slices element by element.
fn bytes_eq(a: &[u8], b: &[u8]) -> (r: bool)
    ensures
        r == (a@ == b@),
{
    if a.len() != b.len() {
        proof {
            assert(a@.len() != b@.len());
        }
        return false;
    }
    for i in 0..a.len()
        invariant
            a@.len() == b@.len(),
            i <= a@.len(),
            forall|j: int| 0 <= j < i ==> a@[j] == b@[j],
    {
        if a[i] != b[i] {
            return false;
        }
    }
    proof {
        assert(a@ =~= b@);
    }
    true
}

/// Splitting valid UTF-8 text at two character boundaries leaves the
/// middle range valid UTF-8 as well.
proof fn lemma_subrange_at_boundaries_valid(bytes: Seq<u8>, start: int, end: int)
    requires
        valid_utf8(bytes),
        0 <= start <= end <= bytes.len(),
        is_char_boundary(bytes, start),
        is_char_boundary(bytes, end),
    ensures
        valid_utf8(bytes.subrange(start, end)),
{
    valid_utf8_split(bytes, start);
    let suffix = bytes.subrange(start, bytes.len() as int);
    is_char_boundary_start_end_of_seq(suffix);
    if end == bytes.len() {
        assert(bytes.subrange(start, end) =~= suffix);
    } else if end == start {
        assert(bytes.subrange(start, end) =~= Seq::<u8>::empty());
        assert(valid_utf8(Seq::<u8>::empty()));
    } else {
        is_char_boundary_iff_not_is_continuation_byte(bytes, end);
        assert(suffix[end - start] == bytes[end]);
        is_char_boundary_iff_not_is_continuation_byte(suffix, end - start);
        valid_utf8_split(suffix, end - start);
        assert(bytes.subrange(start, end) =~= suffix.subrange(0, end - start));
    }
}

} // verus!
