//! The source context, its scoped guards, and the deserialization bridge.
//!
//! A [`SourceCtx`] is the per-execution-context slot that holds at most one
//! "current source" view.  A host program gives each of its threads a
//! context of its own; nothing here is shared across contexts.  The slot is
//! mutated only by guard installation and restoration, which swap a value
//! in and put the displaced value back, so nested activations compose as a
//! logical stack realized purely by value swapping.

use vstd::prelude::*;
use vstd::string::StringSliceAdditionalSpecFns;
use crate::zcstring::ZCString;
use crate::zcstring::MAX_VIEW_BYTES;
use crate::zcstring::resliced_or_copied;

verus! {

/// The per-execution-context slot holding at most one current source view.
pub struct SourceCtx {
    current: Option<ZCString>,
}

/// What guard installation does to a slot: the new view goes in, and the
/// previous occupant is displaced into the guard.  The first component is
/// the slot's new value, the second what the guard saves.
pub open spec fn installed(cur: Option<ZCString>, v: ZCString) -> (Option<ZCString>, Option<
    ZCString,
>) {
    (Some(v), cur)
}

/// What guard restoration does to a slot: the saved value goes back,
/// whatever the slot held meanwhile.
pub open spec fn restored(saved: Option<ZCString>) -> Option<ZCString> {
    saved
}

impl SourceCtx {
    /// What the slot currently holds.
    pub closed spec fn current_source(&self) -> Option<ZCString> {
        self.current
    }

    /// A context starts out empty.
    pub fn new() -> (r: SourceCtx)
        ensures
            r.current_source() is None,
    {
        SourceCtx { current: None }
    }

    /// Whether a source view is currently installed.
    pub fn has_source(&self) -> (r: bool)
        ensures
            r == (self.current_source() is Some),
    {
        self.current.is_some()
    }
}

/// A scoped guard: it holds the value its installation displaced from the
/// context, so that tearing it down puts exactly that value back.  Tearing
/// down is consuming, and tearing nested guards down in reverse order of
/// installation restores every earlier value in turn.
pub struct SourceGuard {
    saved: Option<ZCString>,
}

impl SourceGuard {
    /// The displaced value this guard will put back.
    pub closed spec fn saved_source(&self) -> Option<ZCString> {
        self.saved
    }

    /// Tears the guard down: the value displaced at installation returns
    /// to the slot, whatever the slot held meanwhile.
    pub fn restore(self, ctx: &mut SourceCtx)
        ensures
            final(ctx).current_source() == restored(self.saved_source()),
    {
        ctx.current = self.saved;
    }
}

impl ZCString {
    /// Installs this view as the context's current source, returning the
    /// guard that holds the previous occupant.  The installed value is a
    /// handle onto the same buffer and range as `self`.
    pub fn get_source_guard(&self, ctx: &mut SourceCtx) -> (g: SourceGuard)
        ensures
            g.saved_source() == installed(old(ctx).current_source(), *self).1,
            final(ctx).current_source() matches Some(z) && z@ == self@ && z.provenance()
                == self.provenance(),
    {
        let mut slot = Some(self.clone());
        core::mem::swap(&mut ctx.current, &mut slot);
        SourceGuard { saved: slot }
    }

    /// Resolves a candidate string against the context's current source:
    /// a zero-copy reslice of that view's buffer when one is installed and
    /// the provenance check succeeds, a fresh copy otherwise.
    pub fn from_str_with_source(ctx: &SourceCtx, s: &str) -> (r: ZCString)
        requires
            s.spec_bytes().len() <= MAX_VIEW_BYTES,
        ensures
            ctx.current_source() is None ==> r@ == s.spec_bytes(),
            ctx.current_source() matches Some(src) ==> resliced_or_copied(
                src,
                s.spec_bytes(),
                r,
            ),
    {
        match &ctx.current {
            Some(src) => src.from_substr(s),
            None => ZCString::from_str_without_source(s),
        }
    }
}

/// What a structured-data decoder reports for one string value it
/// produced: borrowed verbatim from the input text, or freshly synthesized
/// — for instance because escape sequences were processed into a new
/// buffer, so the text no longer aliases the input.
pub enum StrToken<'a> {
    Borrowed(&'a str),
    Owned(String),
}

impl<'a> StrToken<'a> {
    /// The bytes of the reported text, whichever way it was produced.
    pub open spec fn bytes(&self) -> Seq<u8> {
        match self {
            StrToken::Borrowed(s) => s.spec_bytes(),
            StrToken::Owned(s) => vstd::utf8::encode_utf8(s@),
        }
    }
}

/// The bridge between a decoder and the source context: resolves one
/// reported string value.  A borrowed token goes through the provenance
/// path against the installed source; a freshly synthesized token is
/// always copied into a new buffer, the zero-copy check being pointless
/// for text that no longer aliases the input.
pub fn resolve_token(ctx: &SourceCtx, tok: StrToken<'_>) -> (r: ZCString)
    requires
        tok.bytes().len() <= MAX_VIEW_BYTES,
    ensures
        tok matches StrToken::Owned(_) ==> r@ == tok.bytes(),
        ctx.current_source() is None ==> r@ == tok.bytes(),
        ctx.current_source() matches Some(src) ==> ((tok matches StrToken::Borrowed(_))
            ==> resliced_or_copied(src, tok.bytes(), r)),
{
    match tok {
        StrToken::Borrowed(s) => ZCString::from_str_with_source(ctx, s),
        StrToken::Owned(s) => ZCString::from_str_without_source(s.as_str()),
    }
}

/// Whether a context holds a current source that is a handle equal in
/// content and backing buffer to `src`.
pub open spec fn holds_source(c: SourceCtx, src: ZCString) -> bool {
    match c.current_source() {
        Some(cur) => cur@ == src@ && cur.provenance() == src.provenance(),
        None => false,
    }
}

impl ZCString {
    /// Runs `f` with `source` installed as the context's current source
    /// and unconditionally tears the guard down afterwards, handing `f`'s
    /// outcome through.  The restoration clause does not depend on the
    /// outcome: it holds just as well when `f` returns a failure value, so
    /// no outcome of the wrapped operation can leak a context change into
    /// later operations on the same context.
    pub fn with_source<F, R>(ctx: &mut SourceCtx, source: ZCString, f: F) -> (r: R) where
        F: FnOnce(&SourceCtx, ZCString) -> R,

        requires
            forall|c: SourceCtx|
                holds_source(c, source) ==> #[trigger] call_requires(f, (&c, source)),
        ensures
            final(ctx).current_source() == old(ctx).current_source(),
            exists|c: SourceCtx|
                holds_source(c, source) && #[trigger] call_ensures(f, (&c, source), r),
    {
        let guard = source.get_source_guard(ctx);
        let result = f(&*ctx, source);
        guard.restore(ctx);
        result
    }
}

/// Guard restoration is exact and composes in LIFO order: tearing one
/// guard down returns the slot to the value it held before installation —
/// on a failure path just as on the normal path, since what the guard
/// holds cannot depend on what happened in between — and tearing two
/// nested guards down innermost-first restores first the outer view, then
/// the original value.
pub proof fn lemma_guard_restoration_lifo(c0: Option<ZCString>, v1: ZCString, v2: ZCString)
    ensures
        restored(installed(c0, v1).1) == c0,
        ({
            let (c1, saved1) = installed(c0, v1);
            let (c2, saved2) = installed(c1, v2);
            restored(saved2) == c1 && restored(saved1) == c0
        }),
{
}

} // verus!
