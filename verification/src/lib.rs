//! Zero-copy string views over shared, immutable, reference-counted buffers.
//!
//! A [`ZCString`](zcstring::ZCString) is a handle onto a sub-range of a shared
//! buffer.  Substrings produced by ordinary string operations over a view's
//! text can be turned back into views of the same buffer instead of fresh
//! allocations: a provenance check on the candidate's address range decides
//! whether it lies inside the source buffer, and slicing replaces copying
//! whenever it does.  A per-context "current source" slot, manipulated only
//! through scoped guards, lets decoders resolve every string they produce
//! against one installed input buffer.

pub mod adapter;
pub mod context;
pub mod provenance;
pub mod reader;
pub mod zcstring;

pub use crate::adapter::ZCStringIterWrapper;
pub use crate::context::SourceCtx;
pub use crate::context::SourceGuard;
pub use crate::context::StrToken;
pub use crate::reader::RangeEdge;
pub use crate::reader::ReadPlan;
pub use crate::reader::ReaderError;
pub use crate::zcstring::ZCString;
