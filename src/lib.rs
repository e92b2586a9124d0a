//! Immutable, reference-counted strings with a zero-cost static variant,
//! and shared substring views over them.
//!
//! [`ArcStr`] holds either a static record, which is never counted or freed,
//! or a heap record shared through an atomic count. [`Substr`] views a range
//! of an `ArcStr` and keeps it alive. [`LenFlags`] is the header that both
//! kinds of record start with.
pub mod arc_str;
pub mod header;
pub mod interop;
pub mod substr;
pub mod text;

pub use arc_str::{ArcStr, StaticArcStrInner};
pub use header::LenFlags;
pub use substr::Substr;
