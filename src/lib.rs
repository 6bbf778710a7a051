//! Per-identifier rate limiting over a rolling time window.
//!
//! A [`Limit`] says how many uses an identifier may make within a window of
//! time. A [`Bucket`] tracks the uses of many identifiers concurrently and
//! answers, for one of them, how long it still has to wait.
//!
//! The decisions themselves are pure functions over [`Usage`] records and
//! points in time, verified against the spec functions of [`Limit`].
use vstd::prelude::*;

pub mod span;
pub mod limit;
pub mod bucket;

pub use span::Span;
pub use limit::{Limit, Usage};
pub use bucket::Bucket;
