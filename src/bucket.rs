//! A table of usages, shared by reference between concurrent callers.
//!
//! The table is a `dashmap::DashMap`, which locks one shard per key: uses of
//! different identifiers never wait for one another, and the uses of one
//! identifier are applied one at a time. What the table holds at a given
//! moment depends on every caller, so the contracts here say what holds of
//! any usage read back; the decisions on a usage are those of [`Limit`].
use vstd::prelude::*;

use dashmap::DashMap;
use std::collections::hash_map::RandomState;
use std::time::{Duration, Instant};

use crate::limit::{Limit, Usage};
use crate::span::{span_view, Span};

verus! {

#[verifier::external_type_specification]
#[verifier::external_body]
pub struct ExInstant(Instant);

#[verifier::external_type_specification]
#[verifier::external_body]
#[verifier::reject_recursive_types(K)]
#[verifier::reject_recursive_types(V)]
#[verifier::reject_recursive_types(S)]
pub struct ExDashMap<K, V, S>(DashMap<K, V, S>);

/// Relies on `Instant::now`: the moment of the call, of which nothing is known.
pub assume_specification[ Instant::now ]() -> Instant;

/// Relies on `Instant::elapsed`: the time since the instant, which depends on
/// the clock.
pub assume_specification[ Instant::elapsed ](this: &Instant) -> Duration;

/// Relies on `Duration::as_nanos`: the whole length in nanoseconds.
pub assume_specification[ Duration::as_nanos ](this: &Duration) -> u128;

/// Relies on `DashMap::new`: an empty table.
pub assume_specification<'a, K: 'a + std::cmp::Eq + std::hash::Hash, V: 'a>[ DashMap::<K, V, RandomState>::new ]() -> DashMap<K, V, RandomState>;

/// Relies on `DashMap::get`: a copy of the usage stored for `id`, if any.
/// Other callers may change the table at any time, so nothing is known of it.
#[verifier::external_body]
fn stored(usages: &DashMap<u64, Usage>, id: u64) -> (r: Option<Usage>) {
    usages.get(&id).map(|u| *u)
}

/// Relies on `DashMap::entry`, `Entry::and_modify` and `Entry::or_insert`:
/// under the lock of the shard of `id`, the usage stored for `id` is replaced
/// by `limit.advanced(usage, now)`, or `first` is stored where there is none.
#[verifier::external_body]
fn record(usages: &DashMap<u64, Usage>, id: u64, limit: Limit, now: u128, first: Usage) {
    usages.entry(id).and_modify(|u| *u = limit.advanced(*u, now)).or_insert(first);
}

/// Tracks the usages of identifiers against one [`Limit`].
///
/// Identifiers are non-zero integers. Ask [`Bucket::limit_duration`] before a
/// use and call [`Bucket::register`] after it; the two calls are not one atomic
/// step, so under contention a few more uses than the limit may pass. Entries
/// are never removed: every identifier ever registered keeps its usage for the
/// lifetime of the bucket.
pub struct Bucket {
    /// The limit enforced.
    limit: Limit,
    /// The origin of this bucket's clock.
    origin: Instant,
    /// The usage of each registered identifier.
    usages: DashMap<u64, Usage>,
}

impl Bucket {
    /// The limit that this bucket enforces.
    pub closed spec fn limit_spec(&self) -> Limit {
        self.limit
    }

    /// A bucket with no usage yet, enforcing `limit`.
    pub fn new(limit: Limit) -> (r: Bucket)
        ensures
            r.limit_spec() == limit,
    {
        Bucket { limit, origin: Instant::now(), usages: DashMap::new() }
    }

    /// The limit that this bucket enforces.
    pub fn limit(&self) -> (r: Limit)
        ensures
            r == self.limit_spec(),
    {
        self.limit
    }

    /// The time now on this bucket's clock: nanoseconds since it was made.
    pub fn now(&self) -> (r: u128) {
        self.origin.elapsed().as_nanos()
    }

    /// Records one use of `id` at `now` on this bucket's clock.
    ///
    /// Under the lock of `id`'s entry, the usage becomes
    /// `self.limit().advanced(usage, now)`, or a first use at `now` where `id`
    /// has none; no other entry is touched.
    ///
    /// `now` is meant to be a reading of [`Bucket::now`], and the times given
    /// for one identifier should never go back: a recorded time later than the
    /// queries that follow it counts as no time passed, so the wait it leaves
    /// does not shrink until the clock reaches it.
    pub fn register_at(&self, id: u64, now: u128)
        requires
            id != 0,
    {
        let first = Usage::new(now);
        record(&self.usages, id, self.limit, now, first);
    }

    /// Records one use of `id` now; call it after the use, once
    /// [`Bucket::limit_duration`] let it pass.
    pub fn register(&self, id: u64)
        requires
            id != 0,
    {
        let now = self.now();
        self.register_at(id, now);
    }

    /// How long `id` must still wait at `now` on this bucket's clock, or
    /// `None` when it is not limited. Nothing in the table changes.
    ///
    /// The answer is the limit's decision on whatever usage the table holds
    /// for `id` at the moment of the call.
    pub fn limit_duration_at(&self, id: u64, now: u128) -> (r: Option<Span>)
        requires
            id != 0,
        ensures
            exists|u: Option<Usage>| span_view(r) == #[trigger] self.limit_spec().remaining(u, now),
            r matches Some(s) ==> 0 < s@ <= self.limit_spec().window_spec(),
    {
        let usage = stored(&self.usages, id);
        self.limit.limit_duration(usage, now)
    }

    /// How long `id` must still wait now, or `None` when it is not limited;
    /// call it before a use. Nothing in the table changes.
    pub fn limit_duration(&self, id: u64) -> (r: Option<Span>)
        requires
            id != 0,
        ensures
            r matches Some(s) ==> 0 < s@ <= self.limit_spec().window_spec(),
    {
        let now = self.now();
        self.limit_duration_at(id, now)
    }
}

} // verus!
