//! The rate-limit policy and the decisions it makes on one identifier's usage.
use vstd::prelude::*;

use crate::span::{lemma_span_eq, span_view, Span};

verus! {

/// How long ago `since` was, seen from `now`.
///
/// A `since` that lies after `now` counts as no time at all, as with the
/// saturating difference of two std `Instant`s.
pub open spec fn elapsed(since: u128, now: u128) -> nat {
    if since <= now {
        (now - since) as nat
    } else {
        0
    }
}

/// Usage of one identifier: the time of its last recorded use, in nanoseconds
/// on the owner's clock, and the number of uses counted in the current window.
#[derive(Clone, Copy, Debug, PartialEq, Eq, Structural, Hash)]
pub struct Usage {
    /// When it was last used.
    pub time: u128,
    /// How many times it was used in the current window.
    pub count: u16,
}

impl Usage {
    /// A first use at `time`.
    pub fn new(time: u128) -> (r: Usage)
        ensures
            r.time == time,
            r.count == 1,
    {
        Usage { time, count: 1 }
    }
}

/// At most `count` uses within every `window` of time.
#[derive(Clone, Copy, Debug, PartialEq, Eq, Structural, PartialOrd, Ord, Hash)]
pub struct Limit {
    /// The length of the window.
    window: Span,
    /// The number of uses allowed within the window.
    count: u16,
}

impl Limit {
    /// The length of the window, in nanoseconds.
    pub closed spec fn window_spec(&self) -> nat {
        self.window@
    }

    /// The number of uses allowed within the window.
    pub closed spec fn count_spec(&self) -> u16 {
        self.count
    }

    /// The limit of `count` uses per `window`. Any values are accepted; a count
    /// of zero limits every identifier from its first use on.
    pub fn new(window: Span, count: u16) -> (r: Limit)
        ensures
            r.window_spec() == window@,
            r.count_spec() == count,
    {
        Limit { window, count }
    }

    /// The length of the window.
    pub fn window(&self) -> (r: Span)
        ensures
            r@ == self.window_spec(),
    {
        self.window
    }

    /// The number of uses allowed within the window.
    pub fn count(&self) -> (r: u16)
        ensures
            r == self.count_spec(),
    {
        self.count
    }

    /// The usage after one more use at `now`, given the usage before it.
    ///
    /// Once more than a whole window has passed since the last use the count
    /// starts again at one; otherwise it grows by one, and stays at `u16::MAX`
    /// rather than wrap, which keeps the identifier limited.
    pub open spec fn advance(&self, usage: Usage, now: u128) -> Usage {
        Usage {
            time: now,
            count: if elapsed(usage.time, now) > self.window_spec() {
                1
            } else if usage.count == u16::MAX {
                u16::MAX
            } else {
                (usage.count + 1) as u16
            },
        }
    }

    /// The usage recorded by a use at `now`, given what was recorded before.
    pub open spec fn after(&self, usage: Option<Usage>, now: u128) -> Usage {
        match usage {
            Some(u) => self.advance(u, now),
            None => Usage { time: now, count: 1 },
        }
    }

    /// How long, in nanoseconds, an identifier with the recorded `usage` must
    /// still wait at `now`; `None` when it is not limited.
    pub open spec fn remaining(&self, usage: Option<Usage>, now: u128) -> Option<nat> {
        match usage {
            None => None,
            Some(u) => if u.count >= self.count_spec() && elapsed(u.time, now)
                < self.window_spec() {
                Some((self.window_spec() - elapsed(u.time, now)) as nat)
            } else {
                None
            },
        }
    }

    /// The usage after one more use at `now`.
    pub fn advanced(&self, usage: Usage, now: u128) -> (r: Usage)
        ensures
            r == self.advance(usage, now),
    {
        let since = now.saturating_sub(usage.time);
        let count = if since > self.window.as_nanos() {
            1
        } else {
            usage.count.saturating_add(1)
        };
        Usage { time: now, count }
    }

    /// How long an identifier with the recorded `usage` must still wait at
    /// `now`, or `None` when it is not limited.
    pub fn limit_duration(&self, usage: Option<Usage>, now: u128) -> (r: Option<Span>)
        ensures
            span_view(r) == self.remaining(usage, now),
    {
        match usage {
            None => None,
            Some(u) => {
                let since = now.saturating_sub(u.time);
                let window = self.window.as_nanos();
                if u.count >= self.count && since < window {
                    Some(Span::from_nanos(window - since))
                } else {
                    None
                }
            },
        }
    }
}

impl Limit {
    /// The usage recorded after uses at each of `times` in turn, starting from
    /// the recorded `usage`.
    pub open spec fn replay(&self, usage: Option<Usage>, times: Seq<u128>) -> Option<Usage>
        decreases times.len(),
    {
        if times.len() == 0 {
            usage
        } else {
            self.replay(Some(self.after(usage, times[0])), times.drop_first())
        }
    }

    /// Each of `times` comes no earlier than the one before it and at most one
    /// window after it.
    pub open spec fn in_one_run(&self, times: Seq<u128>) -> bool {
        forall|i: int|
            0 < i < times.len() ==> times[i - 1] <= #[trigger] times[i] && times[i] - times[i - 1]
                <= self.window_spec()
    }
}

/// Two limits are equal exactly when their windows and their counts are.
pub proof fn lemma_limit_eq(a: Limit, b: Limit)
    ensures
        (a == b) <==> (a.window_spec() == b.window_spec() && a.count_spec() == b.count_spec()),
{
    lemma_span_eq(a.window, b.window);
}

/// A stretch of a run is a run.
proof fn lemma_run_stretch(limit: Limit, times: Seq<u128>, lo: int, hi: int)
    requires
        limit.in_one_run(times),
        0 <= lo <= hi <= times.len(),
    ensures
        limit.in_one_run(times.subrange(lo, hi)),
{
    let part = times.subrange(lo, hi);
    assert forall|i: int| 0 < i < part.len() implies part[i - 1] <= #[trigger] part[i] && part[i]
        - part[i - 1] <= limit.window_spec() by {
        assert(part[i - 1] == times[lo + i - 1] && part[i] == times[lo + i]);
    }
}

/// Uses in one run, each at most a window after the last, add up: the count
/// grows by one per use and the time is that of the last use.
proof fn lemma_run_counts(limit: Limit, start: Usage, times: Seq<u128>)
    requires
        limit.in_one_run(times),
        times.len() > 0 ==> start.time <= times[0] && times[0] - start.time
            <= limit.window_spec(),
        start.count + times.len() <= u16::MAX,
    ensures
        limit.replay(Some(start), times) == Some(
            Usage {
                time: if times.len() == 0 {
                    start.time
                } else {
                    times.last()
                },
                count: (start.count + times.len()) as u16,
            },
        ),
    decreases times.len(),
{
    if times.len() > 0 {
        let rest = times.drop_first();
        lemma_run_stretch(limit, times, 1, times.len() as int);
        assert(rest =~= times.subrange(1, times.len() as int));
        if rest.len() > 0 {
            assert(times[1] == rest[0]);
        }
        lemma_run_counts(limit, limit.after(Some(start), times[0]), rest);
    }
}

/// Uses in one run, starting from nothing, count one each: the usage after
/// them is the last time with the number of uses.
proof fn lemma_fresh_run(limit: Limit, times: Seq<u128>)
    requires
        limit.in_one_run(times),
        0 < times.len() <= u16::MAX,
    ensures
        limit.replay(None, times) == Some(
            Usage { time: times.last(), count: times.len() as u16 },
        ),
{
    let rest = times.drop_first();
    lemma_run_stretch(limit, times, 1, times.len() as int);
    assert(rest =~= times.subrange(1, times.len() as int));
    if rest.len() > 0 {
        assert(times[1] == rest[0]);
    }
    lemma_run_counts(limit, Usage { time: times[0], count: 1 }, rest);
}

/// An identifier that was never registered is not limited.
pub proof fn lemma_unregistered_not_limited(limit: Limit, now: u128)
    ensures
        limit.remaining(None, now).is_none(),
{
}

/// Starting from nothing, every use of a run of at most `count` uses finds the
/// identifier not limited just before it.
pub proof fn lemma_run_passes(limit: Limit, times: Seq<u128>)
    requires
        limit.in_one_run(times),
        times.len() <= limit.count_spec(),
    ensures
        forall|k: int|
            0 <= k < times.len() ==> #[trigger] limit.remaining(
                limit.replay(None, times.take(k)),
                times[k],
            ).is_none(),
{
    assert forall|k: int| 0 <= k < times.len() implies #[trigger] limit.remaining(
        limit.replay(None, times.take(k)),
        times[k],
    ).is_none() by {
        if k > 0 {
            lemma_run_stretch(limit, times, 0, k);
            assert(times.take(k) =~= times.subrange(0, k));
            lemma_fresh_run(limit, times.take(k));
        }
    }
}

/// Registering one identifier `count` times in one run, starting from nothing,
/// lets every one of those uses pass, and limits the identifier afterwards for
/// the rest of the window since the last use.
pub proof fn lemma_limited_after_count(limit: Limit, times: Seq<u128>, now: u128)
    requires
        limit.count_spec() >= 1,
        times.len() == limit.count_spec(),
        limit.in_one_run(times),
        times.last() <= now,
        now - times.last() < limit.window_spec(),
    ensures
        forall|k: int|
            0 <= k < times.len() ==> #[trigger] limit.remaining(
                limit.replay(None, times.take(k)),
                times[k],
            ).is_none(),
        limit.replay(None, times) == Some(Usage { time: times.last(), count: limit.count_spec() }),
        limit.remaining(limit.replay(None, times), now) == Some(
            (limit.window_spec() - (now - times.last())) as nat,
        ),
{
    lemma_run_passes(limit, times);
    lemma_fresh_run(limit, times);
}

/// Once a whole window has passed since the last use, the identifier is no
/// longer limited.
pub proof fn lemma_free_after_window(limit: Limit, usage: Usage, now: u128)
    requires
        elapsed(usage.time, now) >= limit.window_spec(),
    ensures
        limit.remaining(Some(usage), now).is_none(),
{
}

/// A use more than a window after the last one starts the count again: from
/// there on, uses are counted as for an identifier never registered, so a run
/// of up to `count` uses passes again, each found not limited just before it.
pub proof fn lemma_reset_after_window(limit: Limit, usage: Usage, times: Seq<u128>)
    requires
        times.len() > 0,
        elapsed(usage.time, times[0]) > limit.window_spec(),
    ensures
        limit.after(Some(usage), times[0]) == (Usage { time: times[0], count: 1 }),
        limit.replay(Some(usage), times) == limit.replay(None, times),
        limit.in_one_run(times) && times.len() <= limit.count_spec() ==> forall|k: int|
            0 <= k < times.len() ==> #[trigger] limit.remaining(
                limit.replay(Some(usage), times.take(k)),
                times[k],
            ).is_none(),
{
    if limit.in_one_run(times) && times.len() <= limit.count_spec() {
        lemma_run_passes(limit, times);
        assert forall|k: int| 0 <= k < times.len() implies #[trigger] limit.remaining(
            limit.replay(Some(usage), times.take(k)),
            times[k],
        ).is_none() by {
            if k > 0 {
                let part = times.take(k);
                assert(part[0] == times[0]);
                assert(limit.replay(Some(usage), part) == limit.replay(None, part));
                assert(limit.remaining(limit.replay(None, times.take(k)), times[k]).is_none());
            }
        }
    }
}

/// Between two queries with no use in between, the wait shrinks by exactly the
/// time that passed, and so strictly, until it is over.
pub proof fn lemma_wait_decreases(limit: Limit, usage: Usage, t1: u128, t2: u128, d1: nat)
    requires
        usage.time <= t1 < t2,
        limit.remaining(Some(usage), t1) == Some(d1),
    ensures
        (match limit.remaining(Some(usage), t2) {
            Some(d2) => d2 == d1 - (t2 - t1) && d2 < d1,
            None => t2 - t1 >= d1,
        }),
{
}

} // verus!
