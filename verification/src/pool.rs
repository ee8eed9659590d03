//! Configuration and policy of the pool of controller connections: the pool's
//! limits, what happens when no permit is free, which idle connections a cleanup
//! closes, and whether a released connection goes back to the pool.

use std::collections::VecDeque;
use vstd::prelude::*;

verus! {

/// A span of time as whole seconds and the nanoseconds beyond them, the way
/// `std::time::Duration` holds it.
#[derive(Clone, Copy, PartialEq, Eq, Debug, Structural)]
pub struct Span {
    pub secs: u64,
    pub nanos: u32,
}

impl Span {
    /// The span in nanoseconds.
    pub open spec fn total_nanos(self) -> int {
        self.secs * 1_000_000_000 + self.nanos
    }

    /// `secs` whole seconds.
    pub fn from_secs(secs: u64) -> (r: Span)
        ensures
            r == (Span { secs, nanos: 0 }),
    {
        Span { secs, nanos: 0 }
    }

    /// `millis` milliseconds.
    pub fn from_millis(millis: u64) -> (r: Span)
        ensures
            r.secs == millis / 1000,
            r.nanos == (millis % 1000) * 1_000_000,
            r.total_nanos() == millis * 1_000_000,
    {
        let r = Span { secs: millis / 1000, nanos: ((millis % 1000) * 1_000_000) as u32 };
        assert(r.total_nanos() == millis * 1_000_000) by (nonlinear_arith)
            requires
                r.secs == millis / 1000,
                r.nanos == (millis % 1000) * 1_000_000,
        ;
        r
    }

    /// The span in nanoseconds.
    pub fn as_nanos(&self) -> (r: u128)
        ensures
            r == self.total_nanos(),
    {
        self.secs as u128 * 1_000_000_000u128 + self.nanos as u128
    }
}

/// What a caller does when every permit of the pool is taken.
#[derive(Clone, Copy, PartialEq, Eq, Debug, Structural)]
pub enum RejectPolicy {
    /// Add a permit and open a new connection without waiting.
    New,
    /// Fail at once: the pool is full.
    Reject,
    /// Wait for a permit, at most this long.
    Timeout(Span),
    /// Wait for a permit as long as it takes.
    Wait,
}

impl Default for RejectPolicy {
    fn default() -> (r: Self)
        ensures
            r == RejectPolicy::New,
    {
        RejectPolicy::New
    }
}

/// The configuration of the connection pool.
#[derive(Clone, Copy, PartialEq, Eq, Debug, Structural)]
pub struct IpcPoolConfig {
    /// Connections that a cleanup never closes (default 3).
    pub min_connections: usize,
    /// Permits of the pool (default 10).
    pub max_connections: usize,
    /// How long a pooled connection may stay unused (default 60 s).
    pub idle_timeout: Span,
    /// Time between two cleanups (default 60 s).
    pub health_check_interval: Span,
    /// What to do when no permit is free (default `New`).
    pub reject_policy: RejectPolicy,
}

/// The default configuration: 3 to 10 connections, 60 s idle timeout and health-check
/// interval, and new connections when the pool is full.
pub open spec fn default_pool_config() -> IpcPoolConfig {
    IpcPoolConfig {
        min_connections: 3,
        max_connections: 10,
        idle_timeout: Span { secs: 60, nanos: 0 },
        health_check_interval: Span { secs: 60, nanos: 0 },
        reject_policy: RejectPolicy::New,
    }
}

impl Default for IpcPoolConfig {
    fn default() -> (r: Self)
        ensures
            r == default_pool_config(),
    {
        IpcPoolConfig {
            min_connections: 3,
            max_connections: 10,
            idle_timeout: Span::from_secs(60),
            health_check_interval: Span::from_secs(60),
            reject_policy: RejectPolicy::New,
        }
    }
}

/// Builds an [`IpcPoolConfig`], starting from the defaults.
pub struct IpcPoolConfigBuilder {
    min_connections: usize,
    max_connections: usize,
    idle_timeout: Span,
    health_check_interval: Span,
    reject_policy: RejectPolicy,
}

impl View for IpcPoolConfigBuilder {
    type V = IpcPoolConfig;

    /// The configuration that `build` returns.
    closed spec fn view(&self) -> IpcPoolConfig {
        IpcPoolConfig {
            min_connections: self.min_connections,
            max_connections: self.max_connections,
            idle_timeout: self.idle_timeout,
            health_check_interval: self.health_check_interval,
            reject_policy: self.reject_policy,
        }
    }
}

impl Default for IpcPoolConfigBuilder {
    fn default() -> (r: Self)
        ensures
            r@ == default_pool_config(),
    {
        IpcPoolConfigBuilder {
            min_connections: 3,
            max_connections: 10,
            idle_timeout: Span::from_secs(60),
            health_check_interval: Span::from_secs(60),
            reject_policy: RejectPolicy::New,
        }
    }
}

impl IpcPoolConfigBuilder {
    /// A builder holding the default configuration.
    pub fn new() -> (r: Self)
        ensures
            r@ == default_pool_config(),
    {
        Self::default()
    }

    /// Sets the number of connections that cleanups keep.
    pub fn min_connections(self, min_connections: usize) -> (r: Self)
        ensures
            r@ == (IpcPoolConfig { min_connections, ..self@ }),
    {
        IpcPoolConfigBuilder { min_connections, ..self }
    }

    /// Sets the number of permits.
    pub fn max_connections(self, max_connections: usize) -> (r: Self)
        ensures
            r@ == (IpcPoolConfig { max_connections, ..self@ }),
    {
        IpcPoolConfigBuilder { max_connections, ..self }
    }

    /// Sets how long a pooled connection may stay unused.
    pub fn idle_timeout(self, idle_timeout: Span) -> (r: Self)
        ensures
            r@ == (IpcPoolConfig { idle_timeout, ..self@ }),
    {
        IpcPoolConfigBuilder { idle_timeout, ..self }
    }

    /// Sets the time between two cleanups.
    pub fn health_check_interval(self, health_check_interval: Span) -> (r: Self)
        ensures
            r@ == (IpcPoolConfig { health_check_interval, ..self@ }),
    {
        IpcPoolConfigBuilder { health_check_interval, ..self }
    }

    /// Sets what to do when no permit is free.
    pub fn reject_policy(self, reject_policy: RejectPolicy) -> (r: Self)
        ensures
            r@ == (IpcPoolConfig { reject_policy, ..self@ }),
    {
        IpcPoolConfigBuilder { reject_policy, ..self }
    }

    /// The configuration set so far.
    pub fn build(self) -> (r: IpcPoolConfig)
        ensures
            r == self@,
    {
        IpcPoolConfig {
            min_connections: self.min_connections,
            max_connections: self.max_connections,
            idle_timeout: self.idle_timeout,
            health_check_interval: self.health_check_interval,
            reject_policy: self.reject_policy,
        }
    }
}

/// Each setter changes its own field and no other; `build` returns them all.
pub proof fn law_builder_sets_only_its_field(c: IpcPoolConfig, min: usize, max: usize, idle: Span, interval: Span, policy: RejectPolicy)
    ensures
        (IpcPoolConfig { reject_policy: policy, ..(IpcPoolConfig { health_check_interval: interval, ..(IpcPoolConfig { idle_timeout: idle, ..(IpcPoolConfig { max_connections: max, ..(IpcPoolConfig { min_connections: min, ..c }) }) }) }) })
            == (IpcPoolConfig { min_connections: min, max_connections: max, idle_timeout: idle, health_check_interval: interval, reject_policy: policy }),
{
}

/// What the pool does when no permit is free, by its reject policy.
#[derive(Clone, Copy, PartialEq, Eq, Debug, Structural)]
pub enum PermitFallback {
    /// Add one permit, then wait for a permit; if that wait fails, forget the added
    /// permit and fail with "connection failed".
    AddPermitAndWait,
    /// Fail with "pool full".
    Reject,
    /// Wait at most this long; a closed semaphore is "pool full", the deadline a timeout.
    WaitAtMost(Span),
    /// Wait; a closed semaphore is "pool full".
    Wait,
}

/// The pool's answer to a full semaphore under `policy`.
pub fn permit_fallback(policy: RejectPolicy) -> (r: PermitFallback)
    ensures
        r == match policy {
            RejectPolicy::New => PermitFallback::AddPermitAndWait,
            RejectPolicy::Reject => PermitFallback::Reject,
            RejectPolicy::Timeout(d) => PermitFallback::WaitAtMost(d),
            RejectPolicy::Wait => PermitFallback::Wait,
        },
{
    match policy {
        RejectPolicy::New => PermitFallback::AddPermitAndWait,
        RejectPolicy::Reject => PermitFallback::Reject,
        RejectPolicy::Timeout(d) => PermitFallback::WaitAtMost(d),
        RejectPolicy::Wait => PermitFallback::Wait,
    }
}

/// A released connection goes back to the pool unless every permit is already free,
/// in which case the pool forgets one permit and closes the connection.
pub fn keep_released_connection(available_permits: usize, max_connections: usize) -> (r: bool)
    ensures
        r == (available_permits < max_connections),
{
    available_permits < max_connections
}

/// How long a connection last used at `last` has been idle at `now` (times in
/// nanoseconds on one monotonic clock; a `last` after `now` counts as no time).
pub open spec fn idle_nanos(now: u128, last: u128) -> int {
    if now >= last {
        now - last
    } else {
        0
    }
}

/// The connections that a cleanup keeps from `items` (connection and the time it was
/// last used), `kept` having been kept before them: the first `min` kept ones, and every
/// other one idle no longer than `timeout`.
pub open spec fn retained<C>(items: Seq<(C, u128)>, now: u128, min: nat, timeout: int, kept: nat) -> Seq<(C, u128)>
    decreases items.len(),
{
    if items.len() == 0 {
        Seq::empty()
    } else if kept < min || idle_nanos(now, items[0].1) <= timeout {
        seq![items[0]] + retained(items.drop_first(), now, min, timeout, kept + 1)
    } else {
        retained(items.drop_first(), now, min, timeout, kept)
    }
}

/// A cleanup: with fewer than `min` connections nothing happens; otherwise the idle
/// ones beyond the first `min` kept are closed.
pub open spec fn cleaned<C>(items: Seq<(C, u128)>, now: u128, min: nat, timeout: int) -> Seq<(C, u128)> {
    if items.len() < min {
        items
    } else {
        retained(items, now, min, timeout, 0)
    }
}

/// The connections that a cleanup closes from `items`, `kept` having been kept before
/// them: those that [`retained`] leaves out, in order.
pub open spec fn expired<C>(items: Seq<(C, u128)>, now: u128, min: nat, timeout: int, kept: nat) -> Seq<C>
    decreases items.len(),
{
    if items.len() == 0 {
        Seq::empty()
    } else if kept < min || idle_nanos(now, items[0].1) <= timeout {
        expired(items.drop_first(), now, min, timeout, kept + 1)
    } else {
        seq![items[0].0] + expired(items.drop_first(), now, min, timeout, kept)
    }
}

/// The connections that a cleanup closes: none with fewer than `min` connections,
/// otherwise the [`expired`] ones.
pub open spec fn closed_by_cleanup<C>(items: Seq<(C, u128)>, now: u128, min: nat, timeout: int) -> Seq<C> {
    if items.len() < min {
        Seq::empty()
    } else {
        expired(items, now, min, timeout, 0)
    }
}

/// The pooled connections, oldest release first, each with the time it was released.
pub struct ConnectionQueue<C> {
    items: VecDeque<(C, u128)>,
}

impl<C> View for ConnectionQueue<C> {
    type V = Seq<(C, u128)>;

    closed spec fn view(&self) -> Seq<(C, u128)> {
        self.items@
    }
}

impl<C> ConnectionQueue<C> {
    /// An empty queue.
    pub fn new() -> (r: Self)
        ensures
            r@ == Seq::<(C, u128)>::empty(),
    {
        ConnectionQueue { items: VecDeque::new() }
    }

    /// The number of pooled connections.
    pub fn len(&self) -> (r: usize)
        ensures
            r == self@.len(),
    {
        self.items.len()
    }

    /// Takes the connection that was released first.
    pub fn pop_front(&mut self) -> (r: Option<C>)
        ensures
            old(self)@.len() == 0 ==> r is None && final(self)@ == old(self)@,
            old(self)@.len() > 0 ==> r == Some(old(self)@[0].0) && final(self)@ == old(self)@.drop_first(),
    {
        match self.items.pop_front() {
            Some((c, _)) => Some(c),
            None => None,
        }
    }

    /// Returns a connection to the pool at time `now`, unless every one of the
    /// `max_connections` permits is free (see [`keep_released_connection`]); a
    /// connection that is not kept is handed back to be closed.
    pub fn release(&mut self, conn: C, now: u128, available_permits: usize, max_connections: usize) -> (r: Option<C>)
        ensures
            available_permits < max_connections ==> r is None && final(self)@ == old(self)@.push((conn, now)),
            available_permits >= max_connections ==> r == Some(conn) && final(self)@ == old(self)@,
    {
        if keep_released_connection(available_permits, max_connections) {
            self.items.push_back((conn, now));
            None
        } else {
            Some(conn)
        }
    }

    /// Closes the connections that a cleanup at `now` under `config` drops and returns
    /// them, in their order in the pool; the connections it keeps stay in order.
    pub fn cleanup_idle_connections(&mut self, now: u128, config: &IpcPoolConfig) -> (dropped: Vec<C>)
        ensures
            final(self)@ == cleaned(old(self)@, now, config.min_connections as nat, config.idle_timeout.total_nanos()),
            dropped@ == closed_by_cleanup(old(self)@, now, config.min_connections as nat, config.idle_timeout.total_nanos()),
    {
        let min = config.min_connections;
        if self.items.len() < min {
            return Vec::new();
        }
        let timeout = config.idle_timeout.as_nanos();
        let mut kept: VecDeque<(C, u128)> = VecDeque::new();
        let mut dropped: Vec<C> = Vec::new();
        let mut count: usize = 0;
        let ghost all = self.items@;
        let ghost target = retained(all, now, min as nat, timeout as int, 0);
        let ghost dtarget = expired(all, now, min as nat, timeout as int, 0);
        assert(all.subrange(0, all.len() as int) == all);
        assert(all.len() <= usize::MAX);
        while self.items.len() > 0
            invariant
                all.len() <= usize::MAX,
                count <= kept@.len(),
                kept@.len() <= all.len() - self.items@.len(),
                self.items@.len() <= all.len(),
                self.items@ == all.subrange(all.len() - self.items@.len(), all.len() as int),
                target == kept@ + retained(self.items@, now, min as nat, timeout as int, count as nat),
                dtarget == dropped@ + expired(self.items@, now, min as nat, timeout as int, count as nat),
                timeout == config.idle_timeout.total_nanos(),
                min == config.min_connections,
            decreases self.items@.len(),
        {
            let ghost rest = self.items@;
            if let Some((c, last)) = self.items.pop_front() {
                assert(self.items@ == rest.drop_first());
                let idle: u128 = if now >= last { now - last } else { 0 };
                if count < min || idle <= timeout {
                    kept.push_back((c, last));
                    count = count + 1;
                    proof {
                        assert(kept@ + retained(self.items@, now, min as nat, timeout as int, count as nat)
                            =~= (kept@.drop_last()) + (seq![rest[0]] + retained(rest.drop_first(), now, min as nat, timeout as int, count as nat)));
                    }
                } else {
                    dropped.push(c);
                    proof {
                        assert(dropped@ + expired(self.items@, now, min as nat, timeout as int, count as nat)
                            =~= dropped@.drop_last() + (seq![rest[0].0] + expired(rest.drop_first(), now, min as nat, timeout as int, count as nat)));
                    }
                }
            }
        }
        self.items = kept;
        proof {
            assert(kept@ + Seq::<(C, u128)>::empty() == kept@);
            assert(dropped@ + Seq::<C>::empty() == dropped@);
        }
        dropped
    }

    /// Closes every pooled connection.
    pub fn clear_pool(&mut self)
        ensures
            final(self)@ == Seq::<(C, u128)>::empty(),
    {
        self.items = VecDeque::new();
    }
}

proof fn lemma_retained_counts<C>(items: Seq<(C, u128)>, now: u128, min: nat, timeout: int, kept: nat)
    ensures
        retained(items, now, min, timeout, kept).len() >= if kept >= min { 0 } else if items.len() < min - kept { items.len() } else { (min - kept) as nat },
        forall|i: int| 0 <= i < items.len() && idle_nanos(now, items[i].1) <= timeout ==> retained(items, now, min, timeout, kept).contains(#[trigger] items[i]),
    decreases items.len(),
{
    if items.len() > 0 {
        let rest = items.drop_first();
        if kept < min || idle_nanos(now, items[0].1) <= timeout {
            lemma_retained_counts(rest, now, min, timeout, kept + 1);
            let r = retained(items, now, min, timeout, kept);
            assert(r == seq![items[0]] + retained(rest, now, min, timeout, kept + 1));
            assert forall|i: int| 0 <= i < items.len() && idle_nanos(now, items[i].1) <= timeout implies r.contains(#[trigger] items[i]) by {
                if i == 0 {
                    assert(r[0] == items[0]);
                } else {
                    assert(items[i] == rest[i - 1]);
                    let rr = retained(rest, now, min, timeout, kept + 1);
                    assert(rr.contains(rest[i - 1]));
                    let j = choose|j: int| 0 <= j < rr.len() && #[trigger] rr[j] == rest[i - 1];
                    assert(r[j + 1] == items[i]);
                }
            }
        } else {
            lemma_retained_counts(rest, now, min, timeout, kept);
            assert forall|i: int| 0 <= i < items.len() && idle_nanos(now, items[i].1) <= timeout implies retained(items, now, min, timeout, kept).contains(#[trigger] items[i]) by {
                assert(i != 0);
                assert(items[i] == rest[i - 1]);
            }
        }
    }
}

proof fn lemma_retained_from<C>(items: Seq<(C, u128)>, now: u128, min: nat, timeout: int, kept: nat)
    ensures
        retained(items, now, min, timeout, kept).len() <= items.len(),
        forall|j: int| 0 <= j < retained(items, now, min, timeout, kept).len()
            ==> items.contains(#[trigger] retained(items, now, min, timeout, kept)[j]),
    decreases items.len(),
{
    if items.len() > 0 {
        let rest = items.drop_first();
        let r = retained(items, now, min, timeout, kept);
        if kept < min || idle_nanos(now, items[0].1) <= timeout {
            lemma_retained_from(rest, now, min, timeout, kept + 1);
            let t = retained(rest, now, min, timeout, kept + 1);
            assert(r == seq![items[0]] + t);
            assert forall|j: int| 0 <= j < r.len() implies items.contains(#[trigger] r[j]) by {
                if j == 0 {
                    assert(items[0] == r[0]);
                } else {
                    assert(r[j] == t[j - 1]);
                    assert(rest.contains(t[j - 1]));
                    let k = choose|k: int| 0 <= k < rest.len() && rest[k] == t[j - 1];
                    assert(items[k + 1] == rest[k]);
                }
            }
        } else {
            lemma_retained_from(rest, now, min, timeout, kept);
            assert forall|j: int| 0 <= j < r.len() implies items.contains(#[trigger] r[j]) by {
                assert(rest.contains(r[j]));
                let k = choose|k: int| 0 <= k < rest.len() && rest[k] == r[j];
                assert(items[k + 1] == rest[k]);
            }
        }
    }
}

/// A cleanup keeps at least `min_connections` connections (all of them, when there are
/// fewer), never closes a connection that has been idle no longer than the timeout, and
/// keeps only connections that were pooled.
pub proof fn law_cleanup_keeps_minimum_and_fresh<C>(items: Seq<(C, u128)>, now: u128, min: nat, timeout: int)
    ensures
        cleaned(items, now, min, timeout).len() >= if items.len() < min { items.len() } else { min },
        forall|i: int| 0 <= i < items.len() && idle_nanos(now, items[i].1) <= timeout ==> cleaned(items, now, min, timeout).contains(#[trigger] items[i]),
        cleaned(items, now, min, timeout).len() <= items.len(),
        forall|j: int| 0 <= j < cleaned(items, now, min, timeout).len() ==> items.contains(#[trigger] cleaned(items, now, min, timeout)[j]),
{
    lemma_retained_counts(items, now, min, timeout, 0);
    lemma_retained_from(items, now, min, timeout, 0);
    if items.len() < min {
        assert forall|j: int| 0 <= j < items.len() implies items.contains(#[trigger] cleaned(items, now, min, timeout)[j]) by {
            assert(cleaned(items, now, min, timeout)[j] == items[j]);
        }
    }
    if items.len() < min {
        assert forall|i: int| 0 <= i < items.len() && idle_nanos(now, items[i].1) <= timeout implies cleaned(items, now, min, timeout).contains(#[trigger] items[i]) by {
            assert(cleaned(items, now, min, timeout)[i] == items[i]);
        }
    }
}

} // verus!
