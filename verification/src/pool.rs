//! The pool's bookkeeping: which connections exist, which are handed out, and
//! what a caller who asks for one is told to do.
//!
//! The pool opens no transport and never waits. It decides; the caller opens,
//! closes and waits as told, and reports back.

use crate::config::PoolConfig;
use crate::error::{Error, ErrorKind};
use vstd::prelude::*;

verus! {

/// What the pool records of one transport connection.
#[derive(Clone, Copy, Debug, PartialEq, Eq, Structural)]
pub struct Connection {
    /// The identifier the pool issued for it; never issued twice.
    pub id: u64,
    /// When it was created.
    pub created_at: u64,
    /// When it was last handed out or taken back.
    pub last_used: u64,
    /// Whether it is fit for use.
    pub healthy: bool,
}

/// What a caller who asked for a connection is told.
#[derive(Clone, Copy, Debug, PartialEq, Eq, Structural)]
pub enum Acquire {
    /// An idle connection is handed out.
    Reused(Connection),
    /// A place is reserved under a new identifier: the caller opens the
    /// transport, and releases the connection as unhealthy if that fails.
    Opened(Connection),
    /// Every place is taken: ask again within the given time.
    Wait(u64),
    /// Every place is taken and the time to wait is over.
    TimedOut,
}

impl Acquire {
    /// The words of the failure that a time-out is.
    pub open spec fn timeout_text() -> Seq<char> {
        "timed out waiting for connection"@
    }

    /// The failure that the answer stands for: a time-out is an acquisition
    /// failure, and no other answer is a failure.
    pub fn failure(&self) -> (r: Option<Error>)
        ensures
            r is Some <==> *self == Acquire::TimedOut,
            r matches Some(e) ==> e@ == (ErrorKind::Acquisition, Self::timeout_text()),
    {
        match self {
            Acquire::TimedOut => Some(
                Error::new(
                    ErrorKind::Acquisition,
                    String::from_str("timed out waiting for connection"),
                ),
            ),
            _ => None,
        }
    }
}

/// What became of a connection that was given back.
#[derive(Clone, Copy, Debug, PartialEq, Eq, Structural)]
pub enum Release {
    /// It went back to the idle set.
    Kept,
    /// It was retired: the caller closes the transport.
    Closed,
    /// No connection with this identifier was handed out.
    NotHeld,
}

/// One call on a pool, for statements about sequences of calls.
pub enum Call {
    /// `acquire(since, now)`
    Acquire { since: u64, now: u64 },
    /// `release(id, now, healthy)`
    Release { id: u64, now: u64, healthy: bool },
    /// `reap(now)`
    Reap { now: u64 },
}

/// The time from `from` to `to`, zero where the clock ran backwards.
pub open spec fn elapsed(from: u64, to: u64) -> u64 {
    if to >= from {
        (to - from) as u64
    } else {
        0
    }
}

/// Whether some connection of `s` has the identifier `id`.
pub open spec fn has_id(s: Seq<Connection>, id: u64) -> bool {
    exists|i: int| 0 <= i < s.len() && (#[trigger] s[i]).id == id
}

/// The place of the connection with identifier `id` in `s`.
pub open spec fn index_of(s: Seq<Connection>, id: u64) -> int {
    choose|i: int| 0 <= i < s.len() && (#[trigger] s[i]).id == id
}

/// Whether no two connections of `s` share an identifier.
pub open spec fn distinct(s: Seq<Connection>) -> bool {
    forall|i: int, j: int| 0 <= i < j < s.len() ==> (#[trigger] s[i]).id != (#[trigger] s[j]).id
}

/// Whether no connection of `a` shares its identifier with one of `b`.
pub open spec fn apart(a: Seq<Connection>, b: Seq<Connection>) -> bool {
    forall|i: int, j: int|
        0 <= i < a.len() && 0 <= j < b.len() ==> (#[trigger] a[i]).id != (#[trigger] b[j]).id
}

/// Whether every connection of `s` is healthy.
pub open spec fn sound(s: Seq<Connection>) -> bool {
    forall|i: int| 0 <= i < s.len() ==> (#[trigger] s[i]).healthy
}

/// Whether every identifier in `s` is less than `bound`.
pub open spec fn below(s: Seq<Connection>, bound: u64) -> bool {
    forall|i: int| 0 <= i < s.len() ==> (#[trigger] s[i]).id < bound
}

/// The state of a pool as a mathematical value.
pub struct PoolView {
    /// The settings the pool was built with.
    pub config: PoolConfig,
    /// The connections at rest, the one given back last at the end.
    pub idle: Seq<Connection>,
    /// The connections handed out, in the order they were handed out.
    pub held: Seq<Connection>,
    /// The number of identifiers issued so far, which is the next identifier.
    pub issued: u64,
}

impl PoolView {
    /// The pool with no connection.
    pub open spec fn empty(config: PoolConfig) -> PoolView {
        PoolView { config, idle: Seq::empty(), held: Seq::empty(), issued: 0 }
    }

    /// The invariant of a pool: valid settings, no more connections than the
    /// bound, no identifier twice, every identifier issued, and nothing
    /// unhealthy at rest.
    pub open spec fn wf(self) -> bool {
        &&& self.config.wf()
        &&& self.idle.len() + self.held.len() <= self.config.spec_max_open()
        &&& distinct(self.idle)
        &&& distinct(self.held)
        &&& apart(self.idle, self.held)
        &&& below(self.idle, self.issued)
        &&& below(self.held, self.issued)
        &&& sound(self.idle)
    }

    /// Whether the connection `id` is handed out.
    pub open spec fn holds(self, id: u64) -> bool {
        has_id(self.held, id)
    }

    /// Whether the connection `id` is at rest.
    pub open spec fn rests(self, id: u64) -> bool {
        has_id(self.idle, id)
    }

    /// Whether a new connection may be created.
    pub open spec fn has_room(self) -> bool {
        self.held.len() < self.config.spec_max_open() && self.issued < u64::MAX
    }

    /// What `acquire(since, now)` answers.
    pub open spec fn acquire_answer(self, since: u64, now: u64) -> Acquire {
        if self.idle.len() > 0 {
            Acquire::Reused(Connection { last_used: now, ..self.idle.last() })
        } else if self.has_room() {
            Acquire::Opened(
                Connection { id: self.issued, created_at: now, last_used: now, healthy: true },
            )
        } else if elapsed(since, now) >= self.config.spec_acquire_timeout() {
            Acquire::TimedOut
        } else {
            Acquire::Wait((self.config.spec_acquire_timeout() - elapsed(since, now)) as u64)
        }
    }

    /// The pool after `acquire(since, now)`.
    pub open spec fn after_acquire(self, since: u64, now: u64) -> PoolView {
        match self.acquire_answer(since, now) {
            Acquire::Reused(c) => PoolView {
                idle: self.idle.drop_last(),
                held: self.held.push(c),
                ..self
            },
            Acquire::Opened(c) => PoolView {
                held: self.held.push(c),
                issued: (self.issued + 1) as u64,
                ..self
            },
            _ => self,
        }
    }

    /// Whether a connection given back at `now` is retired rather than kept:
    /// it is unhealthy, or older than the settings allow.
    pub open spec fn retires(self, c: Connection, now: u64, healthy: bool) -> bool {
        !healthy || elapsed(c.created_at, now) > self.config.spec_max_lifetime()
    }

    /// What `release(id, now, healthy)` answers.
    pub open spec fn release_answer(self, id: u64, now: u64, healthy: bool) -> Release {
        if !self.holds(id) {
            Release::NotHeld
        } else if self.retires(self.held[index_of(self.held, id)], now, healthy) {
            Release::Closed
        } else {
            Release::Kept
        }
    }

    /// The pool after `release(id, now, healthy)`.
    pub open spec fn after_release(self, id: u64, now: u64, healthy: bool) -> PoolView {
        let i = index_of(self.held, id);
        match self.release_answer(id, now, healthy) {
            Release::NotHeld => self,
            Release::Closed => PoolView { held: self.held.remove(i), ..self },
            Release::Kept => PoolView {
                held: self.held.remove(i),
                idle: self.idle.push(Connection { last_used: now, healthy: true, ..self.held[i] }),
                ..self
            },
        }
    }

    /// Whether an idle connection has rested too long at `now`.
    pub open spec fn stale(self, c: Connection, now: u64) -> bool {
        elapsed(c.last_used, now) > self.config.spec_max_lifetime()
    }

    /// The test that picks the connections `reap(now)` closes.
    pub open spec fn is_stale(self, now: u64) -> spec_fn(Connection) -> bool {
        |c: Connection| self.stale(c, now)
    }

    /// The test that picks the connections `reap(now)` leaves at rest.
    pub open spec fn is_fresh(self, now: u64) -> spec_fn(Connection) -> bool {
        |c: Connection| !self.stale(c, now)
    }

    /// The connections that `reap(now)` closes, in their order at rest.
    pub open spec fn reaped(self, now: u64) -> Seq<Connection> {
        self.idle.filter(self.is_stale(now))
    }

    /// The pool after `reap(now)`.
    pub open spec fn after_reap(self, now: u64) -> PoolView {
        PoolView { idle: self.idle.filter(self.is_fresh(now)), ..self }
    }

    /// The pool after one call.
    pub open spec fn after(self, call: Call) -> PoolView {
        match call {
            Call::Acquire { since, now } => self.after_acquire(since, now),
            Call::Release { id, now, healthy } => self.after_release(id, now, healthy),
            Call::Reap { now } => self.after_reap(now),
        }
    }

    /// The connection that one call hands out, if it hands one out.
    pub open spec fn grants(self, call: Call) -> Option<u64> {
        match call {
            Call::Acquire { since, now } => match self.acquire_answer(since, now) {
                Acquire::Reused(c) => Some(c.id),
                Acquire::Opened(c) => Some(c.id),
                _ => None,
            },
            _ => None,
        }
    }

    /// The pool after a sequence of calls.
    pub open spec fn after_all(self, calls: Seq<Call>) -> PoolView
        decreases calls.len(),
    {
        if calls.len() == 0 {
            self
        } else {
            self.after_all(calls.drop_last()).after(calls.last())
        }
    }
}

/// A pool of connections: the settings, the connections at rest and those
/// handed out.
#[derive(Debug)]
pub struct Pool {
    config: PoolConfig,
    idle: Vec<Connection>,
    held: Vec<Connection>,
    issued: u64,
}

impl View for Pool {
    type V = PoolView;

    closed spec fn view(&self) -> PoolView {
        PoolView { config: self.config, idle: self.idle@, held: self.held@, issued: self.issued }
    }
}

/// The time from `from` to `to`, zero where the clock ran backwards.
pub fn time_between(from: u64, to: u64) -> (d: u64)
    ensures
        d == elapsed(from, to),
{
    if to >= from {
        to - from
    } else {
        0
    }
}

impl Pool {
    /// The pool with the given settings and no connection.
    pub fn new(config: PoolConfig) -> (pool: Pool)
        requires
            config.wf(),
        ensures
            pool@ == PoolView::empty(config),
            pool@.wf(),
    {
        Pool { config, idle: Vec::new(), held: Vec::new(), issued: 0 }
    }

    /// The settings the pool was built with.
    pub fn config(&self) -> (c: PoolConfig)
        ensures
            c == self@.config,
    {
        self.config
    }

    /// The number of connections handed out.
    pub fn checked_out(&self) -> (n: usize)
        ensures
            n == self@.held.len(),
    {
        self.held.len()
    }

    /// The number of connections at rest.
    pub fn idle_count(&self) -> (n: usize)
        ensures
            n == self@.idle.len(),
    {
        self.idle.len()
    }

    /// Asks for a connection at time `now`, by a caller who has been asking
    /// since `since`.
    ///
    /// An idle connection is handed out if there is one, the one given back
    /// last first. Else a place is reserved for a new one while fewer than
    /// the bound are handed out (and while identifiers are left: there are
    /// `u64::MAX` of them). Else the caller is told how long it may go on
    /// waiting, or that its time is over; nothing is reserved for a caller
    /// that waits, so one that gives up has nothing to give back.
    pub fn acquire(&mut self, since: u64, now: u64) -> (answer: Acquire)
        requires
            old(self)@.wf(),
        ensures
            answer == old(self)@.acquire_answer(since, now),
            final(self)@ == old(self)@.after_acquire(since, now),
            final(self)@.wf(),
    {
        if self.idle.len() > 0 {
            let rested = self.idle.pop().unwrap();
            let c = Connection { last_used: now, ..rested };
            self.held.push(c);
            proof {
                lemma_acquire_keeps_wf(old(self)@, since, now);
            }
            Acquire::Reused(c)
        } else if (self.held.len() as u64) < self.config.max_open() && self.issued < u64::MAX {
            let c = Connection { id: self.issued, created_at: now, last_used: now, healthy: true };
            self.held.push(c);
            self.issued = self.issued + 1;
            proof {
                lemma_acquire_keeps_wf(old(self)@, since, now);
            }
            Acquire::Opened(c)
        } else {
            let waited = time_between(since, now);
            if waited >= self.config.acquire_timeout() {
                Acquire::TimedOut
            } else {
                Acquire::Wait(self.config.acquire_timeout() - waited)
            }
        }
    }

    /// Whether the connection `id` is handed out.
    pub fn holds(&self, id: u64) -> (b: bool)
        ensures
            b == self@.holds(id),
    {
        position(&self.held, id).is_some()
    }

    /// Gives the connection `id` back at time `now`; `healthy` is false where
    /// a command failed on it, or where it could not be opened.
    ///
    /// A healthy connection no older than the settings allow goes to rest.
    /// Any other is retired, and its place is free again.
    pub fn release(&mut self, id: u64, now: u64, healthy: bool) -> (answer: Release)
        requires
            old(self)@.wf(),
        ensures
            answer == old(self)@.release_answer(id, now, healthy),
            final(self)@ == old(self)@.after_release(id, now, healthy),
            final(self)@.wf(),
    {
        proof {
            lemma_release_keeps_wf(self@, id, now, healthy);
        }
        match position(&self.held, id) {
            None => Release::NotHeld,
            Some(i) => {
                proof {
                    lemma_index_of(self.held@, id, i as int);
                }
                let c = self.held.remove(i);
                if !healthy || time_between(c.created_at, now) > self.config.max_lifetime() {
                    Release::Closed
                } else {
                    self.idle.push(Connection { last_used: now, healthy: true, ..c });
                    Release::Kept
                }
            },
        }
    }

    /// Retires the connections that have rested longer than the settings
    /// allow at time `now`, and returns them for the caller to close.
    pub fn reap(&mut self, now: u64) -> (closed: Vec<Connection>)
        requires
            old(self)@.wf(),
        ensures
            closed@ == old(self)@.reaped(now),
            final(self)@ == old(self)@.after_reap(now),
            final(self)@.wf(),
    {
        let ghost v = self@;
        let mut kept: Vec<Connection> = Vec::new();
        let mut closed: Vec<Connection> = Vec::new();
        let mut i: usize = 0;
        proof {
            lemma_reap_keeps_wf(v, now);
            reveal(Seq::filter);
            assert(v.idle.take(0) =~= Seq::<Connection>::empty());
        }
        while i < self.idle.len()
            invariant
                i <= self.idle.len(),
                self@ == v,
                kept@ == v.idle.take(i as int).filter(v.is_fresh(now)),
                closed@ == v.idle.take(i as int).filter(v.is_stale(now)),
            decreases self.idle.len() - i,
        {
            let c = self.idle[i];
            proof {
                reveal(Seq::filter);
                assert(v.idle.take(i + 1).drop_last() =~= v.idle.take(i as int));
                assert(v.idle.take(i + 1).last() == c);
            }
            if time_between(c.last_used, now) > self.config.max_lifetime() {
                closed.push(c);
            } else {
                kept.push(c);
            }
            i = i + 1;
        }
        proof {
            assert(v.idle.take(i as int) =~= v.idle);
        }
        self.idle = kept;
        closed
    }
}

/// Finds the first connection of `s` with the identifier `id`.
fn position(s: &Vec<Connection>, id: u64) -> (r: Option<usize>)
    ensures
        r is None <==> !has_id(s@, id),
        r matches Some(i) ==> i < s.len() && s@[i as int].id == id,
{
    let mut i: usize = 0;
    while i < s.len()
        invariant
            i <= s.len(),
            forall|k: int| 0 <= k < i ==> (#[trigger] s@[k]).id != id,
        decreases s.len() - i,
    {
        if s[i].id == id {
            return Some(i);
        }
        i = i + 1;
    }
    None
}

/// Among distinct identifiers, the place of `id` is the place where it stands.
pub proof fn lemma_index_of(s: Seq<Connection>, id: u64, i: int)
    requires
        distinct(s),
        0 <= i < s.len(),
        s[i].id == id,
    ensures
        has_id(s, id),
        index_of(s, id) == i,
{
    let k = index_of(s, id);
    if k < i {
        assert(s[k].id != s[i].id);
    } else if i < k {
        assert(s[i].id != s[k].id);
    }
}

/// A selection of connections with distinct identifiers has distinct
/// identifiers, and holds only connections of the whole.
pub proof fn lemma_filter_distinct(s: Seq<Connection>, pred: spec_fn(Connection) -> bool)
    requires
        distinct(s),
    ensures
        distinct(s.filter(pred)),
        forall|i: int|
            0 <= i < s.filter(pred).len() ==> exists|k: int|
                0 <= k < s.len() && s[k] == #[trigger] s.filter(pred)[i],
    decreases s.len(),
{
    reveal(Seq::filter);
    if s.len() > 0 {
        let front = s.drop_last();
        lemma_filter_distinct(front, pred);
        let f = front.filter(pred);
        assert forall|i: int| 0 <= i < f.len() implies
            exists|k: int| 0 <= k < s.len() - 1 && s[k] == #[trigger] f[i] by {
            let k = choose|k: int| 0 <= k < front.len() && front[k] == f[i];
            assert(s[k] == f[i]);
        }
        let g = s.filter(pred);
        assert forall|i: int| 0 <= i < g.len() implies
            exists|k: int| 0 <= k < s.len() && s[k] == #[trigger] g[i] by {
            if i < f.len() {
                let k = choose|k: int| 0 <= k < s.len() - 1 && s[k] == f[i];
                assert(s[k] == g[i]);
            } else {
                assert(s[s.len() - 1] == g[i]);
            }
        }
        assert forall|i: int, j: int| 0 <= i < j < g.len() implies g[i].id != g[j].id by {
            if j < f.len() {
                assert(f[i].id != f[j].id);
            } else {
                let k = choose|k: int| 0 <= k < s.len() - 1 && s[k] == f[i];
                assert(s[k].id != s[s.len() - 1].id);
            }
        }
    }
}

/// `acquire` keeps the pool's invariant.
pub proof fn lemma_acquire_keeps_wf(v: PoolView, since: u64, now: u64)
    requires
        v.wf(),
    ensures
        v.after_acquire(since, now).wf(),
{
    let w = v.after_acquire(since, now);
    match v.acquire_answer(since, now) {
        Acquire::Reused(c) => {
            let n = v.idle.len() - 1;
            assert(v.idle[n].id == c.id);
            assert forall|i: int, j: int| 0 <= i < j < w.held.len() implies
                w.held[i].id != w.held[j].id by {
                if j < v.held.len() {
                    assert(v.held[i].id != v.held[j].id);
                } else {
                    assert(v.idle[n].id != v.held[i].id);
                }
            }
            assert forall|i: int, j: int| 0 <= i < w.idle.len() && 0 <= j < w.held.len() implies
                w.idle[i].id != w.held[j].id by {
                if j < v.held.len() {
                    assert(v.idle[i].id != v.held[j].id);
                } else {
                    assert(v.idle[i].id != v.idle[n].id);
                }
            }
        },
        Acquire::Opened(c) => {
            assert forall|i: int, j: int| 0 <= i < j < w.held.len() implies
                w.held[i].id != w.held[j].id by {
                if j < v.held.len() {
                    assert(v.held[i].id != v.held[j].id);
                } else {
                    assert(v.held[i].id < v.issued);
                }
            }
            assert forall|i: int, j: int| 0 <= i < w.idle.len() && 0 <= j < w.held.len() implies
                w.idle[i].id != w.held[j].id by {
                if j < v.held.len() {
                    assert(v.idle[i].id != v.held[j].id);
                } else {
                    assert(v.idle[i].id < v.issued);
                }
            }
        },
        _ => {},
    }
}

/// `release` keeps the pool's invariant.
pub proof fn lemma_release_keeps_wf(v: PoolView, id: u64, now: u64, healthy: bool)
    requires
        v.wf(),
    ensures
        v.after_release(id, now, healthy).wf(),
{
    let w = v.after_release(id, now, healthy);
    if v.holds(id) {
        let n = index_of(v.held, id);
        assert forall|i: int| 0 <= i < w.held.len() implies
            w.held[i] == v.held[if i < n { i } else { i + 1 }] by {}
        assert forall|i: int, j: int| 0 <= i < j < w.held.len() implies
            w.held[i].id != w.held[j].id by {
            let ki = if i < n { i } else { i + 1 };
            let kj = if j < n { j } else { j + 1 };
            assert(v.held[ki].id != v.held[kj].id);
        }
        assert forall|i: int| 0 <= i < w.held.len() implies w.held[i].id < w.issued by {
            let ki = if i < n { i } else { i + 1 };
            assert(v.held[ki].id < v.issued);
        }
        assert forall|i: int, j: int| 0 <= i < w.idle.len() && 0 <= j < w.held.len() implies
            w.idle[i].id != w.held[j].id by {
            let kj = if j < n { j } else { j + 1 };
            if i < v.idle.len() {
                assert(v.idle[i].id != v.held[kj].id);
            } else {
                if kj < n {
                    assert(v.held[kj].id != v.held[n].id);
                } else {
                    assert(v.held[n].id != v.held[kj].id);
                }
            }
        }
        assert forall|i: int, j: int| 0 <= i < j < w.idle.len() implies
            w.idle[i].id != w.idle[j].id by {
            if j < v.idle.len() {
                assert(v.idle[i].id != v.idle[j].id);
            } else {
                assert(v.idle[i].id != v.held[n].id);
            }
        }
        assert forall|i: int| 0 <= i < w.idle.len() implies w.idle[i].id < w.issued by {
            if i < v.idle.len() {
                assert(v.idle[i].id < v.issued);
            } else {
                assert(v.held[n].id < v.issued);
            }
        }
    }
}

/// `reap` keeps the pool's invariant.
pub proof fn lemma_reap_keeps_wf(v: PoolView, now: u64)
    requires
        v.wf(),
    ensures
        v.after_reap(now).wf(),
{
    let w = v.after_reap(now);
    lemma_filter_distinct(v.idle, v.is_fresh(now));
    v.idle.lemma_filter_len(v.is_fresh(now));
    assert forall|i: int, j: int| 0 <= i < w.idle.len() && 0 <= j < w.held.len() implies
        w.idle[i].id != w.held[j].id by {
        let k = choose|k: int| 0 <= k < v.idle.len() && v.idle[k] == w.idle[i];
        assert(v.idle[k].id != v.held[j].id);
    }
    assert forall|i: int| 0 <= i < w.idle.len() implies
        w.idle[i].id < w.issued && w.idle[i].healthy by {
        let k = choose|k: int| 0 <= k < v.idle.len() && v.idle[k] == w.idle[i];
        assert(v.idle[k].id < v.issued);
    }
}

} // verus!
