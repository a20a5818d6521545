//! What holds of a pool over every sequence of calls.

use crate::config::PoolConfig;
use crate::pool::{elapsed, index_of, Acquire, Call, PoolView, Release};
use crate::pool::{lemma_acquire_keeps_wf, lemma_reap_keeps_wf, lemma_release_keeps_wf};
use vstd::prelude::*;

verus! {

/// Whether `call` gives the connection `id` back.
pub open spec fn gives_back(call: Call, id: u64) -> bool {
    match call {
        Call::Release { id: given, .. } => given == id,
        _ => false,
    }
}

/// Whether the pool has issued `id` and no longer has the connection.
pub open spec fn retired(v: PoolView, id: u64) -> bool {
    id < v.issued && !v.rests(id) && !v.holds(id)
}

/// How many of `calls`, made in turn on `v`, hand out a connection.
pub open spec fn granted(v: PoolView, calls: Seq<Call>) -> nat
    decreases calls.len(),
{
    if calls.len() == 0 {
        0
    } else {
        let before = granted(v, calls.drop_last());
        if v.after_all(calls.drop_last()).grants(calls.last()) is Some {
            before + 1
        } else {
            before
        }
    }
}

/// Every call keeps the pool's invariant and its settings.
pub proof fn lemma_call_keeps_wf(v: PoolView, call: Call)
    requires
        v.wf(),
    ensures
        v.after(call).wf(),
        v.after(call).config == v.config,
{
    match call {
        Call::Acquire { since, now } => lemma_acquire_keeps_wf(v, since, now),
        Call::Release { id, now, healthy } => lemma_release_keeps_wf(v, id, now, healthy),
        Call::Reap { now } => lemma_reap_keeps_wf(v, now),
    }
}

/// Every sequence of calls keeps the pool's invariant and its settings.
pub proof fn lemma_calls_keep_wf(v: PoolView, calls: Seq<Call>)
    requires
        v.wf(),
    ensures
        v.after_all(calls).wf(),
        v.after_all(calls).config == v.config,
    decreases calls.len(),
{
    if calls.len() > 0 {
        lemma_calls_keep_wf(v, calls.drop_last());
        lemma_call_keeps_wf(v.after_all(calls.drop_last()), calls.last());
    }
}

/// In every state that a pool reaches from its creation, the connections
/// handed out and those at rest together are no more than the bound.
pub proof fn lemma_capacity(config: PoolConfig, calls: Seq<Call>)
    requires
        config.wf(),
    ensures
        ({
            let v = PoolView::empty(config).after_all(calls);
            &&& v.wf()
            &&& v.held.len() <= config.spec_max_open()
            &&& v.held.len() + v.idle.len() <= config.spec_max_open()
        }),
{
    lemma_calls_keep_wf(PoolView::empty(config), calls);
}

/// The state after the first `n + 1` calls is the state after the first `n`,
/// then call `n`.
pub proof fn lemma_after_take(v: PoolView, calls: Seq<Call>, n: int)
    requires
        0 <= n < calls.len(),
    ensures
        v.after_all(calls.take(n + 1)) == v.after_all(calls.take(n)).after(calls[n]),
{
    assert(calls.take(n + 1).drop_last() =~= calls.take(n));
}

/// Of requests made in a row with nothing given back between them, as many
/// are served as places are free, and every other is told to wait or that
/// its time is over: with `k` requests more than free places, exactly `k`.
pub proof fn lemma_burst(v: PoolView, calls: Seq<Call>)
    requires
        v.wf(),
        forall|i: int| 0 <= i < calls.len() ==> #[trigger] calls[i] is Acquire,
        v.issued + calls.len() <= u64::MAX,
    ensures
        ({
            let free = v.config.spec_max_open() - v.held.len();
            let served = if calls.len() <= free { calls.len() as int } else { free };
            &&& granted(v, calls) == served
            &&& v.after_all(calls).held.len() == v.held.len() + served
            &&& v.after_all(calls).held.len() <= v.config.spec_max_open()
        }),
{
    lemma_burst_state(v, calls);
}

/// The state that `lemma_burst` goes through.
proof fn lemma_burst_state(v: PoolView, calls: Seq<Call>)
    requires
        v.wf(),
        forall|i: int| 0 <= i < calls.len() ==> #[trigger] calls[i] is Acquire,
        v.issued + calls.len() <= u64::MAX,
    ensures
        ({
            let free = v.config.spec_max_open() - v.held.len();
            let served = if calls.len() <= free { calls.len() as int } else { free };
            let w = v.after_all(calls);
            &&& w.wf()
            &&& w.config == v.config
            &&& granted(v, calls) == served
            &&& w.held.len() == v.held.len() + served
            &&& w.issued <= v.issued + calls.len()
            &&& w.idle.len() + w.held.len() >= served + v.held.len()
            &&& w.idle.len() <= v.idle.len()
            &&& w.idle.len() + w.held.len() >= v.idle.len() + v.held.len()
        }),
    decreases calls.len(),
{
    if calls.len() > 0 {
        let front = calls.drop_last();
        assert forall|i: int| 0 <= i < front.len() implies front[i] is Acquire by {
            assert(calls[i] is Acquire);
        }
        lemma_burst_state(v, front);
        let u = v.after_all(front);
        assert(calls.last() == calls[calls.len() - 1]);
        assert(calls[calls.len() - 1] is Acquire);
        lemma_call_keeps_wf(u, calls.last());
    }
}

/// A connection that is handed out stays handed out until it is given back.
pub proof fn lemma_held_until_given_back(
    v: PoolView,
    calls: Seq<Call>,
    i: int,
    m: int,
    id: u64,
)
    requires
        v.wf(),
        0 <= i < m <= calls.len(),
        v.after_all(calls.take(i)).grants(calls[i]) == Some(id),
        forall|k: int| i < k < m ==> !gives_back(#[trigger] calls[k], id),
    ensures
        v.after_all(calls.take(m)).holds(id),
    decreases m,
{
    lemma_after_take(v, calls, m - 1);
    let u = v.after_all(calls.take(m - 1));
    let w = v.after_all(calls.take(m));
    if m == i + 1 {
        assert(w.held[w.held.len() - 1].id == id);
    } else {
        lemma_held_until_given_back(v, calls, i, m - 1, id);
        lemma_calls_keep_wf(v, calls.take(m - 1));
        let n = index_of(u.held, id);
        assert(!gives_back(calls[m - 1], id));
        match calls[m - 1] {
            Call::Acquire { since, now } => {
                assert(w.held[n].id == id);
            },
            Call::Release { id: other, now, healthy } => {
                if u.holds(other) {
                    let o = index_of(u.held, other);
                    assert(o != n);
                    if n < o {
                        assert(w.held[n].id == id);
                    } else {
                        assert(w.held[n - 1].id == id);
                    }
                }
            },
            Call::Reap { now } => {},
        }
    }
}

/// No request is handed a connection that is handed out already.
pub proof fn lemma_held_is_not_granted(v: PoolView, call: Call, id: u64)
    requires
        v.wf(),
        v.holds(id),
    ensures
        v.grants(call) != Some(id),
{
    let n = index_of(v.held, id);
    match call {
        Call::Acquire { since, now } => match v.acquire_answer(since, now) {
            Acquire::Reused(c) => {
                assert(v.idle[v.idle.len() - 1].id != v.held[n].id);
            },
            Acquire::Opened(c) => {
                assert(v.held[n].id < v.issued);
            },
            _ => {},
        },
        _ => {},
    }
}

/// No two requests are handed the same connection unless it was given back
/// between them.
pub proof fn lemma_exclusive(v: PoolView, calls: Seq<Call>, i: int, j: int, id: u64)
    requires
        v.wf(),
        0 <= i < j < calls.len(),
        v.after_all(calls.take(i)).grants(calls[i]) == Some(id),
        v.after_all(calls.take(j)).grants(calls[j]) == Some(id),
    ensures
        exists|k: int| i < k < j && gives_back(#[trigger] calls[k], id),
{
    if forall|k: int| i < k < j ==> !gives_back(#[trigger] calls[k], id) {
        lemma_held_until_given_back(v, calls, i, j, id);
        lemma_calls_keep_wf(v, calls.take(j));
        lemma_held_is_not_granted(v.after_all(calls.take(j)), calls[j], id);
    }
}

/// A connection that is given back as unhealthy is retired, whatever its age.
pub proof fn lemma_unhealthy_release_closes(v: PoolView, id: u64, now: u64)
    requires
        v.holds(id),
    ensures
        v.release_answer(id, now, false) == Release::Closed,
{
}

/// A connection that was retired on being given back, as every unhealthy one
/// is, is not in the pool any more.
pub proof fn lemma_closed_is_retired(v: PoolView, id: u64, now: u64, healthy: bool)
    requires
        v.wf(),
        v.release_answer(id, now, healthy) == Release::Closed,
    ensures
        retired(v.after_release(id, now, healthy), id),
{
    let w = v.after_release(id, now, healthy);
    let n = index_of(v.held, id);
    assert(v.held[n].id < v.issued);
    if w.holds(id) {
        let k = index_of(w.held, id);
        if k < n {
            assert(v.held[k].id != v.held[n].id);
        } else {
            assert(v.held[n].id != v.held[k + 1].id);
        }
    }
    if w.rests(id) {
        let k = index_of(w.idle, id);
        assert(v.idle[k].id != v.held[n].id);
    }
}

/// A retired connection stays retired, and no call hands it out.
pub proof fn lemma_retired_stays(v: PoolView, call: Call, id: u64)
    requires
        v.wf(),
        retired(v, id),
    ensures
        retired(v.after(call), id),
        v.grants(call) != Some(id),
{
    let w = v.after(call);
    match call {
        Call::Acquire { since, now } => {
            match v.acquire_answer(since, now) {
                Acquire::Reused(c) => {
                    assert(v.idle[v.idle.len() - 1].id != id);
                    if w.rests(id) {
                        let k = index_of(w.idle, id);
                        assert(v.idle[k].id == id);
                    }
                    if w.holds(id) {
                        let k = index_of(w.held, id);
                        if k < v.held.len() {
                            assert(v.held[k].id == id);
                        }
                    }
                },
                Acquire::Opened(c) => {
                    if w.holds(id) {
                        let k = index_of(w.held, id);
                        if k < v.held.len() {
                            assert(v.held[k].id == id);
                        }
                    }
                },
                _ => {},
            }
        },
        Call::Release { id: other, now, healthy } => {
            if v.holds(other) {
                let n = index_of(v.held, other);
                if w.holds(id) {
                    let k = index_of(w.held, id);
                    assert(v.held[if k < n { k } else { k + 1 }].id == id);
                }
                if w.rests(id) {
                    let k = index_of(w.idle, id);
                    if k < v.idle.len() {
                        assert(v.idle[k].id == id);
                    }
                }
            }
        },
        Call::Reap { now } => {
            if w.rests(id) {
                let k = index_of(w.idle, id);
                v.idle.lemma_filter_contains_rev(v.is_fresh(now), w.idle[k]);
                let m = choose|m: int| 0 <= m < v.idle.len() && v.idle[m] == w.idle[k];
                assert(v.idle[m].id == id);
            }
        },
    }
}

/// Once a connection was retired on being given back, as after a failed
/// command, no later request is handed it, whatever calls come between.
pub proof fn lemma_unhealthy_is_not_reused(
    v: PoolView,
    id: u64,
    now: u64,
    healthy: bool,
    calls: Seq<Call>,
    j: int,
)
    requires
        v.wf(),
        v.release_answer(id, now, healthy) == Release::Closed,
        0 <= j < calls.len(),
    ensures
        v.after_release(id, now, healthy).after_all(calls.take(j)).grants(calls[j]) != Some(id),
        retired(v.after_release(id, now, healthy).after_all(calls.take(j)), id),
    decreases j,
{
    let w = v.after_release(id, now, healthy);
    lemma_release_keeps_wf(v, id, now, healthy);
    lemma_calls_keep_wf(w, calls.take(j));
    if j == 0 {
        lemma_closed_is_retired(v, id, now, healthy);
    } else {
        lemma_unhealthy_is_not_reused(v, id, now, healthy, calls, j - 1);
        lemma_after_take(w, calls, j - 1);
        lemma_calls_keep_wf(w, calls.take(j - 1));
        lemma_retired_stays(w.after_all(calls.take(j - 1)), calls[j - 1], id);
    }
    lemma_retired_stays(w.after_all(calls.take(j)), calls[j], id);
}

/// A connection that was given back is not handed out any more: giving it
/// back a second time is answered as not held, and changes nothing.
pub proof fn lemma_given_back_once(
    v: PoolView,
    id: u64,
    now: u64,
    healthy: bool,
    later: u64,
    again: bool,
)
    requires
        v.wf(),
        v.holds(id),
    ensures
        ({
            let w = v.after_release(id, now, healthy);
            &&& !w.holds(id)
            &&& w.release_answer(id, later, again) == Release::NotHeld
            &&& w.after_release(id, later, again) == w
        }),
{
    let w = v.after_release(id, now, healthy);
    let n = index_of(v.held, id);
    if w.holds(id) {
        let k = index_of(w.held, id);
        if k < n {
            assert(v.held[k].id != v.held[n].id);
        } else {
            assert(v.held[n].id != v.held[k + 1].id);
        }
    }
}

/// Once a connection is given back, a place is free: whoever asks next is
/// served, from the idle set or by a new connection, and does not wait.
pub proof fn lemma_release_frees_a_place(
    v: PoolView,
    id: u64,
    now: u64,
    healthy: bool,
    since: u64,
    later: u64,
)
    requires
        v.wf(),
        v.holds(id),
        v.issued < u64::MAX,
    ensures
        v.after_release(id, now, healthy).grants(Call::Acquire { since, now: later }) is Some,
{
    let w = v.after_release(id, now, healthy);
    assert(w.held.len() == v.held.len() - 1);
}

/// With every place taken, a waiter is refused exactly when the time it has
/// waited reaches the settings' limit: not before, and at every later time.
/// Until then it is told the time that is left. The pool does not change.
pub proof fn lemma_timeout(v: PoolView, since: u64, now: u64)
    requires
        v.wf(),
        v.idle.len() == 0,
        v.held.len() == v.config.spec_max_open(),
    ensures
        v.after_acquire(since, now) == v,
        v.acquire_answer(since, now) == Acquire::TimedOut <==> elapsed(since, now)
            >= v.config.spec_acquire_timeout(),
        elapsed(since, now) < v.config.spec_acquire_timeout() ==> v.acquire_answer(since, now)
            == Acquire::Wait((v.config.spec_acquire_timeout() - elapsed(since, now)) as u64),
{
}

} // verus!
