use cache_pool::config::PoolConfig;
use cache_pool::error::ErrorKind;
use cache_pool::pool::{time_between, Acquire, Connection, Pool, Release};

fn pool(max_open: u64, max_idle: u64, timeout: u64, lifetime: u64) -> Pool {
    Pool::new(PoolConfig::new(max_open, max_idle, timeout, lifetime).expect("valid settings"))
}

fn granted(answer: Acquire) -> Connection {
    match answer {
        Acquire::Reused(c) | Acquire::Opened(c) => c,
        other => panic!("no connection was handed out: {:?}", other),
    }
}

#[test]
fn new_pool_is_empty() {
    let p = pool(16, 8, 1, 60);
    assert_eq!(p.checked_out(), 0);
    assert_eq!(p.idle_count(), 0);
    assert_eq!(p.config(), PoolConfig::standard());
}

#[test]
fn first_acquire_opens_connection_zero() {
    let mut p = pool(16, 8, 1, 60);
    let answer = p.acquire(5, 5);
    assert_eq!(
        answer,
        Acquire::Opened(Connection { id: 0, created_at: 5, last_used: 5, healthy: true })
    );
    assert_eq!(p.checked_out(), 1);
    assert_eq!(p.idle_count(), 0);
    assert!(p.holds(0));
    assert!(!p.holds(1));
}

#[test]
fn acquisitions_beyond_the_bound_wait() {
    let max_open = 4;
    let extra = 3;
    let mut p = pool(max_open, 2, 10, 60);
    let mut served = 0;
    let mut waiting = 0;
    for _ in 0..(max_open + extra) {
        match p.acquire(0, 0) {
            Acquire::Opened(_) | Acquire::Reused(_) => served += 1,
            Acquire::Wait(_) | Acquire::TimedOut => waiting += 1,
        }
        assert!(p.checked_out() as u64 <= max_open);
    }
    assert_eq!(served, max_open);
    assert_eq!(waiting, extra);
    assert_eq!(p.checked_out() as u64, max_open);
}

#[test]
fn burst_reuses_idle_connections_first() {
    let mut p = pool(3, 3, 10, 60);
    let a = granted(p.acquire(0, 0));
    let b = granted(p.acquire(0, 0));
    assert_eq!(p.release(a.id, 1, true), Release::Kept);
    assert_eq!(p.release(b.id, 1, true), Release::Kept);
    let mut served = 0;
    for _ in 0..5 {
        if let Acquire::Opened(_) | Acquire::Reused(_) = p.acquire(2, 2) {
            served += 1;
        }
    }
    assert_eq!(served, 3);
    assert_eq!(p.checked_out(), 3);
    assert_eq!(p.idle_count(), 0);
}

#[test]
fn concurrent_holders_have_different_connections() {
    let mut p = pool(16, 8, 1, 60);
    let mut ids = Vec::new();
    for _ in 0..16 {
        ids.push(granted(p.acquire(0, 0)).id);
    }
    for i in 0..ids.len() {
        for j in (i + 1)..ids.len() {
            assert_ne!(ids[i], ids[j]);
        }
    }
}

#[test]
fn reused_connection_is_not_held_by_anyone_else() {
    let mut p = pool(2, 2, 1, 60);
    let a = granted(p.acquire(0, 0));
    let b = granted(p.acquire(0, 0));
    assert_eq!(p.release(a.id, 1, true), Release::Kept);
    let c = granted(p.acquire(2, 2));
    assert_eq!(c.id, a.id);
    assert_ne!(c.id, b.id);
    assert!(matches!(p.acquire(2, 2), Acquire::Wait(_)));
}

#[test]
fn second_acquire_times_out_after_the_limit() {
    let timeout = 7;
    let mut p = pool(1, 1, timeout, 600);
    let held = granted(p.acquire(100, 100));
    assert_eq!(p.acquire(100, 100), Acquire::Wait(7));
    assert_eq!(p.acquire(100, 103), Acquire::Wait(4));
    assert_eq!(p.acquire(100, 106), Acquire::Wait(1));
    assert_eq!(p.acquire(100, 107), Acquire::TimedOut);
    assert_eq!(p.acquire(100, 5000), Acquire::TimedOut);
    assert_eq!(p.checked_out(), 1);
    assert!(p.holds(held.id));
}

#[test]
fn standard_settings_time_out_after_one_second() {
    let mut p = Pool::new(PoolConfig::standard());
    for _ in 0..16 {
        granted(p.acquire(0, 0));
    }
    assert_eq!(p.acquire(10, 10), Acquire::Wait(1));
    assert_eq!(p.acquire(10, 11), Acquire::TimedOut);
}

#[test]
fn waiter_is_served_once_a_connection_is_back() {
    let mut p = pool(1, 1, 5, 60);
    let a = granted(p.acquire(0, 0));
    assert_eq!(p.acquire(1, 1), Acquire::Wait(5));
    assert_eq!(p.release(a.id, 2, true), Release::Kept);
    assert_eq!(
        p.acquire(1, 3),
        Acquire::Reused(Connection { id: a.id, created_at: 0, last_used: 3, healthy: true })
    );
}

#[test]
fn clock_running_backwards_counts_as_no_time() {
    assert_eq!(time_between(10, 4), 0);
    assert_eq!(time_between(4, 10), 6);
    assert_eq!(time_between(9, 9), 0);
    let mut p = pool(1, 1, 5, 60);
    granted(p.acquire(0, 0));
    assert_eq!(p.acquire(50, 40), Acquire::Wait(5));
}

#[test]
fn healthy_release_keeps_the_connection() {
    let mut p = pool(4, 2, 1, 60);
    let a = granted(p.acquire(0, 0));
    assert_eq!(p.release(a.id, 30, true), Release::Kept);
    assert_eq!(p.checked_out(), 0);
    assert_eq!(p.idle_count(), 1);
    assert!(!p.holds(a.id));
}

#[test]
fn unhealthy_connection_is_not_reused() {
    let mut p = pool(4, 2, 1, 60);
    let a = granted(p.acquire(0, 0));
    assert_eq!(p.release(a.id, 1, false), Release::Closed);
    assert_eq!(p.checked_out(), 0);
    assert_eq!(p.idle_count(), 0);
    for now in 2..20 {
        let next = p.acquire(now, now);
        assert!(matches!(next, Acquire::Opened(_)));
        let c = granted(next);
        assert_ne!(c.id, a.id);
        assert_eq!(p.release(c.id, now, true), Release::Kept);
        let again = granted(p.acquire(now, now));
        assert_ne!(again.id, a.id);
        assert_eq!(p.release(again.id, now, false), Release::Closed);
    }
}

#[test]
fn connection_that_could_not_be_opened_frees_its_place() {
    let mut p = pool(1, 1, 1, 60);
    let reserved = granted(p.acquire(0, 0));
    assert!(matches!(p.acquire(0, 0), Acquire::Wait(_)));
    assert_eq!(p.release(reserved.id, 0, false), Release::Closed);
    assert_eq!(
        p.acquire(0, 0),
        Acquire::Opened(Connection { id: 1, created_at: 0, last_used: 0, healthy: true })
    );
}

#[test]
fn connection_past_its_lifetime_is_closed_on_release() {
    let mut p = pool(4, 2, 1, 60);
    let a = granted(p.acquire(100, 100));
    let b = granted(p.acquire(100, 100));
    assert_eq!(p.release(a.id, 160, true), Release::Kept);
    assert_eq!(p.release(b.id, 161, true), Release::Closed);
    assert_eq!(p.idle_count(), 1);
}

#[test]
fn release_of_unknown_connection_changes_nothing() {
    let mut p = pool(4, 2, 1, 60);
    let a = granted(p.acquire(0, 0));
    assert_eq!(p.release(99, 1, true), Release::NotHeld);
    assert_eq!(p.checked_out(), 1);
    assert_eq!(p.release(a.id, 1, true), Release::Kept);
    assert_eq!(p.release(a.id, 1, true), Release::NotHeld);
    assert_eq!(p.checked_out(), 0);
    assert_eq!(p.idle_count(), 1);
}

#[test]
fn connection_given_back_last_is_reused_first() {
    let mut p = pool(4, 4, 1, 60);
    let a = granted(p.acquire(0, 0));
    let b = granted(p.acquire(0, 0));
    let c = granted(p.acquire(0, 0));
    p.release(b.id, 1, true);
    p.release(a.id, 2, true);
    p.release(c.id, 3, true);
    assert_eq!(granted(p.acquire(4, 4)).id, c.id);
    assert_eq!(granted(p.acquire(4, 4)).id, a.id);
    assert_eq!(granted(p.acquire(4, 4)).id, b.id);
}

#[test]
fn reap_closes_connections_that_rested_too_long() {
    let mut p = pool(4, 4, 1, 60);
    let a = granted(p.acquire(0, 0));
    let b = granted(p.acquire(0, 0));
    let c = granted(p.acquire(0, 0));
    p.release(a.id, 10, true);
    p.release(b.id, 30, true);
    p.release(c.id, 20, true);
    assert_eq!(p.reap(70), Vec::new());
    assert_eq!(p.idle_count(), 3);
    let closed = p.reap(81);
    assert_eq!(
        closed,
        vec![
            Connection { id: a.id, created_at: 0, last_used: 10, healthy: true },
            Connection { id: c.id, created_at: 0, last_used: 20, healthy: true },
        ]
    );
    assert_eq!(p.idle_count(), 1);
    assert_eq!(granted(p.acquire(81, 81)).id, b.id);
    assert_eq!(p.reap(1000), Vec::new());
}

#[test]
fn capacity_holds_through_mixed_traffic() {
    let mut p = pool(3, 2, 2, 10);
    let mut held: Vec<u64> = Vec::new();
    for now in 0..200u64 {
        match now % 5 {
            0 | 1 | 3 => {
                if let Acquire::Opened(c) | Acquire::Reused(c) = p.acquire(now, now) {
                    assert!(!held.contains(&c.id));
                    held.push(c.id);
                }
            }
            2 => {
                if let Some(id) = held.pop() {
                    assert_ne!(p.release(id, now, now % 3 != 0), Release::NotHeld);
                }
            }
            _ => {
                p.reap(now);
            }
        }
        assert_eq!(p.checked_out(), held.len());
        assert!(p.checked_out() + p.idle_count() <= 3);
    }
}

#[test]
fn only_a_time_out_is_a_failure() {
    let e = Acquire::TimedOut.failure().expect("a failure");
    assert_eq!(e.kind(), ErrorKind::Acquisition);
    assert_eq!(e.context(), "timed out waiting for connection");
    assert_eq!(
        e.message(),
        "could not get redis connection from pool : timed out waiting for connection"
    );
    let c = Connection { id: 3, created_at: 1, last_used: 2, healthy: true };
    assert_eq!(Acquire::Wait(5).failure(), None);
    assert_eq!(Acquire::Reused(c).failure(), None);
    assert_eq!(Acquire::Opened(c).failure(), None);
}
