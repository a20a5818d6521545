use cache_pool::config::{
    PoolConfig, CACHE_POOL_EXPIRE_SECONDS, CACHE_POOL_MAX_IDLE, CACHE_POOL_MAX_OPEN,
    CACHE_POOL_TIMEOUT_SECONDS,
};
use cache_pool::error::{Error, ErrorKind};

#[test]
fn standard_settings() {
    let c = PoolConfig::standard();
    assert_eq!(c.max_open(), 16);
    assert_eq!(c.max_idle(), 8);
    assert_eq!(c.acquire_timeout(), 1);
    assert_eq!(c.max_lifetime(), 60);
    assert_eq!(CACHE_POOL_MAX_OPEN, 16);
    assert_eq!(CACHE_POOL_MAX_IDLE, 8);
    assert_eq!(CACHE_POOL_TIMEOUT_SECONDS, 1);
    assert_eq!(CACHE_POOL_EXPIRE_SECONDS, 60);
    assert_eq!(PoolConfig::new(16, 8, 1, 60), Some(c));
}

#[test]
fn settings_keep_what_they_were_given() {
    let c = PoolConfig::new(5, 3, 9, 120).expect("valid settings");
    assert_eq!(c.max_open(), 5);
    assert_eq!(c.max_idle(), 3);
    assert_eq!(c.acquire_timeout(), 9);
    assert_eq!(c.max_lifetime(), 120);
}

#[test]
fn warm_target_above_the_bound_is_refused() {
    assert_eq!(PoolConfig::new(4, 5, 1, 60), None);
    assert!(PoolConfig::new(4, 4, 1, 60).is_some());
    assert!(PoolConfig::new(0, 0, 1, 0).is_some());
}

#[test]
fn zero_timeout_is_refused() {
    assert_eq!(PoolConfig::new(4, 2, 0, 60), None);
    assert!(PoolConfig::new(4, 2, 1, 60).is_some());
    assert!(PoolConfig::new(u64::MAX, u64::MAX, u64::MAX, u64::MAX).is_some());
}

#[test]
fn error_keeps_kind_and_context() {
    let e = Error::new(ErrorKind::CommandExecution, String::from("broken pipe"));
    assert_eq!(e.kind(), ErrorKind::CommandExecution);
    assert_eq!(e.context(), "broken pipe");
}

#[test]
fn error_messages() {
    let text = |kind| Error::new(kind, String::from("boom")).message();
    assert_eq!(text(ErrorKind::ClientConstruction), "error creating Redis client: boom");
    assert_eq!(text(ErrorKind::Acquisition), "could not get redis connection from pool : boom");
    assert_eq!(text(ErrorKind::CommandExecution), "error executing redis command: boom");
    assert_eq!(text(ErrorKind::TypeDecoding), "error parsing string from redis result: boom");
    assert_eq!(Error::headline(ErrorKind::TypeDecoding), "error parsing string from redis result");
}

#[test]
fn settings_in_a_finer_unit() {
    let c = PoolConfig::standard().scaled(1000).expect("fits");
    assert_eq!(c.max_open(), 16);
    assert_eq!(c.max_idle(), 8);
    assert_eq!(c.acquire_timeout(), 1000);
    assert_eq!(c.max_lifetime(), 60_000);
    assert_eq!(PoolConfig::standard().scaled(1), Some(PoolConfig::standard()));
    assert_eq!(PoolConfig::standard().scaled(0), None);
    assert_eq!(PoolConfig::standard().scaled(u64::MAX), None);
    assert_eq!(PoolConfig::standard().scaled(u64::MAX / 60), PoolConfig::new(16, 8, u64::MAX / 60, u64::MAX / 60 * 60));
    assert_eq!(PoolConfig::standard().scaled(u64::MAX / 60 + 1), None);
    let long_wait = PoolConfig::new(2, 1, u64::MAX, 0).expect("valid settings");
    assert_eq!(long_wait.scaled(2), None);
    assert_eq!(long_wait.scaled(1), Some(long_wait));
}
