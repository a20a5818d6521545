//! The settings a pool is built with.

use vstd::prelude::*;

verus! {

/// Upper bound on live connections of the standard settings.
pub const CACHE_POOL_MAX_OPEN: u64 = 16;

/// Number of connections the standard settings keep warm.
pub const CACHE_POOL_MAX_IDLE: u64 = 8;

/// Longest wait for a free connection of the standard settings, in seconds.
pub const CACHE_POOL_TIMEOUT_SECONDS: u64 = 1;

/// Age at which the standard settings retire a connection, in seconds.
pub const CACHE_POOL_EXPIRE_SECONDS: u64 = 60;

/// The immutable settings of a pool. Durations and the timestamps handed to a
/// pool share one unit; the standard settings count seconds.
#[derive(Clone, Copy, Debug, PartialEq, Eq, Structural)]
pub struct PoolConfig {
    max_open: u64,
    max_idle: u64,
    acquire_timeout: u64,
    max_lifetime: u64,
}

impl PoolConfig {
    /// Whether the numbers form valid settings: the warm target fits under
    /// the bound on live connections, and a waiter is given some time.
    pub open spec fn valid(max_open: u64, max_idle: u64, acquire_timeout: u64) -> bool {
        max_idle <= max_open && acquire_timeout > 0
    }

    /// Upper bound on live connections.
    pub closed spec fn spec_max_open(&self) -> u64 {
        self.max_open
    }

    /// Number of connections kept warm.
    pub closed spec fn spec_max_idle(&self) -> u64 {
        self.max_idle
    }

    /// Longest wait for a free connection.
    pub closed spec fn spec_acquire_timeout(&self) -> u64 {
        self.acquire_timeout
    }

    /// Age beyond which a connection is retired.
    pub closed spec fn spec_max_lifetime(&self) -> u64 {
        self.max_lifetime
    }

    /// The invariant of every `PoolConfig`.
    pub open spec fn wf(&self) -> bool {
        Self::valid(self.spec_max_open(), self.spec_max_idle(), self.spec_acquire_timeout())
    }

    /// The settings with the given numbers, or `None` where they are not valid.
    pub fn new(max_open: u64, max_idle: u64, acquire_timeout: u64, max_lifetime: u64) -> (r: Option<
        PoolConfig,
    >)
        ensures
            r is Some <==> Self::valid(max_open, max_idle, acquire_timeout),
            r is Some ==> {
                let c = r->Some_0;
                &&& c.wf()
                &&& c.spec_max_open() == max_open
                &&& c.spec_max_idle() == max_idle
                &&& c.spec_acquire_timeout() == acquire_timeout
                &&& c.spec_max_lifetime() == max_lifetime
            },
    {
        if max_idle <= max_open && acquire_timeout > 0 {
            Some(PoolConfig { max_open, max_idle, acquire_timeout, max_lifetime })
        } else {
            None
        }
    }

    /// The standard settings: 16 open, 8 warm, a wait of 1, a lifetime of 60.
    pub fn standard() -> (c: PoolConfig)
        ensures
            c.wf(),
            c.spec_max_open() == CACHE_POOL_MAX_OPEN,
            c.spec_max_idle() == CACHE_POOL_MAX_IDLE,
            c.spec_acquire_timeout() == CACHE_POOL_TIMEOUT_SECONDS,
            c.spec_max_lifetime() == CACHE_POOL_EXPIRE_SECONDS,
    {
        PoolConfig {
            max_open: CACHE_POOL_MAX_OPEN,
            max_idle: CACHE_POOL_MAX_IDLE,
            acquire_timeout: CACHE_POOL_TIMEOUT_SECONDS,
            max_lifetime: CACHE_POOL_EXPIRE_SECONDS,
        }
    }

    /// The same settings with both durations counted in a unit `factor` times
    /// finer, as milliseconds are to seconds with a factor of 1000. `None`
    /// where the factor is zero or a duration would no longer fit.
    pub fn scaled(&self, factor: u64) -> (r: Option<PoolConfig>)
        requires
            self.wf(),
        ensures
            r is Some <==> factor > 0 && self.spec_acquire_timeout() * factor <= u64::MAX
                && self.spec_max_lifetime() * factor <= u64::MAX,
            r matches Some(c) ==> {
                &&& c.wf()
                &&& c.spec_max_open() == self.spec_max_open()
                &&& c.spec_max_idle() == self.spec_max_idle()
                &&& c.spec_acquire_timeout() == self.spec_acquire_timeout() * factor
                &&& c.spec_max_lifetime() == self.spec_max_lifetime() * factor
            },
    {
        if factor == 0 {
            return None;
        }
        match (self.acquire_timeout.checked_mul(factor), self.max_lifetime.checked_mul(factor)) {
            (Some(acquire_timeout), Some(max_lifetime)) => {
                assert(acquire_timeout > 0) by (nonlinear_arith)
                    requires
                        acquire_timeout == self.acquire_timeout * factor,
                        self.acquire_timeout > 0,
                        factor > 0,
                ;
                Some(
                    PoolConfig {
                        max_open: self.max_open,
                        max_idle: self.max_idle,
                        acquire_timeout,
                        max_lifetime,
                    },
                )
            },
            _ => None,
        }
    }

    /// Upper bound on live connections.
    #[verifier::when_used_as_spec(spec_max_open)]
    pub fn max_open(&self) -> (n: u64)
        ensures
            n == self.spec_max_open(),
    {
        self.max_open
    }

    /// Number of connections kept warm.
    #[verifier::when_used_as_spec(spec_max_idle)]
    pub fn max_idle(&self) -> (n: u64)
        ensures
            n == self.spec_max_idle(),
    {
        self.max_idle
    }

    /// Longest wait for a free connection.
    #[verifier::when_used_as_spec(spec_acquire_timeout)]
    pub fn acquire_timeout(&self) -> (n: u64)
        ensures
            n == self.spec_acquire_timeout(),
    {
        self.acquire_timeout
    }

    /// Age beyond which a connection is retired.
    #[verifier::when_used_as_spec(spec_max_lifetime)]
    pub fn max_lifetime(&self) -> (n: u64)
        ensures
            n == self.spec_max_lifetime(),
    {
        self.max_lifetime
    }
}

} // verus!
