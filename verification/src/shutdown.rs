//! Graceful shutdown.
//!
//! The components of the engine share a [`ShutdownSignal`], and wind up their work
//! within its timeout once it has been triggered.

use crate::duration::duration_nanos;
use std::time::Duration;
use vstd::prelude::*;

verus! {

/// How many seconds a shutdown may take unless it is said otherwise.
pub const DEFAULT_SHUTDOWN_TIMEOUT: u64 = 30;

/// Whether the engine is to shut down, and how long that may take.
#[derive(Debug)]
pub struct ShutdownSignal {
    timeout: Duration,
    triggered: bool,
}

impl ShutdownSignal {
    /// How long a shutdown may take.
    pub closed spec fn time_allowed(&self) -> Duration {
        self.timeout
    }

    /// Whether a shutdown has been triggered.
    pub closed spec fn is_triggered(&self) -> bool {
        self.triggered
    }

    /// A signal that was not triggered, with a timeout of thirty seconds.
    pub fn new() -> (r: Self)
        ensures
            duration_nanos(r.time_allowed()) == 30_000_000_000,
            !r.is_triggered(),
    {
        Self::with_timeout(Duration::from_secs(DEFAULT_SHUTDOWN_TIMEOUT))
    }

    /// A signal that was not triggered, with a timeout.
    pub fn with_timeout(timeout: Duration) -> (r: Self)
        ensures
            r.time_allowed() == timeout,
            !r.is_triggered(),
    {
        ShutdownSignal { timeout, triggered: false }
    }

    /// How long a shutdown may take.
    pub fn timeout(&self) -> (r: Duration)
        ensures
            r == self.time_allowed(),
    {
        self.timeout
    }

    /// Whether a shutdown has been triggered. This does not wait.
    pub fn is_shutdown(&self) -> (r: bool)
        ensures
            r == self.is_triggered(),
    {
        self.triggered
    }

    /// Triggers the shutdown. It stays triggered from then on.
    pub fn trigger(&mut self)
        ensures
            final(self).is_triggered(),
            final(self).time_allowed() == old(self).time_allowed(),
    {
        self.triggered = true;
    }
}

impl Default for ShutdownSignal {
    /// A signal that was not triggered, with a timeout of thirty seconds.
    fn default() -> (r: Self)
        ensures
            duration_nanos(r.time_allowed()) == 30_000_000_000,
            !r.is_triggered(),
    {
        Self::new()
    }
}

} // verus!
