//! Health reporting of a server process: a heartbeat of the main loop and
//! an explicit status, judged against a grace period.
use vstd::prelude::*;
use std::sync::Arc;
use std::time::Instant;

verus! {

#[verifier::external_type_specification]
#[verifier::external_body]
pub struct ExInstant(Instant);

#[verifier::external_type_specification]
#[verifier::external_body]
#[verifier::reject_recursive_types(T)]
pub struct ExAsyncMutex<T: ?Sized>(tokio::sync::Mutex<T>);

/// Calls `Instant::now`. Nothing is claimed: it reads the clock.
#[verifier::external_body]
fn now() -> Instant {
    Instant::now()
}

/// Calls `Instant::elapsed`. Nothing is claimed: it reads the clock.
#[verifier::external_body]
fn elapsed_since(t: &Instant) -> std::time::Duration {
    t.elapsed()
}

/// Calls `Duration::as_nanos`. Nothing is claimed of the opaque duration.
#[verifier::external_body]
fn duration_nanos(d: &std::time::Duration) -> u128 {
    d.as_nanos()
}

/// The handle that an async lock holds.
pub uninterp spec fn lock_content(m: tokio::sync::Mutex<HealthHandle>) -> HealthHandle;

/// Calls `tokio::sync::Mutex::new`, which creates an unlocked lock holding
/// `h`. Claimed: the new lock holds `h`.
#[verifier::external_body]
fn new_lock(h: HealthHandle) -> (r: tokio::sync::Mutex<HealthHandle>)
    ensures
        lock_content(r) == h,
{
    tokio::sync::Mutex::new(h)
}

/// How long the main loop may go without a heartbeat and still count as
/// healthy: 5 seconds (less than the 10 s interval of the service
/// registry's check).
pub const HEALTHY_GRACE_NANOS: u128 = 5_000_000_000;

/// Healthy: the status is set and the last heartbeat is recent enough.
pub open spec fn healthy(status: bool, elapsed_nanos: u128) -> bool {
    status && elapsed_nanos < HEALTHY_GRACE_NANOS
}

/// Judges health from the status and the time since the last heartbeat.
pub fn health_verdict(status: bool, elapsed_nanos: u128) -> (r: bool)
    ensures
        r == healthy(status, elapsed_nanos),
{
    status && elapsed_nanos < HEALTHY_GRACE_NANOS
}

/// The health of a server's main loop.
pub struct HealthHandle {
    _addr: String,
    last_heartbeat: Instant,
    status: bool,
}

impl HealthHandle {
    /// The explicit status: true for healthy, false for busy or offline.
    pub closed spec fn status_flag(&self) -> bool {
        self.status
    }

    /// The address of the server the handle reports on.
    pub closed spec fn address(&self) -> Seq<char> {
        self._addr@
    }

    /// A handle for the server at `addr` whose status is healthy and whose
    /// heartbeat is now.
    pub fn healthy_now(addr: String) -> (h: HealthHandle)
        ensures
            h.status_flag(),
            h.address() == addr@,
    {
        HealthHandle { _addr: addr, last_heartbeat: now(), status: true }
    }

    /// A healthy handle whose heartbeat is now (see [`Self::healthy_now`]),
    /// shared behind an async lock.
    pub fn new(addr: String) -> (r: Arc<tokio::sync::Mutex<HealthHandle>>)
        ensures
            lock_content(*r).status_flag(),
            lock_content(*r).address() == addr@,
    {
        Arc::new(new_lock(Self::healthy_now(addr)))
    }

    /// Called once per turn of the main loop: "still alive".
    pub fn heartbeat(&mut self)
        ensures
            final(self).status_flag() == old(self).status_flag(),
            final(self).address() == old(self).address(),
    {
        self.last_heartbeat = now();
    }

    /// Sets the status explicitly, which also counts as a heartbeat.
    pub fn set_health_status(&mut self, status: bool)
        ensures
            final(self).status_flag() == status,
            final(self).address() == old(self).address(),
    {
        self.last_heartbeat = now();
        self.status = status;
    }

    /// Whether the handle reports healthy now: the status is set and the
    /// last heartbeat is less than the grace period old.
    pub fn is_healthy(&self) -> (r: bool)
        ensures
            r ==> self.status_flag(),
            !self.status_flag() ==> !r,
    {
        let elapsed = duration_nanos(&elapsed_since(&self.last_heartbeat));
        health_verdict(self.status, elapsed)
    }
}

} // verus!
