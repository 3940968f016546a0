use vstd::prelude::*;

verus! {

/// Nanoseconds in one second.
pub const NANOS_PER_SEC: u64 = 1_000_000_000;

/// Longest time a session stays valid after it was created: thirty days.
pub const MAX_SESSION_AGE_SECS: u64 = 2_592_000;

/// A point in time, as seconds and nanoseconds since the Unix epoch.
#[derive(Clone, Copy, Debug, PartialEq, Eq, Structural)]
pub struct Timestamp {
    pub secs: u64,
    pub nanos: u32,
}

impl Timestamp {
    /// The sub-second part is a proper fraction of a second.
    pub open spec fn valid(self) -> bool {
        self.nanos < NANOS_PER_SEC
    }

    /// Nanoseconds since the epoch.
    pub open spec fn total_nanos(self) -> int {
        self.secs * NANOS_PER_SEC + self.nanos
    }
}

/// A session created at `created` is still fresh at `now`: `now` is not
/// before `created`, and at most the maximum session age has passed.
pub open spec fn is_fresh(created: Timestamp, now: Timestamp) -> bool {
    &&& created.total_nanos() <= now.total_nanos()
    &&& now.total_nanos() - created.total_nanos() <= MAX_SESSION_AGE_SECS * NANOS_PER_SEC
}

proof fn lemma_total_nanos_fits(t: Timestamp)
    ensures
        0 <= t.secs * NANOS_PER_SEC <= u64::MAX * NANOS_PER_SEC,
        t.total_nanos() <= u64::MAX * NANOS_PER_SEC + u32::MAX,
        u64::MAX * NANOS_PER_SEC + u32::MAX < u128::MAX,
{
    assert(0 <= t.secs * NANOS_PER_SEC <= u64::MAX * NANOS_PER_SEC) by (nonlinear_arith);
}

/// How old a session is at a given time.
#[derive(Clone, Copy, Debug, PartialEq, Eq, Structural)]
pub enum SessionAge {
    /// The creation time lies after `now`: the age cannot be determined.
    Unknown,
    /// More than the maximum session age has passed.
    TooOld,
    /// The session is young enough to be honoured.
    Fresh,
}

/// Classifies the age of a session created at `created`, seen at `now`.
pub fn session_age(created: Timestamp, now: Timestamp) -> (r: SessionAge)
    ensures
        r == SessionAge::Unknown <==> now.total_nanos() < created.total_nanos(),
        r == SessionAge::Fresh <==> is_fresh(created, now),
{
    proof {
        lemma_total_nanos_fits(created);
        lemma_total_nanos_fits(now);
    }
    let c: u128 = created.secs as u128 * NANOS_PER_SEC as u128 + created.nanos as u128;
    let n: u128 = now.secs as u128 * NANOS_PER_SEC as u128 + now.nanos as u128;
    if n < c {
        SessionAge::Unknown
    } else if n - c > MAX_SESSION_AGE_SECS as u128 * NANOS_PER_SEC as u128 {
        SessionAge::TooOld
    } else {
        SessionAge::Fresh
    }
}

} // verus!
