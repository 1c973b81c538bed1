//! How a job is run: whether dropping its handle kills the group, and how
//! often the waiting loop samples it.

use vstd::prelude::*;

use crate::duration::Duration;

verus! {

/// Options for spawning a job.
#[derive(Clone, Copy, Debug, PartialEq, Eq, Structural)]
pub struct JobOptions {
    /// `killpg` the group if the job or its waiter is dropped before the
    /// leader is reaped. Default `false`.
    pub kill_on_drop: bool,
    /// Poll interval of `wait`, `wait_polling` and `watch`. Default 200 ms.
    pub poll: Duration,
}

/// The default poll interval, in nanoseconds.
pub open spec fn default_poll_nanos() -> nat {
    200_000_000
}

/// The default poll interval is 200 milliseconds.
pub proof fn lemma_default_poll()
    ensures
        default_poll_nanos() == 200 * 1_000_000,
{
}

impl Default for JobOptions {
    fn default() -> (o: JobOptions)
        ensures
            !o.kill_on_drop,
            o.poll@ == default_poll_nanos(),
    {
        JobOptions { kill_on_drop: false, poll: Duration::from_millis(200) }
    }
}

impl JobOptions {
    /// The default options: no kill on drop, a poll every 200 ms.
    pub fn new() -> (o: JobOptions)
        ensures
            !o.kill_on_drop,
            o.poll@ == default_poll_nanos(),
    {
        JobOptions::default()
    }

    /// These options, with `kill_on_drop` set to `yes`.
    pub fn kill_on_drop(self, yes: bool) -> (o: JobOptions)
        ensures
            o.kill_on_drop == yes,
            o.poll == self.poll,
    {
        let mut o = self;
        o.kill_on_drop = yes;
        o
    }

    /// These options, with the poll interval set to `d`.
    pub fn poll(self, d: Duration) -> (o: JobOptions)
        ensures
            o.kill_on_drop == self.kill_on_drop,
            o.poll == d,
    {
        let mut o = self;
        o.poll = d;
        o
    }
}

} // verus!
