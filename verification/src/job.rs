//! The decisions of a job's life: the sample-then-reap polling loop, and
//! when dropping a handle kills the group.
//!
//! The caller performs the outside work (scanning the group, reaping the
//! leader, sleeping, killing) and hands each outcome back here.

use vstd::prelude::*;

use crate::acc::Sample;
use crate::duration::Duration;
use crate::options::JobOptions;

verus! {

/// Where a sample-then-reap loop stands.
#[derive(Clone, Copy, Debug, PartialEq, Eq, Structural)]
pub enum Phase {
    /// The group is to be scanned next.
    Scan,
    /// The group was scanned with this result; the leader is to be reaped
    /// (without blocking) next.
    Reap(Sample),
    /// The leader was reaped, or a scan or a reap failed: the loop is over.
    Done,
}

/// What one round of the loop reports.
#[derive(Debug, PartialEq, Eq)]
pub enum Progress<St> {
    /// The leader is still running; this is the round's sample. The caller
    /// sleeps for the poll interval before the next round.
    Tick(Sample),
    /// The leader exited with this status; the sample is the one taken just
    /// before it was reaped, while a zombie leader was still visible.
    Exited(St, Sample),
}

/// The polling loop of `wait`, `try_wait` and `watch`: scan the group, then
/// reap the leader, then (if it still runs) sleep and start over.
#[derive(Clone, Copy, Debug)]
pub struct PollLoop {
    phase: Phase,
}

impl PollLoop {
    /// Where the loop stands.
    pub closed spec fn phase(&self) -> Phase {
        self.phase
    }

    /// A loop about to scan the group for the first time.
    pub fn new() -> (l: PollLoop)
        ensures
            l.phase() == Phase::Scan,
    {
        PollLoop { phase: Phase::Scan }
    }

    /// Whether the loop is over: nothing more is to be scanned or reported.
    pub fn is_done(&self) -> (b: bool)
        ensures
            b == (self.phase() == Phase::Done),
    {
        match self.phase {
            Phase::Done => true,
            _ => false,
        }
    }

    /// Takes the result of scanning the group. A sample moves the loop on to
    /// reaping the leader; an error ends the loop and is handed back.
    pub fn sampled<E>(&mut self, scan: Result<Sample, E>) -> (r: Result<(), E>)
        requires
            old(self).phase() == Phase::Scan,
        ensures
            match scan {
                Ok(s) => final(self).phase() == Phase::Reap(s) && r is Ok,
                Err(e) => final(self).phase() == Phase::Done && r == Err::<(), E>(e),
            },
    {
        match scan {
            Ok(s) => {
                self.phase = Phase::Reap(s);
                Ok(())
            },
            Err(e) => {
                self.phase = Phase::Done;
                Err(e)
            },
        }
    }

    /// Takes the result of reaping the leader without blocking. An exit
    /// status ends the loop with the sample taken before the reap; a leader
    /// that still runs makes this round a tick, and the next round scans
    /// again; an error ends the loop and is handed back.
    pub fn reaped<St, E>(&mut self, reap: Result<Option<St>, E>) -> (r: Result<Progress<St>, E>)
        requires
            old(self).phase() is Reap,
        ensures
            ({
                let s = old(self).phase()->Reap_0;
                match reap {
                    Ok(Some(st)) => final(self).phase() == Phase::Done && r == Ok::<Progress<St>, E>(
                        Progress::Exited(st, s),
                    ),
                    Ok(None) => final(self).phase() == Phase::Scan && r == Ok::<Progress<St>, E>(
                        Progress::Tick(s),
                    ),
                    Err(e) => final(self).phase() == Phase::Done && r == Err::<Progress<St>, E>(e),
                }
            }),
    {
        let s = match self.phase {
            Phase::Reap(s) => s,
            _ => vstd::pervasive::unreached(),
        };
        match reap {
            Ok(Some(st)) => {
                self.phase = Phase::Done;
                Ok(Progress::Exited(st, s))
            },
            Ok(None) => {
                self.phase = Phase::Scan;
                Ok(Progress::Tick(s))
            },
            Err(e) => {
                self.phase = Phase::Done;
                Err(e)
            },
        }
    }
}

/// What a job or waiter handle must do when it is dropped: its options, and
/// whether it is done with the group (the leader was reaped, or the handle
/// gave the leader away).
#[derive(Clone, Copy, Debug, PartialEq, Eq, Structural)]
pub struct JobState {
    pub opts: JobOptions,
    pub finished: bool,
}

impl JobState {
    /// Whether dropping the handle kills the process group: exactly when
    /// the options ask for it and the handle is not done with the group.
    pub open spec fn kills_on_drop(self) -> bool {
        self.opts.kill_on_drop && !self.finished
    }

    /// The handle after it gave the leader away.
    pub open spec fn released(self) -> JobState {
        JobState { opts: JobOptions { kill_on_drop: false, poll: self.opts.poll }, finished: true }
    }

    /// The waiter that a split of this job hands the leader to.
    pub open spec fn waiter(self) -> JobState {
        JobState { opts: self.opts, finished: false }
    }

    /// A freshly spawned job, with a copy of the options it was spawned with.
    pub fn spawned(opts: &JobOptions) -> (j: JobState)
        ensures
            j.opts == *opts,
            !j.finished,
    {
        JobState { opts: *opts, finished: false }
    }

    /// The interval at which `wait` polls.
    pub fn poll_interval(&self) -> (d: Duration)
        ensures
            d == self.opts.poll,
    {
        self.opts.poll
    }

    /// Whether dropping the handle now kills the process group.
    pub fn kill_on_drop_due(&self) -> (b: bool)
        ensures
            b == self.kills_on_drop(),
    {
        self.opts.kill_on_drop && !self.finished
    }

    /// The leader has been reaped: the handle is done with the group.
    pub fn reaped(&mut self)
        ensures
            *final(self) == (JobState { opts: old(self).opts, finished: true }),
    {
        self.finished = true;
    }

    /// The handle gives the leader away and stops accounting: dropping it
    /// no longer kills the group.
    pub fn release(&mut self)
        ensures
            *final(self) == old(self).released(),
    {
        self.finished = true;
        self.opts.kill_on_drop = false;
    }

    /// Splits a job into a waiter: the job hands the leader over and is done
    /// with the group, while the waiter takes on the job's options and its
    /// duty to kill on drop until it reaps the leader.
    pub fn split(&mut self) -> (w: JobState)
        ensures
            w == old(self).waiter(),
            *final(self) == old(self).released(),
    {
        let w = JobState { opts: self.opts, finished: false };
        self.release();
        w
    }
}

/// Once a job is split, dropping the job never kills the group, and the
/// waiter kills it on drop exactly when the job's options ask for it.
pub proof fn lemma_split_hands_over_kill(job: JobState)
    ensures
        !job.released().kills_on_drop(),
        job.waiter().kills_on_drop() == job.opts.kill_on_drop,
{
}

/// Whether dropping a handle kills its group depends on its
/// `kill_on_drop` option and on whether it is finished, and on nothing
/// else: it kills exactly when asked to and not yet finished, whatever
/// its poll interval.
pub proof fn lemma_kills_on_drop(s: JobState, poll: Duration)
    ensures
        s.kills_on_drop() <==> (s.opts.kill_on_drop && !s.finished),
        !s.opts.kill_on_drop ==> !s.kills_on_drop(),
        (JobState { opts: JobOptions { kill_on_drop: s.opts.kill_on_drop, poll }, finished: s.finished })
            .kills_on_drop() == s.kills_on_drop(),
{
}

/// A split hands the waiter the job's options unchanged and unfinished; the
/// job itself ends finished, with `kill_on_drop` cleared and its poll
/// interval kept.
pub proof fn lemma_split_states(job: JobState)
    ensures
        job.waiter().opts == job.opts,
        !job.waiter().finished,
        job.released().finished,
        !job.released().opts.kill_on_drop,
        job.released().opts.poll == job.opts.poll,
{
}

/// A handle that has reaped the leader never kills the group on drop.
pub proof fn lemma_reaped_never_kills(job: JobState)
    ensures
        !(JobState { opts: job.opts, finished: true }).kills_on_drop(),
{
}

} // verus!
