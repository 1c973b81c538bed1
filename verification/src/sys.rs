//! From what the kernel reports about processes to group members, and the
//! rules around signalling a group and finding a leader's group.
//!
//! Reading the process table is the caller's business; it hands the raw
//! records here.

use vstd::prelude::*;

use crate::acc::{capped, Member};
use crate::duration::{nearest_quotient, saturated, Duration, MAX_NANOS, NANOS_PER_SEC};

verus! {

/// Whether killing a process group succeeded: `killpg` returned `rc`, and
/// when it failed, set `errno`. A group that no longer exists (`esrch`) has
/// nothing left to kill, which counts as success.
pub fn kill_succeeded(rc: i32, errno: Option<i32>, esrch: i32) -> (ok: bool)
    ensures
        ok == (rc == 0 || errno == Some(esrch)),
{
    if rc == 0 {
        true
    } else {
        match errno {
            Some(e) => e == esrch,
            None => false,
        }
    }
}

/// The process group of a freshly spawned leader `pid`, given what
/// `getpgid(pid)` returned: that group, or the pid itself when the call
/// failed (the leader was made the leader of a group named after it).
pub fn leader_group(pid: i32, getpgid_rc: i32) -> (g: i32)
    ensures
        g == if getpgid_rc < 0 { pid } else { getpgid_rc },
{
    if getpgid_rc < 0 {
        pid
    } else {
        getpgid_rc
    }
}

/// `a * b`, or `u64::MAX` where the product exceeds it.
pub fn saturating_mul(a: u64, b: u64) -> (r: u64)
    ensures
        r == capped((a * b) as nat),
{
    match a.checked_mul(b) {
        Some(p) => p,
        None => u64::MAX,
    }
}

// ---------------------------------------------------------------------------
// Linux: /proc/<pid>/stat
// ---------------------------------------------------------------------------

/// The fields of `/proc/<pid>/stat` that the accounting reads.
#[derive(Clone, Copy, Debug, PartialEq, Eq, Structural)]
pub struct ProcStat {
    pub pid: i32,
    /// Process group.
    pub pgrp: i32,
    /// User time, in clock ticks.
    pub utime: u64,
    /// System time, in clock ticks.
    pub stime: u64,
    /// Resident set size, in pages.
    pub rss: u64,
}

/// The machine's clock rate and page size, which turn ticks into time and
/// pages into bytes.
#[derive(Clone, Copy, Debug, PartialEq, Eq, Structural)]
pub struct ScanClock {
    /// Clock ticks per second (`CLK_TCK`).
    pub ticks_per_sec: u64,
    /// Bytes per page.
    pub page_size: u64,
}

/// Why a scan of the process table cannot start.
#[derive(Clone, Copy, Debug, PartialEq, Eq, Structural)]
pub enum ScanError {
    /// The system reports a clock rate of zero ticks per second.
    ZeroClockTicks,
}

/// The clock of a scan, from the clock rate and page size the system
/// reports: refused when the clock rate is zero.
pub fn clock_from(ticks_per_sec: u64, page_size: u64) -> (r: Result<ScanClock, ScanError>)
    ensures
        ticks_per_sec == 0 ==> r == Err::<ScanClock, ScanError>(ScanError::ZeroClockTicks),
        ticks_per_sec > 0 ==> r == Ok::<ScanClock, ScanError>(
            ScanClock { ticks_per_sec, page_size },
        ),
{
    if ticks_per_sec == 0 {
        Err(ScanError::ZeroClockTicks)
    } else {
        Ok(ScanClock { ticks_per_sec, page_size })
    }
}

/// Whether `m` is the member that a `/proc` record describes: negative
/// pids read as 0, user plus system ticks become CPU time (rounded to the
/// nearest nanosecond), and resident pages become bytes (capped at
/// `u64::MAX`).
pub open spec fn is_proc_member(m: Member, stat: ProcStat, clock: ScanClock) -> bool {
    &&& m.pid == if stat.pid < 0 { 0 } else { stat.pid as u32 }
    &&& m.cpu@ == nearest_quotient(
        ((stat.utime + stat.stime) * NANOS_PER_SEC) as nat,
        clock.ticks_per_sec as nat,
    )
    &&& m.rss == capped((stat.rss * clock.page_size) as nat)
}

/// Whether a `/proc` record belongs to process group `pgid`.
pub open spec fn in_group(pgid: i32) -> spec_fn(ProcStat) -> bool {
    |stat: ProcStat| stat.pgrp == pgid
}

/// A `/proc` record belongs to a group exactly when its process group is
/// that group, whatever its CPU ticks or RSS.
pub proof fn lemma_in_group(pgid: i32, stat: ProcStat)
    ensures
        in_group(pgid)(stat) <==> stat.pgrp == pgid,
{
}

/// What a member described by a `/proc` record holds, over every record
/// and clock: its pid is the record's pid, or 0 for a negative one; its
/// RSS is the record's pages times the clock's page size, or `u64::MAX`
/// where that does not fit; its CPU time is within half a nanosecond of
/// the record's user plus system ticks at the clock's rate, halves going
/// up.
pub proof fn lemma_proc_member(m: Member, stat: ProcStat, clock: ScanClock)
    requires
        is_proc_member(m, stat, clock),
        clock.ticks_per_sec > 0,
    ensures
        stat.pid >= 0 ==> m.pid as int == stat.pid as int,
        stat.pid < 0 ==> m.pid == 0,
        stat.rss * clock.page_size <= u64::MAX ==> m.rss as int == stat.rss * clock.page_size,
        stat.rss * clock.page_size > u64::MAX ==> m.rss == u64::MAX,
        2 * ((stat.utime + stat.stime) * NANOS_PER_SEC) < 2 * m.cpu@ * clock.ticks_per_sec
            + clock.ticks_per_sec,
        2 * m.cpu@ * clock.ticks_per_sec <= 2 * ((stat.utime + stat.stime) * NANOS_PER_SEC)
            + clock.ticks_per_sec,
{
    crate::duration::lemma_nearest_quotient(
        ((stat.utime + stat.stime) * NANOS_PER_SEC) as nat,
        clock.ticks_per_sec as nat,
    );
    crate::acc::lemma_capped((stat.rss * clock.page_size) as nat);
}

/// The member that a `/proc` record describes.
pub fn proc_member(stat: &ProcStat, clock: &ScanClock) -> (m: Member)
    requires
        clock.ticks_per_sec > 0,
        stat.utime + stat.stime <= u64::MAX,
    ensures
        is_proc_member(m, *stat, *clock),
{
    let pid: u32 = if stat.pid < 0 { 0 } else { stat.pid as u32 };
    let ticks: u64 = stat.utime + stat.stime;
    Member {
        pid,
        cpu: Duration::from_ticks(ticks, clock.ticks_per_sec),
        rss: saturating_mul(stat.rss, clock.page_size),
    }
}

/// The members of process group `pgid` among the `/proc` records `stats`,
/// in the order of the records.
pub fn members(pgid: i32, clock: &ScanClock, stats: &[ProcStat]) -> (v: Vec<Member>)
    requires
        clock.ticks_per_sec > 0,
        forall|i: int|
            0 <= i < stats@.len() && #[trigger] stats@[i].pgrp == pgid ==> stats@[i].utime
                + stats@[i].stime <= u64::MAX,
    ensures
        v@.len() == stats@.filter(in_group(pgid)).len(),
        forall|i: int|
            0 <= i < v@.len() ==> is_proc_member(#[trigger] v@[i], stats@.filter(in_group(pgid))[i], *clock),
{
    let mut out: Vec<Member> = Vec::new();
    let n = stats.len();
    let mut i: usize = 0;
    while i < n
        invariant
            n == stats@.len(),
            0 <= i <= n,
            clock.ticks_per_sec > 0,
            forall|j: int|
                0 <= j < stats@.len() && #[trigger] stats@[j].pgrp == pgid ==> stats@[j].utime
                    + stats@[j].stime <= u64::MAX,
            out@.len() == stats@.take(i as int).filter(in_group(pgid)).len(),
            forall|j: int|
                0 <= j < out@.len() ==> is_proc_member(
                    #[trigger] out@[j],
                    stats@.take(i as int).filter(in_group(pgid))[j],
                    *clock,
                ),
        decreases n - i,
    {
        let stat = &stats[i];
        let ghost prev = stats@.take(i as int);
        let ghost next = stats@.take(i + 1);
        assert(next.drop_last() =~= prev);
        assert(next.last() == *stat);
        proof {
            reveal_with_fuel(Seq::<_>::filter, 1);
        }
        if stat.pgrp == pgid {
            let m = proc_member(stat, clock);
            out.push(m);
            assert(next.filter(in_group(pgid)) == prev.filter(in_group(pgid)).push(*stat));
        } else {
            assert(next.filter(in_group(pgid)) == prev.filter(in_group(pgid)));
        }
        i = i + 1;
    }
    assert(stats@.take(n as int) =~= stats@);
    out
}

// ---------------------------------------------------------------------------
// macOS: proc_pidinfo(PROC_PIDTASKALLINFO)
// ---------------------------------------------------------------------------

/// The Mach timebase: one tick of the Mach absolute-time clock lasts
/// `numer / denom` nanoseconds.
#[derive(Clone, Copy, Debug, PartialEq, Eq, Structural)]
pub struct Timebase {
    pub numer: u32,
    pub denom: u32,
}

/// The timebase from what `mach_timebase_info` returned (`rc`) and filled
/// in: none when the call failed or reported a zero denominator.
pub fn timebase_from(rc: i32, numer: u32, denom: u32) -> (t: Option<Timebase>)
    ensures
        t == if rc == 0 && denom > 0 {
            Some(Timebase { numer, denom })
        } else {
            None::<Timebase>
        },
{
    if rc == 0 && denom > 0 {
        Some(Timebase { numer, denom })
    } else {
        None
    }
}

/// The member that a task record describes: CPU time is the total user
/// plus system time (summed in Mach ticks, capped at `u64::MAX`) converted
/// to nanoseconds through the timebase, rounded down and capped at the
/// largest span; RSS is the resident size.
pub fn task_member(
    pid: u32,
    total_user: u64,
    total_system: u64,
    resident_size: u64,
    timebase: &Timebase,
) -> (m: Member)
    requires
        timebase.denom > 0,
    ensures
        m.pid == pid,
        m.cpu@ == saturated(
            ((capped((total_user + total_system) as nat) * timebase.numer) / (timebase.denom as int)) as nat,
        ),
        m.rss == resident_size,
{
    let ticks = total_user.saturating_add(total_system);
    Member {
        pid,
        cpu: Duration::from_scaled_ticks(ticks, timebase.numer, timebase.denom),
        rss: resident_size,
    }
}

// ---------------------------------------------------------------------------
// FreeBSD: sysctl(KERN_PROC_PGRP)
// ---------------------------------------------------------------------------

/// The span of a `timeval`, negative fields read as zero.
pub open spec fn timeval_nanos(sec: i64, usec: i64) -> nat {
    let s: nat = if sec < 0 { 0 } else { sec as nat };
    let u: nat = if usec < 0 { 0 } else { usec as nat };
    saturated(s * (NANOS_PER_SEC as nat) + u * 1_000)
}

/// The span of a `timeval`: its seconds and microseconds in nanoseconds,
/// negative fields counting as zero, capped at the largest span.
pub proof fn lemma_timeval_nanos(sec: i64, usec: i64)
    ensures
        ({
            let total = (if sec < 0 { 0 } else { sec as int }) * 1_000_000_000 + (if usec < 0 {
                0
            } else {
                usec as int
            }) * 1_000;
            &&& total <= MAX_NANOS ==> timeval_nanos(sec, usec) == total
            &&& total > MAX_NANOS ==> timeval_nanos(sec, usec) == MAX_NANOS
        }),
{
}

/// The span of a `timeval` of `sec` seconds and `usec` microseconds;
/// negative fields read as zero.
pub fn timeval_to_duration(sec: i64, usec: i64) -> (d: Duration)
    ensures
        d@ == timeval_nanos(sec, usec),
{
    let s: u64 = if sec < 0 { 0 } else { sec as u64 };
    let u: u64 = if usec < 0 { 0 } else { usec as u64 };
    Duration::from_secs(s).saturating_add(Duration::from_micros(u))
}

/// The system's page size as `sysconf` reported it, or 4096 where it
/// reported none.
pub fn page_size_or_default(reported: i64) -> (p: u64)
    ensures
        p == if reported > 0 { reported as u64 } else { 4096 },
{
    if reported > 0 {
        reported as u64
    } else {
        4096
    }
}

/// The member that a `kinfo_proc` record describes: the pid is taken bit
/// for bit, CPU time is the (capped) sum of the user and system rusage
/// times, and resident pages (negative read as zero) become bytes, capped
/// at `u64::MAX`.
pub fn kinfo_member(
    pid: i32,
    user_sec: i64,
    user_usec: i64,
    system_sec: i64,
    system_usec: i64,
    rssize: i64,
    page_size: u64,
) -> (m: Member)
    ensures
        m.pid == #[verifier::truncate] (pid as u32),
        m.cpu@ == saturated(timeval_nanos(user_sec, user_usec) + timeval_nanos(system_sec, system_usec)),
        m.rss == capped((if rssize < 0 { 0 } else { rssize as nat }) * (page_size as nat)),
{
    let user = timeval_to_duration(user_sec, user_usec);
    let system = timeval_to_duration(system_sec, system_usec);
    let pages: u64 = if rssize < 0 { 0 } else { rssize as u64 };
    Member {
        pid: #[verifier::truncate] (pid as u32),
        cpu: user.saturating_add(system),
        rss: saturating_mul(pages, page_size),
    }
}

} // verus!
