use jobacct::sys::{
    clock_from, kill_succeeded, kinfo_member, leader_group, members, page_size_or_default,
    proc_member, saturating_mul, task_member, timebase_from, timeval_to_duration,
    ProcStat,
    ScanClock, ScanError, Timebase,
};
use jobacct::Duration;

const ESRCH: i32 = 3;

fn stat(pid: i32, pgrp: i32, utime: u64, stime: u64, rss: u64) -> ProcStat {
    ProcStat {
        pid,
        pgrp,
        utime,
        stime,
        rss,
    }
}

#[test]
fn kill_of_vanished_group_counts_as_success() {
    assert!(kill_succeeded(0, None, ESRCH));
    assert!(kill_succeeded(-1, Some(ESRCH), ESRCH));
    assert!(!kill_succeeded(-1, Some(1), ESRCH));
    assert!(!kill_succeeded(-1, None, ESRCH));
}

#[test]
fn leader_group_falls_back_to_pid() {
    assert_eq!(leader_group(1234, 1234), 1234);
    assert_eq!(leader_group(1234, 99), 99);
    assert_eq!(leader_group(1234, -1), 1234);
}

#[test]
fn zero_clock_rate_is_refused() {
    assert_eq!(clock_from(0, 4096), Err(ScanError::ZeroClockTicks));
    assert_eq!(
        clock_from(100, 4096),
        Ok(ScanClock {
            ticks_per_sec: 100,
            page_size: 4096
        })
    );
}

#[test]
fn proc_record_becomes_member() {
    let clock = ScanClock {
        ticks_per_sec: 100,
        page_size: 4096,
    };
    let m = proc_member(&stat(42, 7, 150, 50, 3), &clock);
    assert_eq!(m.pid, 42);
    assert_eq!(m.cpu, Duration::from_secs(2));
    assert_eq!(m.rss, 12288);
    let m = proc_member(&stat(-5, 7, 1, 0, u64::MAX), &clock);
    assert_eq!(m.pid, 0);
    assert_eq!(m.cpu, Duration::from_millis(10));
    assert_eq!(m.rss, u64::MAX);
}

#[test]
fn proc_cpu_rounds_to_nearest_nanosecond() {
    let clock = ScanClock {
        ticks_per_sec: 3,
        page_size: 4096,
    };
    assert_eq!(proc_member(&stat(1, 1, 2, 0, 0), &clock).cpu.as_nanos(), 666_666_667);
    assert_eq!(proc_member(&stat(1, 1, 1, 0, 0), &clock).cpu.as_nanos(), 333_333_333);
}

#[test]
fn only_group_records_become_members() {
    let clock = ScanClock {
        ticks_per_sec: 100,
        page_size: 4096,
    };
    let stats = [
        stat(1, 1, 5, 5, 1),
        stat(10, 10, 100, 0, 2),
        stat(11, 10, 0, 30, 1),
        stat(12, 12, u64::MAX, 1, 1),
    ];
    let v = members(10, &clock, &stats);
    assert_eq!(v.len(), 2);
    assert_eq!(v[0].pid, 10);
    assert_eq!(v[0].cpu, Duration::from_secs(1));
    assert_eq!(v[0].rss, 8192);
    assert_eq!(v[1].pid, 11);
    assert_eq!(v[1].cpu, Duration::from_millis(300));
    assert!(members(99, &clock, &stats).is_empty());
}

#[test]
fn task_record_becomes_member() {
    let identity = Timebase { numer: 1, denom: 1 };
    let m = task_member(9, 1_000, 2_000, 777, &identity);
    assert_eq!(m.pid, 9);
    assert_eq!(m.cpu, Duration::from_nanos(3_000));
    assert_eq!(m.rss, 777);
    let m = task_member(9, u64::MAX, 1, 0, &identity);
    assert_eq!(m.cpu, Duration::from_nanos(u64::MAX));
}

#[test]
fn task_ticks_go_through_the_timebase() {
    let apple_silicon = Timebase {
        numer: 125,
        denom: 3,
    };
    let m = task_member(7, 3, 0, 4096, &apple_silicon);
    assert_eq!(m.cpu, Duration::from_nanos(125));
    let m = task_member(7, 1, 1, 0, &apple_silicon);
    assert_eq!(m.cpu, Duration::from_nanos(83));
    let m = task_member(7, u64::MAX, 0, 0, &Timebase { numer: u32::MAX, denom: 1 });
    assert_eq!(m.cpu, Duration::max_value());
}

#[test]
fn timebase_needs_success_and_nonzero_denominator() {
    assert_eq!(timebase_from(0, 125, 3), Some(Timebase { numer: 125, denom: 3 }));
    assert_eq!(timebase_from(0, 1, 0), None);
    assert_eq!(timebase_from(5, 1, 1), None);
}

#[test]
fn timeval_ignores_negative_fields() {
    assert_eq!(timeval_to_duration(2, 500_000), Duration::from_millis(2_500));
    assert_eq!(timeval_to_duration(-1, 250), Duration::from_micros(250));
    assert_eq!(timeval_to_duration(3, -7), Duration::from_secs(3));
    assert_eq!(timeval_to_duration(1, 2_000_000), Duration::from_secs(3));
}

#[test]
fn page_size_defaults_to_4096() {
    assert_eq!(page_size_or_default(16384), 16384);
    assert_eq!(page_size_or_default(0), 4096);
    assert_eq!(page_size_or_default(-1), 4096);
}

#[test]
fn kinfo_record_becomes_member() {
    let m = kinfo_member(17, 1, 0, 0, 500_000, 10, 4096);
    assert_eq!(m.pid, 17);
    assert_eq!(m.cpu, Duration::from_millis(1_500));
    assert_eq!(m.rss, 40960);
    let m = kinfo_member(-1, 0, 0, 0, 0, -3, 4096);
    assert_eq!(m.pid, u32::MAX);
    assert_eq!(m.rss, 0);
}

#[test]
fn saturating_product_caps() {
    assert_eq!(saturating_mul(3, 4), 12);
    assert_eq!(saturating_mul(u64::MAX, 2), u64::MAX);
    assert_eq!(saturating_mul(0, u64::MAX), 0);
}
