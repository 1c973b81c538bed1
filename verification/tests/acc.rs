use jobacct::{Acc, Duration, Member, Monitor};

fn member(pid: u32, cpu_ms: u64, rss: u64) -> Member {
    Member {
        pid,
        cpu: Duration::from_millis(cpu_ms),
        rss,
    }
}

#[test]
fn latches_dead_pid_cpu() {
    let mut acc = Acc::default();
    let s1 = acc.observe(&[Member {
        pid: 1,
        cpu: Duration::from_millis(10),
        rss: 100,
    }]);
    assert_eq!(s1.cpu, Duration::from_millis(10));
    assert_eq!(s1.nprocs, 1);

    let s2 = acc.observe(&[Member {
        pid: 2,
        cpu: Duration::from_millis(5),
        rss: 50,
    }]);
    assert_eq!(s2.cpu, Duration::from_millis(15));
    assert_eq!(s2.rss, 50);
    assert_eq!(s2.rss_peak, 100);
    assert_eq!(s2.nprocs, 1);
}

#[test]
fn empty_scan_reports_nothing_live() {
    let mut acc = Acc::new();
    let s = acc.observe(&[]);
    assert_eq!(s.cpu, Duration::zero());
    assert_eq!(s.rss, 0);
    assert_eq!(s.rss_peak, 0);
    assert_eq!(s.nprocs, 0);
}

#[test]
fn live_pid_cpu_is_replaced_not_added() {
    let mut acc = Acc::new();
    acc.observe(&[member(7, 10, 1)]);
    let s = acc.observe(&[member(7, 25, 1)]);
    assert_eq!(s.cpu, Duration::from_millis(25));
}

#[test]
fn later_entry_for_same_pid_wins() {
    let mut acc = Acc::new();
    let s = acc.observe(&[member(3, 40, 10), member(3, 30, 20)]);
    assert_eq!(s.cpu, Duration::from_millis(30));
    assert_eq!(s.rss, 30);
    assert_eq!(s.nprocs, 2);
}

#[test]
fn cpu_sums_live_and_dead_pids() {
    let mut acc = Acc::new();
    acc.observe(&[member(1, 10, 100), member(2, 20, 200)]);
    acc.observe(&[member(2, 35, 150), member(3, 5, 50)]);
    let s = acc.observe(&[member(3, 6, 40)]);
    assert_eq!(s.cpu, Duration::from_millis(10 + 35 + 6));
    assert_eq!(s.rss, 40);
    assert_eq!(s.rss_peak, 300);
    assert_eq!(s.nprocs, 1);
}

#[test]
fn rss_sum_saturates() {
    let mut acc = Acc::new();
    let s = acc.observe(&[member(1, 0, u64::MAX - 1), member(2, 0, 5)]);
    assert_eq!(s.rss, u64::MAX);
    assert_eq!(s.rss_peak, u64::MAX);
}

#[test]
fn cpu_total_saturates_at_max_span() {
    let mut acc = Acc::new();
    let big = Duration::new(u64::MAX, 999_999_999);
    let s = acc.observe(&[
        Member { pid: 1, cpu: big, rss: 0 },
        Member { pid: 2, cpu: Duration::from_secs(1), rss: 0 },
    ]);
    assert_eq!(s.cpu, Duration::max_value());
}

#[test]
fn peak_is_kept_when_rss_drops() {
    let mut acc = Acc::new();
    let a = acc.observe(&[member(1, 1, 500)]);
    let b = acc.observe(&[member(1, 2, 100)]);
    let c = acc.observe(&[member(1, 3, 800)]);
    assert_eq!(a.rss_peak, 500);
    assert_eq!(b.rss_peak, 500);
    assert_eq!(b.rss, 100);
    assert_eq!(c.rss_peak, 800);
}

#[test]
fn monitor_keeps_pgid_and_samples() {
    let mut mon = Monitor::new(4242);
    assert_eq!(mon.pgid(), 4242);
    let s1 = mon.sample(&[member(10, 100, 4096), member(11, 50, 8192)]);
    assert_eq!(s1.cpu, Duration::from_millis(150));
    assert_eq!(s1.rss, 12288);
    assert_eq!(s1.nprocs, 2);
    let s2 = mon.sample(&[member(11, 60, 4096)]);
    assert_eq!(s2.cpu, Duration::from_millis(160));
    assert_eq!(s2.rss_peak, 12288);
    assert_eq!(mon.pgid(), 4242);
}
