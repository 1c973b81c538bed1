use jobacct::{Duration, JobOptions, JobState, Member, Monitor, PollLoop, Progress, Sample};

fn sample(rss: u64) -> Sample {
    Sample {
        cpu: Duration::from_millis(1),
        rss,
        rss_peak: rss,
        nprocs: 1,
    }
}

#[test]
fn still_running_leader_gives_tick_then_scans_again() {
    let mut poll = PollLoop::new();
    assert!(!poll.is_done());
    assert_eq!(poll.sampled::<&str>(Ok(sample(7))), Ok(()));
    let r: Result<Progress<i32>, &str> = poll.reaped(Ok(None));
    assert_eq!(r, Ok(Progress::Tick(sample(7))));
    assert!(!poll.is_done());
    assert_eq!(poll.sampled::<&str>(Ok(sample(9))), Ok(()));
}

#[test]
fn exit_carries_the_sample_taken_before_the_reap() {
    let mut poll = PollLoop::new();
    poll.sampled::<&str>(Ok(sample(1))).unwrap();
    let _ = poll.reaped::<i32, &str>(Ok(None));
    poll.sampled::<&str>(Ok(sample(2))).unwrap();
    let r = poll.reaped::<i32, &str>(Ok(Some(3)));
    assert_eq!(r, Ok(Progress::Exited(3, sample(2))));
    assert!(poll.is_done());
}

#[test]
fn failed_scan_ends_the_loop() {
    let mut poll = PollLoop::new();
    assert_eq!(poll.sampled(Err("scan failed")), Err("scan failed"));
    assert!(poll.is_done());
}

#[test]
fn failed_reap_ends_the_loop() {
    let mut poll = PollLoop::new();
    poll.sampled::<&str>(Ok(sample(1))).unwrap();
    let r = poll.reaped::<i32, &str>(Err("reap failed"));
    assert_eq!(r, Err("reap failed"));
    assert!(poll.is_done());
}

#[test]
fn kill_on_drop_until_reaped() {
    let opts = JobOptions::new().kill_on_drop(true);
    let mut job = JobState::spawned(&opts);
    assert!(job.kill_on_drop_due());
    job.reaped();
    assert!(!job.kill_on_drop_due());
    let quiet = JobState::spawned(&JobOptions::new());
    assert!(!quiet.kill_on_drop_due());
}

#[test]
fn split_hands_kill_duty_to_the_waiter() {
    let opts = JobOptions::new()
        .kill_on_drop(true)
        .poll(Duration::from_millis(40));
    let mut job = JobState::spawned(&opts);
    let mut waiter = job.split();
    assert!(!job.kill_on_drop_due());
    assert!(waiter.kill_on_drop_due());
    assert_eq!(waiter.poll_interval(), Duration::from_millis(40));
    assert_eq!(job.poll_interval(), Duration::from_millis(40));
    waiter.reaped();
    assert!(!waiter.kill_on_drop_due());
}

#[test]
fn released_job_never_kills() {
    let mut job = JobState::spawned(&JobOptions::new().kill_on_drop(true));
    job.release();
    assert!(!job.kill_on_drop_due());
    assert!(!job.opts.kill_on_drop);
}

#[test]
fn wait_loop_over_monitor_reports_last_sample() {
    let mut mon = Monitor::new(77);
    let mut poll = PollLoop::new();
    let live = [Member {
        pid: 77,
        cpu: Duration::from_millis(30),
        rss: 4096,
    }];
    poll.sampled::<&str>(Ok(mon.sample(&live))).unwrap();
    assert_eq!(poll.reaped::<i32, &str>(Ok(None)).unwrap(), Progress::Tick(mon.sample(&live)));
    poll.sampled::<&str>(Ok(mon.sample(&[]))).unwrap();
    match poll.reaped::<i32, &str>(Ok(Some(0))).unwrap() {
        Progress::Exited(code, s) => {
            assert_eq!(code, 0);
            assert_eq!(s.cpu, Duration::from_millis(30));
            assert_eq!(s.nprocs, 0);
            assert_eq!(s.rss_peak, 4096);
        }
        Progress::Tick(_) => panic!("leader was reaped"),
    }
}
