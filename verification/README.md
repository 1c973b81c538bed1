# jobacct

CPU time and RSS of a Unix **process group**, for supervising parallel builds
and anything else that is a command plus its children.

The verified library (`src/`) holds the accounting and the rules around it:

- `acc`: the per-pid CPU latch and peak-RSS tracker (`Acc`, `Monitor`). A
  scan's live members are latched by pid, so the CPU time of processes that
  have already exited keeps counting; the sample's CPU is the capped sum over
  every pid ever seen, its RSS the capped sum over the live members, and the
  peak the largest such sum seen.
- `duration`: a nanosecond span with the range of `std::time::Duration`.
- `options`: `JobOptions` (kill on drop, poll interval).
- `job`: the sample-then-reap polling loop (`PollLoop`) and the kill-on-drop
  rule of a job and its waiter (`JobState`).
- `sys`: kernel process records (Linux `/proc`, macOS task info, FreeBSD
  `kinfo_proc`) turned into group members; the outcome of `killpg`; the group
  of a freshly spawned leader.

`app/` is the plain-Rust shell around it: spawning with `std::process` and
`tokio::process`, the shared `Monitor` handle, the system calls and the
process-table scans.
