//! The accounting state of one process group: the last CPU time seen for
//! every pid that ever belonged to it, and the peak of the summed RSS.

use std::collections::HashMap;

use vstd::prelude::*;

use crate::duration::{saturated, Duration, MAX_NANOS};

verus! {

broadcast use vstd::std_specs::hash::group_hash_axioms;

/// One live member of a process group, as one scan of the group saw it.
#[derive(Clone, Copy, Debug, PartialEq, Eq, Structural)]
pub struct Member {
    pub pid: u32,
    /// User plus system CPU time of the process so far.
    pub cpu: Duration,
    /// Resident set size in bytes.
    pub rss: u64,
}

/// One snapshot of a process group.
#[derive(Clone, Copy, Debug, PartialEq, Eq, Structural)]
pub struct Sample {
    /// Sum of user+sys of every pid ever seen, latched on death. Can exceed
    /// wall time.
    pub cpu: Duration,
    /// Sum of the RSS of the live members, in bytes. Shared pages overcount.
    pub rss: u64,
    /// Largest `rss` observed on this handle (bytes).
    pub rss_peak: u64,
    /// Live members in the last scan.
    pub nprocs: u32,
}

/// `n`, or `u64::MAX` where `n` exceeds it.
pub open spec fn capped(n: nat) -> u64 {
    if n > u64::MAX { u64::MAX } else { n as u64 }
}

/// The latch after a scan: every live member's CPU time is recorded under
/// its pid (a later entry for the same pid wins), and every other pid keeps
/// the value it had.
pub open spec fn latch(m: Map<u32, Duration>, live: Seq<Member>) -> Map<u32, Duration>
    decreases live.len(),
{
    if live.len() == 0 {
        m
    } else {
        latch(m, live.drop_last()).insert(live.last().pid, live.last().cpu)
    }
}

/// The sum of the RSS of the live members.
pub open spec fn rss_sum(live: Seq<Member>) -> nat
    decreases live.len(),
{
    if live.len() == 0 {
        0
    } else {
        rss_sum(live.drop_last()) + live.last().rss as nat
    }
}

/// Capping only bites past `u64::MAX`: a number that fits is kept as it
/// is, and a larger one becomes `u64::MAX`.
pub proof fn lemma_capped(n: nat)
    ensures
        n <= u64::MAX ==> capped(n) as nat == n,
        n > u64::MAX ==> capped(n) == u64::MAX,
{
}

/// A scan latches its members in order: no members leave the record as it
/// is, and one more member records its CPU time under its pid, over
/// whatever an earlier entry for that pid recorded.
pub proof fn lemma_latch_steps(m: Map<u32, Duration>, live: Seq<Member>, x: Member)
    ensures
        latch(m, Seq::<Member>::empty()) == m,
        latch(m, live.push(x)) == latch(m, live).insert(x.pid, x.cpu),
{
    assert(live.push(x).drop_last() =~= live);
}

/// The RSS of a scan adds up every live member once: nothing for no
/// members, and one more member adds exactly its RSS.
pub proof fn lemma_rss_sum(live: Seq<Member>, m: Member)
    ensures
        rss_sum(Seq::<Member>::empty()) == 0,
        rss_sum(live.push(m)) == rss_sum(live) + m.rss,
{
    assert(live.push(m).drop_last() =~= live);
}

/// Adds the CPU time that `m` holds for `pid` to a running total.
pub open spec fn cpu_step(m: Map<u32, Duration>) -> spec_fn(nat, u32) -> nat {
    |acc: nat, pid: u32| acc + m[pid]@
}

/// The sum, in nanoseconds, of the CPU times recorded in `m`.
pub open spec fn cpu_total(m: Map<u32, Duration>) -> nat {
    m.dom().fold(0nat, cpu_step(m))
}

/// The sum of the values of a sequence of map entries.
spec fn entry_sum(s: Seq<(u32, Duration)>) -> nat
    decreases s.len(),
{
    if s.len() == 0 {
        0
    } else {
        entry_sum(s.drop_last()) + s.last().1@
    }
}

/// The keys of a sequence of map entries.
spec fn entry_keys(s: Seq<(u32, Duration)>) -> Set<u32>
    decreases s.len(),
{
    if s.len() == 0 {
        Set::empty()
    } else {
        entry_keys(s.drop_last()).insert(s.last().0)
    }
}

/// The running total of `cpu_step` commutes, so the fold over a set is
/// well defined.
proof fn lemma_cpu_step_commutative(m: Map<u32, Duration>)
    ensures
        vstd::set::fold::is_fun_commutative(cpu_step(m)),
{
    let f = cpu_step(m);
    assert forall|a1: u32, a2: u32, b: nat| #[trigger] f(f(b, a2), a1) == f(f(b, a1), a2) by {}
}

/// The keys of a sequence of entries are exactly its first components.
proof fn lemma_entry_keys(s: Seq<(u32, Duration)>)
    ensures
        entry_keys(s).finite(),
        forall|k: u32| #[trigger]
            entry_keys(s).contains(k) <==> exists|i: int| 0 <= i < s.len() && s[i].0 == k,
    decreases s.len(),
{
    if s.len() > 0 {
        lemma_entry_keys(s.drop_last());
        assert forall|k: u32| #[trigger]
            entry_keys(s).contains(k) <==> exists|i: int| 0 <= i < s.len() && s[i].0 == k by {
            if entry_keys(s).contains(k) && k != s.last().0 {
                let i = choose|i: int| 0 <= i < s.len() - 1 && s.drop_last()[i].0 == k;
                assert(s[i].0 == k);
            }
            if exists|i: int| 0 <= i < s.len() && s[i].0 == k {
                let i = choose|i: int| 0 <= i < s.len() && s[i].0 == k;
                if i < s.len() - 1 {
                    assert(s.drop_last()[i].0 == k);
                }
            }
        }
    }
}

/// Summing the entries of a map in any order, each key once, gives the
/// fold of the map over the keys that were summed.
proof fn lemma_entry_sum_fold(m: Map<u32, Duration>, s: Seq<(u32, Duration)>)
    requires
        forall|i: int| 0 <= i < s.len() ==> m.contains_key(#[trigger] s[i].0) && m[s[i].0] == s[i].1,
        forall|i: int, j: int| 0 <= i < j < s.len() ==> s[i].0 != s[j].0,
    ensures
        entry_sum(s) == entry_keys(s).fold(0nat, cpu_step(m)),
    decreases s.len(),
{
    lemma_cpu_step_commutative(m);
    if s.len() == 0 {
        vstd::set::fold::lemma_fold_empty(0nat, cpu_step(m));
    } else {
        let p = s.drop_last();
        lemma_entry_sum_fold(m, p);
        lemma_entry_keys(p);
        assert(!entry_keys(p).contains(s.last().0)) by {
            if entry_keys(p).contains(s.last().0) {
                let i = choose|i: int| 0 <= i < p.len() && p[i].0 == s.last().0;
                assert(s[i].0 == s[s.len() - 1].0);
            }
        }
        vstd::set::fold::lemma_fold_insert(entry_keys(p), 0nat, cpu_step(m), s.last().0);
        assert(m[s.last().0] == s[s.len() - 1].1);
    }
}

/// A map's entries, as an iterator over the map hands them out.
spec fn entries<'a>(s: Seq<(&'a u32, &'a Duration)>) -> Seq<(u32, Duration)> {
    s.map_values(|e: (&'a u32, &'a Duration)| (*e.0, *e.1))
}

/// Summing every entry of a map once, in any order, gives its CPU total.
proof fn lemma_entries_total(m: Map<u32, Duration>, s: Seq<(u32, Duration)>)
    requires
        m.dom().finite(),
        forall|i: int| 0 <= i < s.len() ==> m.contains_key(#[trigger] s[i].0) && m[s[i].0] == s[i].1,
        forall|i: int, j: int| 0 <= i < j < s.len() ==> s[i] != s[j],
        forall|k: u32| #[trigger] m.contains_key(k) ==> s.contains((k, m[k])),
    ensures
        entry_sum(s) == cpu_total(m),
{
    assert forall|i: int, j: int| 0 <= i < j < s.len() implies s[i].0 != s[j].0 by {
        if s[i].0 == s[j].0 {
            assert(s[i] == s[j]);
        }
    }
    lemma_entry_sum_fold(m, s);
    lemma_entry_keys(s);
    assert(entry_keys(s) =~= m.dom()) by {
        assert forall|k: u32| m.dom().contains(k) implies #[trigger] entry_keys(s).contains(k) by {
            assert(s.contains((k, m[k])));
            let i = choose|i: int| 0 <= i < s.len() && s[i] == (k, m[k]);
            assert(s[i].0 == k);
        }
    }
}

/// Where the latch takes each pid from: a pid is recorded after a scan
/// exactly when it was recorded before or is live; a pid that is not live
/// keeps its value; a live pid holds the CPU time of one of its live entries.
pub proof fn lemma_latch(m: Map<u32, Duration>, live: Seq<Member>)
    ensures
        m.dom().finite() ==> latch(m, live).dom().finite(),
        forall|k: u32| #[trigger]
            latch(m, live).contains_key(k) <==> (m.contains_key(k) || exists|i: int|
                0 <= i < live.len() && live[i].pid == k),
        forall|k: u32|
            #![trigger latch(m, live)[k]]
            m.contains_key(k) && (forall|i: int| 0 <= i < live.len() ==> live[i].pid != k)
                ==> latch(m, live)[k] == m[k],
        forall|k: u32|
            #![trigger latch(m, live)[k]]
            (exists|i: int| 0 <= i < live.len() && live[i].pid == k) ==> exists|i: int|
                0 <= i < live.len() && live[i].pid == k && latch(m, live)[k] == live[i].cpu,
    decreases live.len(),
{
    if live.len() > 0 {
        let p = live.drop_last();
        lemma_latch(m, p);
        let last = live.len() - 1;
        assert forall|k: u32| #[trigger]
            latch(m, live).contains_key(k) <==> (m.contains_key(k) || exists|i: int|
                0 <= i < live.len() && live[i].pid == k) by {
            if exists|i: int| 0 <= i < live.len() && live[i].pid == k {
                let i = choose|i: int| 0 <= i < live.len() && live[i].pid == k;
                if i < last {
                    assert(p[i].pid == k);
                }
            }
            if latch(m, p).contains_key(k) && !m.contains_key(k) {
                let i = choose|i: int| 0 <= i < p.len() && p[i].pid == k;
                assert(live[i].pid == k);
            }
        }
        assert forall|k: u32|
            (exists|i: int| 0 <= i < live.len() && live[i].pid == k) implies exists|i: int|
                0 <= i < live.len() && live[i].pid == k && #[trigger] latch(m, live)[k]
                    == live[i].cpu by {
            if k == live[last].pid {
                assert(live[last].pid == k && latch(m, live)[k] == live[last].cpu);
            } else {
                let i = choose|i: int| 0 <= i < live.len() && live[i].pid == k;
                assert(p[i].pid == k);
                let j = choose|j: int| 0 <= j < p.len() && p[j].pid == k && latch(m, p)[k] == p[j].cpu;
                assert(live[j].pid == k && latch(m, live)[k] == live[j].cpu);
            }
        }
        assert forall|k: u32|
            m.contains_key(k) && (forall|i: int| 0 <= i < live.len() ==> live[i].pid != k) implies
                #[trigger] latch(m, live)[k] == m[k] by {
            assert(live[last].pid != k);
            assert forall|i: int| 0 <= i < p.len() implies p[i].pid != k by {
                assert(live[i].pid != k);
            }
            assert(latch(m, live)[k] == latch(m, p)[k]);
            assert(latch(m, p)[k] == m[k]);
        }
    }
}

/// Summing `m2` over a set of pids is at least summing `m1` over any part
/// of it on which `m2` records no less CPU time than `m1`.
proof fn lemma_fold_le(s: Set<u32>, t: Set<u32>, m1: Map<u32, Duration>, m2: Map<u32, Duration>)
    requires
        t.finite(),
        s.subset_of(t),
        forall|k: u32| #[trigger] s.contains(k) ==> m1[k]@ <= m2[k]@,
    ensures
        s.fold(0nat, cpu_step(m1)) <= t.fold(0nat, cpu_step(m2)),
    decreases t.len(),
{
    lemma_cpu_step_commutative(m1);
    lemma_cpu_step_commutative(m2);
    vstd::set_lib::lemma_set_subset_finite(t, s);
    if t.len() == 0 {
        assert(t =~= Set::empty());
        assert(s =~= Set::empty());
        vstd::set::fold::lemma_fold_empty(0nat, cpu_step(m1));
        vstd::set::fold::lemma_fold_empty(0nat, cpu_step(m2));
    } else {
        let k = t.choose();
        let t0 = t.remove(k);
        assert(t0.insert(k) =~= t);
        vstd::set::fold::lemma_fold_insert(t0, 0nat, cpu_step(m2), k);
        if s.contains(k) {
            let s0 = s.remove(k);
            assert(s0.insert(k) =~= s);
            vstd::set_lib::lemma_set_subset_finite(t, s0);
            vstd::set::fold::lemma_fold_insert(s0, 0nat, cpu_step(m1), k);
            lemma_fold_le(s0, t0, m1, m2);
        } else {
            lemma_fold_le(s, t0, m1, m2);
        }
    }
}

/// Nothing recorded, no CPU time.
pub proof fn lemma_cpu_total_empty()
    ensures
        cpu_total(Map::<u32, Duration>::empty()) == 0,
{
    assert(Map::<u32, Duration>::empty().dom() =~= Set::<u32>::empty());
    vstd::set::fold::lemma_fold_empty(0nat, cpu_step(Map::<u32, Duration>::empty()));
}

/// The CPU total counts each pid once, with the CPU time recorded for it:
/// recording `cpu` for `pid` adds it to the total of the other pids.
pub proof fn lemma_cpu_total_insert(m: Map<u32, Duration>, pid: u32, cpu: Duration)
    requires
        m.dom().finite(),
    ensures
        cpu_total(m.insert(pid, cpu)) == cpu_total(m.remove(pid)) + cpu@,
{
    let n = m.insert(pid, cpu);
    let r = m.remove(pid);
    assert(r.dom().insert(pid) =~= n.dom());
    lemma_cpu_step_commutative(n);
    vstd::set::fold::lemma_fold_insert(r.dom(), 0nat, cpu_step(n), pid);
    assert(r.dom().subset_of(r.dom()));
    lemma_fold_le(r.dom(), r.dom(), n, r);
    lemma_fold_le(r.dom(), r.dom(), r, n);
}

/// A process's CPU time never goes backwards; so as long as no live member
/// reports less CPU time than was latched for its pid, a scan never lowers
/// the CPU total.
pub proof fn lemma_cpu_total_never_decreases(m: Map<u32, Duration>, live: Seq<Member>)
    requires
        m.dom().finite(),
        forall|i: int|
            0 <= i < live.len() && m.contains_key(#[trigger] live[i].pid) ==> m[live[i].pid]@
                <= live[i].cpu@,
    ensures
        cpu_total(m) <= cpu_total(latch(m, live)),
        saturated(cpu_total(m)) <= saturated(cpu_total(latch(m, live))),
{
    let n = latch(m, live);
    lemma_latch(m, live);
    assert forall|k: u32| #[trigger] m.dom().contains(k) implies m[k]@ <= n[k]@ by {
        if exists|i: int| 0 <= i < live.len() && live[i].pid == k {
            let i = choose|i: int| 0 <= i < live.len() && live[i].pid == k && n[k] == live[i].cpu;
        }
    }
    lemma_fold_le(m.dom(), n.dom(), m, n);
}

/// The record after a run of scans, one after another.
pub open spec fn latch_scans(m: Map<u32, Duration>, scans: Seq<Seq<Member>>) -> Map<u32, Duration>
    decreases scans.len(),
{
    if scans.len() == 0 {
        m
    } else {
        latch(latch_scans(m, scans.drop_last()), scans.last())
    }
}

/// The CPU total counts the CPU time of every recorded pid.
pub proof fn lemma_cpu_total_counts_each(m: Map<u32, Duration>, pid: u32)
    requires
        m.dom().finite(),
        m.contains_key(pid),
    ensures
        cpu_total(m) >= m[pid]@,
{
    lemma_cpu_total_insert(m, pid, m[pid]);
    assert(m.insert(pid, m[pid]) =~= m);
}

/// A pid that no later scan finds keeps the CPU time latched for it, and
/// that CPU time stays counted in the total, and in every sample's CPU,
/// over any run of later scans.
pub proof fn lemma_vanished_pid_stays_counted(m: Map<u32, Duration>, scans: Seq<Seq<Member>>, pid: u32)
    requires
        recorded(m),
        m.contains_key(pid),
        forall|j: int, i: int|
            0 <= j < scans.len() && 0 <= i < scans[j].len() ==> #[trigger] scans[j][i].pid != pid,
    ensures
        latch_scans(m, scans).dom().finite(),
        latch_scans(m, scans).contains_key(pid),
        latch_scans(m, scans)[pid] == m[pid],
        cpu_total(latch_scans(m, scans)) >= m[pid]@,
        saturated(cpu_total(latch_scans(m, scans))) >= m[pid]@,
    decreases scans.len(),
{
    if scans.len() > 0 {
        let p = scans.drop_last();
        assert forall|j: int, i: int| 0 <= j < p.len() && 0 <= i < p[j].len() implies #[trigger] p[j][i].pid
            != pid by {
            assert(scans[j][i].pid != pid);
        }
        lemma_vanished_pid_stays_counted(m, p, pid);
        let prev = latch_scans(m, p);
        let last = scans.last();
        lemma_latch(prev, last);
        assert forall|i: int| 0 <= i < last.len() implies last[i].pid != pid by {
            assert(scans[scans.len() - 1][i].pid != pid);
        }
    }
    lemma_cpu_total_counts_each(latch_scans(m, scans), pid);
}

/// Whether a record of CPU times is one that accounting can hold: finitely
/// many pids, each with a span no larger than the largest span.
pub open spec fn recorded(m: Map<u32, Duration>) -> bool {
    &&& m.dom().finite()
    &&& forall|pid: u32| #[trigger] m.contains_key(pid) ==> m[pid]@ <= MAX_NANOS
}

/// The accounting state of one process group.
#[derive(Debug)]
pub struct Acc {
    /// Last CPU time per pid. Dead pids stay, so short-lived children count
    /// after they vanish from the kernel table.
    cpu_by_pid: HashMap<u32, Duration>,
    rss_peak: u64,
}

impl Acc {
    #[verifier::type_invariant]
    spec fn holds_record(self) -> bool {
        recorded(self.cpu_by_pid@)
    }

    /// The last CPU time recorded for each pid ever seen.
    pub closed spec fn cpu_by_pid(&self) -> Map<u32, Duration> {
        self.cpu_by_pid@
    }

    /// The largest summed RSS seen so far.
    pub closed spec fn peak(&self) -> u64 {
        self.rss_peak
    }

    /// No pid seen yet, and a peak of zero.
    pub fn new() -> (a: Acc)
        ensures
            a.cpu_by_pid() == Map::<u32, Duration>::empty(),
            recorded(a.cpu_by_pid()),
            a.peak() == 0,
    {
        Acc { cpu_by_pid: HashMap::new(), rss_peak: 0 }
    }

    /// Records one scan of the group and reports the resulting sample: the
    /// live members' CPU times are latched by pid, the CPU time is the sum
    /// over every pid ever seen, the RSS is the (capped) sum over the live
    /// members, and the peak is the largest RSS seen so far.
    pub fn observe(&mut self, live: &[Member]) -> (s: Sample)
        ensures
            final(self).cpu_by_pid() == latch(old(self).cpu_by_pid(), live@),
            recorded(final(self).cpu_by_pid()),
            final(self).peak() == if s.rss > old(self).peak() { s.rss } else { old(self).peak() },
            s.cpu@ == saturated(cpu_total(final(self).cpu_by_pid())),
            s.rss == capped(rss_sum(live@)),
            s.rss_peak == final(self).peak(),
            s.nprocs == #[verifier::truncate] (live@.len() as u32),
    {
        proof {
            use_type_invariant(&*self);
        }
        let mut pids: HashMap<u32, Duration> = HashMap::new();
        std::mem::swap(&mut pids, &mut self.cpu_by_pid);
        let mut rss: u64 = 0;
        let n = live.len();
        let mut i: usize = 0;
        while i < n
            invariant
                n == live@.len(),
                0 <= i <= n,
                pids@ == latch(old(self).cpu_by_pid@, live@.take(i as int)),
                recorded(pids@),
                rss == capped(rss_sum(live@.take(i as int))),
                self.rss_peak == old(self).rss_peak,
            decreases n - i,
        {
            let m = live[i];
            proof {
                use_type_invariant(&m.cpu);
            }
            assert(live@.take(i + 1).drop_last() =~= live@.take(i as int));
            pids.insert(m.pid, m.cpu);
            rss = rss.saturating_add(m.rss);
            i = i + 1;
        }
        assert(live@.take(n as int) =~= live@);
        let ghost map = pids@;
        let ghost all = vstd::std_specs::iter::IteratorSpec::remaining(&pids.iter());
        let mut cpu = Duration::zero();
        for entry in it: pids.iter()
            invariant
                map == pids@,
                it.seq() == all,
                cpu@ == saturated(entry_sum(entries(it.seq()).take(it.index()))),
        {
            let (_pid, c) = entry;
            assert(entries(it.seq()).take(it.index() + 1).drop_last()
                =~= entries(it.seq()).take(it.index()));
            cpu = cpu.saturating_add(*c);
        }
        proof {
            let s = entries(all);
            assert(s.take(s.len() as int) =~= s);
            assert forall|k: u32| #[trigger] map.contains_key(k) implies s.contains((k, map[k])) by {
                assert(all.contains((&k, &map[k])));
                let i = choose|i: int| 0 <= i < all.len() && all[i] == (&k, &map[k]);
                assert(s[i] == (k, map[k]));
            }
            lemma_entries_total(map, s);
        }
        self.cpu_by_pid = pids;
        if rss > self.rss_peak {
            self.rss_peak = rss;
        }
        Sample { cpu, rss, rss_peak: self.rss_peak, nprocs: #[verifier::truncate] (n as u32) }
    }
}

impl Default for Acc {
    fn default() -> (a: Acc)
        ensures
            a.cpu_by_pid() == Map::<u32, Duration>::empty(),
            recorded(a.cpu_by_pid()),
            a.peak() == 0,
    {
        Acc::new()
    }
}

/// The sampler of one process group: its pgid and its accounting state.
///
/// Scanning the kernel's process table is left to the caller, which hands
/// each scan's live members to [`Monitor::sample`].
#[derive(Debug)]
pub struct Monitor {
    pgid: i32,
    acc: Acc,
}

impl Monitor {
    /// The process group this monitor accounts for.
    pub closed spec fn group(&self) -> i32 {
        self.pgid
    }

    /// The last CPU time recorded for each pid of the group ever seen.
    pub closed spec fn cpu_by_pid(&self) -> Map<u32, Duration> {
        self.acc.cpu_by_pid()
    }

    /// The largest summed RSS of the group seen so far.
    pub closed spec fn peak(&self) -> u64 {
        self.acc.peak()
    }

    /// A monitor for group `pgid` that has seen nothing yet.
    pub fn new(pgid: i32) -> (m: Monitor)
        ensures
            m.group() == pgid,
            m.cpu_by_pid() == Map::<u32, Duration>::empty(),
            recorded(m.cpu_by_pid()),
            m.peak() == 0,
    {
        Monitor { pgid, acc: Acc::new() }
    }

    /// The process group this monitor accounts for.
    pub fn pgid(&self) -> (g: i32)
        ensures
            g == self.group(),
    {
        self.pgid
    }

    /// Accounts for one scan of the group, whose live members are `live`,
    /// and reports the resulting sample (see [`Acc::observe`]).
    pub fn sample(&mut self, live: &[Member]) -> (s: Sample)
        ensures
            final(self).group() == old(self).group(),
            final(self).cpu_by_pid() == latch(old(self).cpu_by_pid(), live@),
            recorded(final(self).cpu_by_pid()),
            final(self).peak() == if s.rss > old(self).peak() { s.rss } else { old(self).peak() },
            s.cpu@ == saturated(cpu_total(final(self).cpu_by_pid())),
            s.rss == capped(rss_sum(live@)),
            s.rss_peak == final(self).peak(),
            s.nprocs == #[verifier::truncate] (live@.len() as u32),
    {
        self.acc.observe(live)
    }
}

} // verus!
