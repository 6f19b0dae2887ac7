use vstd::prelude::*;

use crate::count::{count_where, lemma_count_bounds, lemma_count_update};
use crate::limiter::{Limiter, LimiterView};
use crate::probe::{verdict_of, ConnectResult, ProbeOutcome, Verdict};
use crate::target::ScanTarget;

verus! {

/// Where one port of the range stands in the scan.
#[derive(Clone, Copy, Debug, PartialEq, Eq, Structural)]
pub enum PortPhase {
    /// Not yet handed to the limiter.
    Unscheduled,
    /// Scheduled, waiting for a permit.
    Queued,
    /// Holding a permit; its probe runs and its outcome is awaited.
    Probing,
    /// Its outcome has been collected.
    Done(Verdict),
}

/// What the caller does with the port that was just scheduled.
#[derive(Clone, Copy, Debug, PartialEq, Eq, Structural)]
pub enum Scheduled {
    /// The port holds a permit: start its probe now.
    Launch(u16),
    /// The port waits for a permit; it is launched later, when an outcome
    /// frees one.
    Wait(u16),
}

/// Why an outcome was not accepted.
#[derive(Clone, Copy, Debug, PartialEq, Eq, Structural)]
pub enum RecordError {
    /// The port lies outside the scanned range.
    OutsideRange(u16),
    /// The port holds no permit: it was not launched, or its outcome has
    /// already been collected.
    NotProbing(u16),
}

/// The final result of a scan: the open ports in ascending order, and the
/// wall-clock time the scan took.
#[derive(Clone, Debug)]
pub struct ScanReport {
    pub open_ports: Vec<u16>,
    pub elapsed_nanos: u64,
}

/// The coordinator of one scan: it schedules every port of the range in
/// ascending order, lets at most `concurrency_limit` of them hold a permit,
/// and collects exactly one outcome per port.
pub struct Scan {
    target: ScanTarget,
    limiter: Limiter,
    phases: Vec<PortPhase>,
    scheduled: usize,
    granted: usize,
    collected: usize,
}

/// The abstract state of a [`Scan`]. Entry `i` of `phases` is the port
/// `target.start + i`. The first `scheduled` ports have been scheduled, the
/// first `granted` of them have been given a permit.
pub struct ScanView {
    pub target: ScanTarget,
    pub limiter: LimiterView,
    pub phases: Seq<PortPhase>,
    pub scheduled: nat,
    pub granted: nat,
    pub collected: nat,
}

/// Holds of a port that holds a permit.
pub open spec fn probing() -> spec_fn(PortPhase) -> bool {
    |p: PortPhase| p is Probing
}

/// Holds of a port whose outcome has been collected.
pub open spec fn done() -> spec_fn(PortPhase) -> bool {
    |p: PortPhase| p is Done
}

/// How many ports hold a permit.
pub open spec fn num_probing(s: Seq<PortPhase>) -> nat {
    count_where(s, probing())
}

/// How many outcomes have been collected.
pub open spec fn num_done(s: Seq<PortPhase>) -> nat {
    count_where(s, done())
}

/// The ports found open, in ascending order, where `s[i]` is the phase of
/// port `start + i`.
pub open spec fn open_ports_in(start: u16, s: Seq<PortPhase>) -> Seq<u16>
    decreases s.len(),
{
    if s.len() == 0 {
        Seq::empty()
    } else {
        let prev = open_ports_in(start, s.drop_last());
        if s.last() == PortPhase::Done(Verdict::Open) {
            prev.push((start + s.len() - 1) as u16)
        } else {
            prev
        }
    }
}

impl ScanView {
    pub open spec fn total(&self) -> nat {
        self.phases.len()
    }

    pub open spec fn wf(&self) -> bool {
        &&& self.target.wf()
        &&& self.phases.len() == self.target.total()
        &&& self.granted <= self.scheduled <= self.phases.len()
        &&& forall|i: int|
            0 <= i < self.granted ==> (#[trigger] self.phases[i] is Probing || self.phases[i] is Done)
        &&& forall|i: int| self.granted <= i < self.scheduled ==> #[trigger] self.phases[i] is Queued
        &&& forall|i: int|
            self.scheduled <= i < self.phases.len() ==> #[trigger] self.phases[i] is Unscheduled
        &&& self.limiter.wf()
        &&& self.limiter.capacity == self.target.concurrency_limit
        &&& self.limiter.waiting == self.scheduled - self.granted
        &&& self.limiter.outstanding == num_probing(self.phases)
        &&& self.collected == num_done(self.phases)
    }

    /// Every port's outcome has been collected.
    pub open spec fn is_complete(&self) -> bool {
        self.collected == self.total()
    }

    /// The ports whose probe found them open, ascending.
    pub open spec fn open_ports(&self) -> Seq<u16> {
        open_ports_in(self.target.start, self.phases)
    }

    /// Whether `port` lies in the scanned range.
    pub open spec fn in_range(&self, port: u16) -> bool {
        self.target.start <= port <= self.target.end
    }

    /// The phase of a port of the range.
    pub open spec fn phase_of(&self, port: u16) -> PortPhase {
        self.phases[port - self.target.start]
    }
}

impl View for Scan {
    type V = ScanView;

    closed spec fn view(&self) -> ScanView {
        ScanView {
            target: self.target,
            limiter: self.limiter@,
            phases: self.phases@,
            scheduled: self.scheduled as nat,
            granted: self.granted as nat,
            collected: self.collected as nat,
        }
    }
}

impl Scan {
    pub open spec fn wf(&self) -> bool {
        self@.wf()
    }

    /// A scan of `target` in which nothing has been scheduled yet.
    pub fn new(target: ScanTarget) -> (r: Scan)
        requires
            target.wf(),
        ensures
            r.wf(),
            r@.target == target,
            r@.scheduled == 0,
            r@.granted == 0,
            r@.collected == 0,
            r@.limiter == (LimiterView { capacity: target.concurrency_limit as nat, outstanding: 0, waiting: 0 }),
            forall|i: int| 0 <= i < r@.total() ==> #[trigger] r@.phases[i] == PortPhase::Unscheduled,
    {
        let total = target.port_count();
        let mut phases: Vec<PortPhase> = Vec::with_capacity(total);
        let mut i: usize = 0;
        while i < total
            invariant
                i <= total,
                phases@.len() == i,
                forall|k: int| 0 <= k < i ==> #[trigger] phases@[k] == PortPhase::Unscheduled,
            decreases total - i,
        {
            phases.push(PortPhase::Unscheduled);
            i = i + 1;
        }
        let limiter = Limiter::new(target.concurrency_limit as usize);
        let r = Scan { target, limiter, phases, scheduled: 0, granted: 0, collected: 0 };
        proof {
            lemma_count_bounds(r@.phases, probing());
            lemma_count_bounds(r@.phases, done());
        }
        r
    }

    /// Schedules the next port of the range, in ascending order, by asking
    /// the limiter for a permit. Returns `None` once every port has been
    /// scheduled. The caller advances its progress signal once per port
    /// returned.
    pub fn schedule_next(&mut self) -> (r: Option<Scheduled>)
        requires
            old(self).wf(),
        ensures
            final(self).wf(),
            final(self)@.target == old(self)@.target,
            final(self)@.collected == old(self)@.collected,
            final(self)@.limiter.capacity == old(self)@.limiter.capacity,
            old(self)@.scheduled == old(self)@.total() ==> r is None && final(self)@ == old(self)@,
            old(self)@.scheduled < old(self)@.total() ==> ({
                let i = old(self)@.scheduled as int;
                let port = old(self)@.target.port_at(i);
                &&& final(self)@.scheduled == old(self)@.scheduled + 1
                &&& if old(self)@.limiter.outstanding < old(self)@.limiter.capacity {
                    &&& r == Some(Scheduled::Launch(port))
                    &&& final(self)@.phases == old(self)@.phases.update(i, PortPhase::Probing)
                    &&& final(self)@.granted == old(self)@.granted + 1
                    &&& final(self)@.limiter.outstanding == old(self)@.limiter.outstanding + 1
                    &&& final(self)@.limiter.waiting == old(self)@.limiter.waiting
                } else {
                    &&& r == Some(Scheduled::Wait(port))
                    &&& final(self)@.phases == old(self)@.phases.update(i, PortPhase::Queued)
                    &&& final(self)@.granted == old(self)@.granted
                    &&& final(self)@.limiter.outstanding == old(self)@.limiter.outstanding
                    &&& final(self)@.limiter.waiting == old(self)@.limiter.waiting + 1
                }
            }),
    {
        if self.scheduled >= self.phases.len() {
            return None;
        }
        let i = self.scheduled;
        let port = (self.target.start as usize + i) as u16;
        let ghost old_phases = self.phases@;
        proof {
            lemma_count_update(old_phases, i as int, PortPhase::Probing, probing());
            lemma_count_update(old_phases, i as int, PortPhase::Probing, done());
            lemma_count_update(old_phases, i as int, PortPhase::Queued, probing());
            lemma_count_update(old_phases, i as int, PortPhase::Queued, done());
        }
        let granted = self.limiter.acquire();
        self.scheduled = i + 1;
        if granted {
            self.phases.set(i, PortPhase::Probing);
            self.granted = self.granted + 1;
            Some(Scheduled::Launch(port))
        } else {
            self.phases.set(i, PortPhase::Queued);
            Some(Scheduled::Wait(port))
        }
    }

    /// Collects the outcome of a probe. The outcome is accepted only for a
    /// port that holds a permit; its permit is then released, and when a
    /// port waits for one the permit passes to the earliest scheduled of
    /// them, which is returned so that the caller launches its probe.
    pub fn record(&mut self, outcome: &ProbeOutcome) -> (r: Result<Option<u16>, RecordError>)
        requires
            old(self).wf(),
        ensures
            final(self).wf(),
            final(self)@.target == old(self)@.target,
            final(self)@.scheduled == old(self)@.scheduled,
            final(self)@.limiter.capacity == old(self)@.limiter.capacity,
            ({
                let port = outcome.port_spec();
                let i = port - old(self)@.target.start;
                if !old(self)@.in_range(port) {
                    r == Err::<Option<u16>, RecordError>(RecordError::OutsideRange(port))
                        && final(self)@ == old(self)@
                } else if old(self)@.phase_of(port) !is Probing {
                    r == Err::<Option<u16>, RecordError>(RecordError::NotProbing(port))
                        && final(self)@ == old(self)@
                } else {
                    let done = old(self)@.phases.update(i, PortPhase::Done(outcome.verdict_spec()));
                    &&& final(self)@.collected == old(self)@.collected + 1
                    &&& if old(self)@.limiter.waiting > 0 {
                        let g = old(self)@.granted as int;
                        &&& r == Ok::<Option<u16>, RecordError>(Some(old(self)@.target.port_at(g)))
                        &&& final(self)@.phases == done.update(g, PortPhase::Probing)
                        &&& final(self)@.granted == old(self)@.granted + 1
                        &&& final(self)@.limiter.outstanding == old(self)@.limiter.outstanding
                        &&& final(self)@.limiter.waiting == old(self)@.limiter.waiting - 1
                    } else {
                        &&& r == Ok::<Option<u16>, RecordError>(None)
                        &&& final(self)@.phases == done
                        &&& final(self)@.granted == old(self)@.granted
                        &&& final(self)@.limiter.outstanding == old(self)@.limiter.outstanding - 1
                        &&& final(self)@.limiter.waiting == 0
                    }
                }
            }),
    {
        let port = outcome.port();
        if port < self.target.start || port > self.target.end {
            return Err(RecordError::OutsideRange(port));
        }
        let i = (port - self.target.start) as usize;
        if self.phases[i] != PortPhase::Probing {
            return Err(RecordError::NotProbing(port));
        }
        let verdict = outcome.verdict();
        let ghost p0 = self.phases@;
        let ghost p1 = p0.update(i as int, PortPhase::Done(verdict));
        proof {
            lemma_count_update(p0, i as int, PortPhase::Done(verdict), probing());
            lemma_count_update(p0, i as int, PortPhase::Done(verdict), done());
            lemma_count_bounds(p1, done());
        }
        self.phases.set(i, PortPhase::Done(verdict));
        self.collected = self.collected + 1;
        let handed_over = self.limiter.release();
        if handed_over {
            let g = self.granted;
            proof {
                lemma_count_update(p1, g as int, PortPhase::Probing, probing());
                lemma_count_update(p1, g as int, PortPhase::Probing, done());
            }
            self.phases.set(g, PortPhase::Probing);
            self.granted = g + 1;
            Ok(Some((self.target.start as usize + g) as u16))
        } else {
            Ok(None)
        }
    }

    /// Whether every port's outcome has been collected.
    pub fn is_complete(&self) -> (r: bool)
        requires
            self.wf(),
        ensures
            r == self@.is_complete(),
    {
        self.collected == self.phases.len()
    }

    /// The ports found open so far, in ascending order, each once.
    pub fn open_ports(&self) -> (r: Vec<u16>)
        requires
            self.wf(),
        ensures
            r@ == self@.open_ports(),
    {
        let mut r: Vec<u16> = Vec::new();
        let n = self.phases.len();
        let mut i: usize = 0;
        while i < n
            invariant
                self.wf(),
                n == self@.phases.len(),
                i <= n,
                r@ == open_ports_in(self@.target.start, self@.phases.take(i as int)),
            decreases n - i,
        {
            let ghost s = self@.phases.take(i as int + 1);
            assert(s.drop_last() =~= self@.phases.take(i as int));
            if self.phases[i] == PortPhase::Done(Verdict::Open) {
                r.push((self.target.start as usize + i) as u16);
            }
            i = i + 1;
        }
        assert(self@.phases.take(n as int) =~= self@.phases);
        r
    }

    /// Ends a complete scan: the open ports in ascending order, with the
    /// time the scan took.
    pub fn finish(self, elapsed_nanos: u64) -> (r: ScanReport)
        requires
            self.wf(),
            self@.is_complete(),
        ensures
            r.open_ports@ == self@.open_ports(),
            r.elapsed_nanos == elapsed_nanos,
    {
        let open_ports = self.open_ports();
        ScanReport { open_ports, elapsed_nanos }
    }

    /// The target being scanned.
    pub fn target(&self) -> (r: ScanTarget)
        ensures
            r == self@.target,
    {
        self.target
    }

    /// The number of ports scheduled so far: the progress signal.
    pub fn scheduled_count(&self) -> (r: usize)
        ensures
            r == self@.scheduled,
    {
        self.scheduled
    }

    /// The number of outcomes collected so far.
    pub fn collected_count(&self) -> (r: usize)
        ensures
            r == self@.collected,
    {
        self.collected
    }

    /// The number of probes holding a permit.
    pub fn in_flight(&self) -> (r: usize)
        requires
            self.wf(),
        ensures
            r == num_probing(self@.phases),
    {
        self.limiter.outstanding()
    }

    /// The scan's permit pool.
    pub fn limiter(&self) -> (r: Limiter)
        ensures
            r@ == self@.limiter,
    {
        self.limiter
    }
}

impl ScanReport {
    /// The number of open ports.
    pub fn total_open(&self) -> (r: usize)
        ensures
            r == self.open_ports@.len(),
    {
        self.open_ports.len()
    }
}

/// Each port found open lies in the range, its collected verdict is open,
/// and the ports come in strictly ascending order; every port of the range
/// with an open verdict is among them.
proof fn lemma_open_ports_in(start: u16, s: Seq<PortPhase>)
    requires
        start + s.len() <= 65536,
    ensures
        forall|k: int|
            0 <= k < open_ports_in(start, s).len() ==> start <= #[trigger] open_ports_in(start, s)[k]
                < start + s.len() && s[open_ports_in(start, s)[k] - start] == PortPhase::Done(
                Verdict::Open,
            ),
        forall|j: int, k: int|
            0 <= j < k < open_ports_in(start, s).len() ==> open_ports_in(start, s)[j]
                < open_ports_in(start, s)[k],
        forall|i: int|
            0 <= i < s.len() && #[trigger] s[i] == PortPhase::Done(Verdict::Open) ==> open_ports_in(
                start,
                s,
            ).contains((start + i) as u16),
    decreases s.len(),
{
    if s.len() > 0 {
        let d = s.drop_last();
        lemma_open_ports_in(start, d);
        let prev = open_ports_in(start, d);
        let cur = open_ports_in(start, s);
        assert(forall|i: int| 0 <= i < d.len() ==> d[i] == s[i]);
        assert forall|i: int|
            0 <= i < s.len() && #[trigger] s[i] == PortPhase::Done(Verdict::Open) implies cur.contains(
            (start + i) as u16,
        ) by {
            if i < d.len() {
                assert(d[i] == PortPhase::Done(Verdict::Open));
                let k = choose|k: int| 0 <= k < prev.len() && prev[k] == (start + i) as u16;
                assert(cur[k] == prev[k]);
            } else {
                assert(cur[cur.len() - 1] == (start + i) as u16);
            }
        }
    }
}

/// Once a scan is complete, every port of the range has been scheduled and
/// has had exactly one outcome collected, and no probe holds a permit.
pub proof fn lemma_complete_scan_collected_every_port(s: ScanView)
    requires
        s.wf(),
        s.is_complete(),
    ensures
        s.collected == s.target.end - s.target.start + 1,
        s.scheduled == s.total(),
        s.limiter.outstanding == 0,
        forall|i: int| 0 <= i < s.total() ==> #[trigger] s.phases[i] is Done,
{
    lemma_count_bounds(s.phases, done());
    lemma_count_bounds(s.phases, probing());
    assert(forall|i: int| 0 <= i < s.total() ==> done()(#[trigger] s.phases[i]));
    if s.scheduled < s.total() {
        assert(done()(s.phases[s.total() - 1]));
    }
    assert forall|i: int| 0 <= i < s.total() implies !probing()(#[trigger] s.phases[i]) by {
        assert(done()(s.phases[i]));
    }
}

/// A scan that is not complete always has something left to do: a port to
/// schedule, or a probe holding a permit whose outcome is awaited. So the
/// scan cannot stall short of collecting every outcome.
pub proof fn lemma_incomplete_scan_has_work(s: ScanView)
    requires
        s.wf(),
        !s.is_complete(),
    ensures
        s.scheduled < s.total() || s.limiter.outstanding > 0,
{
    if s.scheduled == s.total() && s.limiter.outstanding == 0 {
        lemma_count_bounds(s.phases, probing());
        lemma_count_bounds(s.phases, done());
        assert forall|i: int| 0 <= i < s.total() implies done()(#[trigger] s.phases[i]) by {
            assert(!probing()(s.phases[i]));
        }
    }
}

/// The open ports of a scan come in strictly ascending order, so none is
/// repeated, and a port is among them exactly when it lies in the range
/// and its probe found it open.
pub proof fn lemma_open_ports_ascending(s: ScanView)
    requires
        s.wf(),
    ensures
        forall|j: int, k: int|
            0 <= j < k < s.open_ports().len() ==> s.open_ports()[j] < s.open_ports()[k],
        forall|port: u16|
            s.open_ports().contains(port) <==> (s.in_range(port) && s.phase_of(port)
                == PortPhase::Done(Verdict::Open)),
{
    lemma_open_ports_in(s.target.start, s.phases);
    assert forall|port: u16|
        s.open_ports().contains(port) implies (s.in_range(port) && s.phase_of(port)
        == PortPhase::Done(Verdict::Open)) by {
        let k = choose|k: int| 0 <= k < s.open_ports().len() && s.open_ports()[k] == port;
        assert(s.open_ports()[k] == port);
    }
    assert forall|port: u16|
        s.in_range(port) && s.phase_of(port) == PortPhase::Done(Verdict::Open) implies s.open_ports().contains(
        port,
    ) by {
        let i = port - s.target.start;
        assert(s.phases[i] == PortPhase::Done(Verdict::Open));
    }
}

/// At every point of a scan, the probes holding a permit number no more
/// than the concurrency limit, and the limiter counts exactly them.
pub proof fn lemma_in_flight_within_limit(s: ScanView)
    requires
        s.wf(),
    ensures
        num_probing(s.phases) == s.limiter.outstanding,
        num_probing(s.phases) <= s.target.concurrency_limit,
{
}

/// A port whose connection was actively refused is never reported open.
pub proof fn lemma_refused_port_not_open(s: ScanView, port: u16)
    requires
        s.wf(),
        s.in_range(port),
        s.phase_of(port) == PortPhase::Done(verdict_of(ConnectResult::Refused)),
    ensures
        !s.open_ports().contains(port),
{
    lemma_open_ports_ascending(s);
}

/// A port whose probe timed out is never reported open.
pub proof fn lemma_timed_out_port_not_open(s: ScanView, port: u16)
    requires
        s.wf(),
        s.in_range(port),
        s.phase_of(port) == PortPhase::Done(verdict_of(ConnectResult::Elapsed)),
    ensures
        !s.open_ports().contains(port),
{
    lemma_open_ports_ascending(s);
}

/// Two complete scans of the same range whose ports gave the same verdicts
/// report the same open ports.
pub proof fn lemma_same_verdicts_same_report(a: ScanView, b: ScanView)
    requires
        a.wf(),
        b.wf(),
        a.is_complete(),
        b.is_complete(),
        a.target.start == b.target.start,
        a.target.end == b.target.end,
        forall|port: u16| a.in_range(port) ==> a.phase_of(port) == b.phase_of(port),
    ensures
        a.open_ports() == b.open_ports(),
{
    assert forall|i: int| 0 <= i < a.phases.len() implies a.phases[i] == b.phases[i] by {
        let port = (a.target.start + i) as u16;
        assert(a.in_range(port));
        assert(a.phase_of(port) == b.phase_of(port));
    }
    assert(a.phases =~= b.phases);
}

} // verus!
