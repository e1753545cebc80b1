//! The scan coordinator: one scan from the launch of its probes to its
//! report.
//!
//! The coordinator makes no connection and reads no clock. Whoever drives
//! it launches the probes it names, hands it each outcome as it arrives and
//! tells it the time. What it decides is what is verified here: which
//! probes exist, which outcomes count, when the barrier releases and what
//! the report holds.

use vstd::prelude::*;
use vstd::set_lib::{lemma_len_subset, lemma_subset_equality};
use crate::probe::PortOutcome;
use crate::request::{lemma_port_range_len, ScanRequest};

verus! {

/// Where a scan stands.
#[derive(Clone, Copy, Debug, PartialEq, Eq, Structural)]
pub enum Phase {
    /// Nothing has been launched yet.
    Idle,
    /// One probe for each port of the range is in flight.
    Running,
    /// The coordinator waits at the barrier for the probes still in flight.
    Draining,
    /// Every probe has resolved and the report is made. Nothing follows.
    Reported,
}

/// Why the coordinator turned a step down. A step turned down changes
/// nothing.
#[derive(Clone, Copy, Debug, PartialEq, Eq, Structural)]
pub enum ScanError {
    /// The scan is in a phase that has no such step.
    WrongPhase,
    /// The outcome speaks of a port that the scan did not probe.
    OutOfRange,
    /// The outcome speaks of a port whose outcome was taken before.
    AlreadyResolved,
    /// Probes are still in flight: the barrier does not release.
    Unresolved,
}

/// What a scan found: the open ports, each once, in the order in which
/// they were found, and the time from launch to the release of the barrier.
#[derive(Debug, PartialEq, Eq)]
pub struct ScanReport {
    pub open_ports: Vec<u16>,
    pub elapsed_nanos: u64,
}

/// The state of a scan as contracts see it.
pub ghost struct ScanView {
    /// What the scan was asked to do.
    pub request: ScanRequest,
    /// Where the scan stands.
    pub phase: Phase,
    /// The reading of the clock at launch, in nanoseconds.
    pub started_at: u64,
    /// The ports whose outcome has been taken.
    pub resolved: Set<u16>,
    /// The ports found open, in the order in which their outcomes came.
    pub open: Seq<u16>,
}

impl ScanView {
    /// The scan for `request` before anything is launched.
    pub open spec fn idle(request: ScanRequest) -> ScanView {
        ScanView {
            request,
            phase: Phase::Idle,
            started_at: 0,
            resolved: Set::empty(),
            open: Seq::empty(),
        }
    }

    /// What holds of every scan, in every phase.
    pub open spec fn inv(self) -> bool {
        &&& self.request.wf()
        &&& forall|port: u16| self.resolved.contains(port) ==> self.request.covers(port)
        &&& self.open.no_duplicates()
        &&& forall|i: int| 0 <= i < self.open.len() ==> self.resolved.contains(#[trigger] self.open[i])
        &&& self.phase is Idle ==> self.resolved =~= Set::empty()
        &&& self.phase is Reported ==> self.complete()
    }

    /// Whether probes have been launched and the report is not yet made.
    pub open spec fn in_flight(self) -> bool {
        self.phase is Running || self.phase is Draining
    }

    /// Whether the scan waits for the outcome of `port`.
    pub open spec fn awaits(self, port: u16) -> bool {
        self.in_flight() && self.request.covers(port) && !self.resolved.contains(port)
    }

    /// Whether every probe has resolved: the condition of the barrier.
    pub open spec fn complete(self) -> bool {
        forall|port: u16| self.request.covers(port) ==> self.resolved.contains(port)
    }

    /// The number of probes whose outcome has not been taken.
    pub open spec fn pending(self) -> int {
        self.request.spec_probe_count() - self.resolved.len()
    }

    /// The scan after the launch at the clock reading `now`.
    pub open spec fn launch(self, now: u64) -> ScanView {
        if self.phase is Idle {
            ScanView { phase: Phase::Running, started_at: now, ..self }
        } else {
            self
        }
    }

    /// The scan after `outcome` was handed in. An outcome that the scan
    /// does not wait for changes nothing.
    pub open spec fn record(self, outcome: PortOutcome) -> ScanView {
        if self.awaits(outcome.spec_port()) {
            ScanView {
                resolved: self.resolved.insert(outcome.spec_port()),
                open: match outcome {
                    PortOutcome::Open(port) => self.open.push(port),
                    PortOutcome::NotOpen(_) => self.open,
                },
                ..self
            }
        } else {
            self
        }
    }

    /// The answer to `outcome`: the port to report as open, if there is
    /// one, or why the outcome does not count.
    pub open spec fn answer(self, outcome: PortOutcome) -> Result<Option<u16>, ScanError> {
        if !self.in_flight() {
            Err(ScanError::WrongPhase)
        } else if !self.request.covers(outcome.spec_port()) {
            Err(ScanError::OutOfRange)
        } else if self.resolved.contains(outcome.spec_port()) {
            Err(ScanError::AlreadyResolved)
        } else {
            Ok(outcome.spec_open_port())
        }
    }

    /// The scan after the outcomes were handed in, one after the other.
    pub open spec fn replay(self, outcomes: Seq<PortOutcome>) -> ScanView
        decreases outcomes.len(),
    {
        if outcomes.len() == 0 {
            self
        } else {
            self.replay(outcomes.drop_last()).record(outcomes.last())
        }
    }

    /// The scan once the coordinator has gone to wait at the barrier.
    pub open spec fn drain(self) -> ScanView {
        if self.phase is Running {
            ScanView { phase: Phase::Draining, ..self }
        } else {
            self
        }
    }

    /// Whether the barrier releases: the coordinator waits at it and no
    /// probe is left in flight.
    pub open spec fn releases(self) -> bool {
        self.phase is Draining && self.complete()
    }

    /// The scan after its report was made.
    pub open spec fn finish(self) -> ScanView {
        if self.releases() {
            ScanView { phase: Phase::Reported, ..self }
        } else {
            self
        }
    }

    /// The time from launch to the clock reading `now`; zero where the
    /// clock reads less than it did at launch.
    pub open spec fn elapsed(self, now: u64) -> u64 {
        if now >= self.started_at {
            (now - self.started_at) as u64
        } else {
            0
        }
    }
}

/// The coordinator of one scan.
pub struct Scan {
    request: ScanRequest,
    phase: Phase,
    started_at: u64,
    /// One flag for each port of the range, in ascending order of the
    /// ports: whether the port's outcome has been taken.
    resolved: Vec<bool>,
    /// The number of flags not yet set.
    pending: u32,
    open_ports: Vec<u16>,
}

impl View for Scan {
    type V = ScanView;

    closed spec fn view(&self) -> ScanView {
        ScanView {
            request: self.request,
            phase: self.phase,
            started_at: self.started_at,
            resolved: Set::new(
                |port: u16|
                    self.request.covers(port) && self.resolved@[port
                        - self.request.spec_port_start()],
            ),
            open: self.open_ports@,
        }
    }
}

impl Scan {
    /// Whether the flags and the counter fit the range and each other.
    pub closed spec fn consistent(&self) -> bool {
        &&& self.resolved@.len() == self.request.spec_probe_count()
        &&& self.pending == self@.pending()
    }

    /// The invariant of the coordinator. Every step keeps it.
    pub open spec fn wf(&self) -> bool {
        self.consistent() && self@.inv()
    }

    /// A scan for `request`, with nothing launched.
    pub fn new(request: ScanRequest) -> (scan: Scan)
        ensures
            scan.wf(),
            scan@ == ScanView::idle(request),
    {
        let count = request.probe_count();
        let mut resolved: Vec<bool> = Vec::new();
        let mut made: u32 = 0;
        while made < count
            invariant
                made <= count,
                resolved@.len() == made,
                forall|i: int| 0 <= i < resolved@.len() ==> !resolved@[i],
            decreases count - made,
        {
            resolved.push(false);
            made += 1;
        }
        let scan = Scan {
            request,
            phase: Phase::Idle,
            started_at: 0,
            resolved,
            pending: count,
            open_ports: Vec::new(),
        };
        assert(scan@.resolved =~= Set::empty());
        scan
    }

    /// What the scan was asked to do.
    pub fn request(&self) -> (request: ScanRequest)
        ensures
            request == self@.request,
    {
        self.request
    }

    /// Where the scan stands.
    pub fn phase(&self) -> (phase: Phase)
        ensures
            phase == self@.phase,
    {
        self.phase
    }

    /// The ports found open so far, in the order in which they were found.
    pub fn open_ports(&self) -> (ports: &Vec<u16>)
        ensures
            ports@ == self@.open,
    {
        &self.open_ports
    }

    /// The number of probes whose outcome has not been taken.
    pub fn pending(&self) -> (pending: u32)
        requires
            self.wf(),
        ensures
            pending == self@.pending(),
    {
        self.pending
    }

    /// Whether every probe of the scan has resolved.
    pub fn is_complete(&self) -> (complete: bool)
        requires
            self.wf(),
        ensures
            complete == self@.complete(),
            complete == (self@.pending() == 0),
    {
        proof {
            self@.lemma_complete_iff_none_pending();
        }
        self.pending == 0
    }

    /// Launches the scan: `Idle` to `Running`.
    ///
    /// The answer names every probe to launch, one for each port of the
    /// range and all of them at once, and `now_nanos`, a reading of a
    /// steady clock, is kept as the start of the scan. In any other phase
    /// the step is turned down.
    pub fn launch(&mut self, now_nanos: u64) -> (result: Result<Vec<u16>, ScanError>)
        requires
            old(self).wf(),
        ensures
            final(self).wf(),
            final(self)@ == old(self)@.launch(now_nanos),
            old(self)@.phase is Idle ==> (result matches Ok(ports) && ports@ == old(
                self,
            )@.request.spec_ports()),
            !(old(self)@.phase is Idle) ==> result == Err::<Vec<u16>, ScanError>(
                ScanError::WrongPhase,
            ),
    {
        match self.phase {
            Phase::Idle => {
                let ports = self.request.ports();
                self.phase = Phase::Running;
                self.started_at = now_nanos;
                Ok(ports)
            },
            _ => Err(ScanError::WrongPhase),
        }
    }

    /// Takes the outcome of one probe.
    ///
    /// While probes are in flight, the first outcome for each port of the
    /// range counts: the port is resolved, and where it was found open it
    /// joins the open ports and is handed back, to be reported at once.
    /// Any other outcome is turned down and changes nothing.
    pub fn record(&mut self, outcome: PortOutcome) -> (result: Result<Option<u16>, ScanError>)
        requires
            old(self).wf(),
        ensures
            final(self).wf(),
            final(self)@ == old(self)@.record(outcome),
            result == old(self)@.answer(outcome),
    {
        match self.phase {
            Phase::Idle => {
                return Err(ScanError::WrongPhase);
            },
            Phase::Reported => {
                return Err(ScanError::WrongPhase);
            },
            _ => {},
        }
        let port = outcome.port();
        if !self.request.contains(port) {
            return Err(ScanError::OutOfRange);
        }
        let index = (port - self.request.port_start()) as usize;
        if self.resolved[index] {
            return Err(ScanError::AlreadyResolved);
        }
        proof {
            let ports = self.request.port_set();
            lemma_port_range_len(self.request.spec_port_start(), self.request.spec_port_end());
            lemma_len_subset(self@.resolved, ports);
            lemma_len_subset(self@.resolved.insert(port), ports);
        }
        self.resolved.set(index, true);
        self.pending = self.pending - 1;
        let found = outcome.open_port();
        if let Some(open) = found {
            self.open_ports.push(open);
        }
        proof {
            assert(final(self)@.resolved =~= old(self)@.resolved.insert(port));
        }
        Ok(found)
    }

    /// Sends the coordinator to the barrier: `Running` to `Draining`.
    ///
    /// In any other phase the step is turned down.
    pub fn drain(&mut self) -> (result: Result<(), ScanError>)
        requires
            old(self).wf(),
        ensures
            final(self).wf(),
            final(self)@ == old(self)@.drain(),
            old(self)@.phase is Running ==> result is Ok,
            !(old(self)@.phase is Running) ==> result == Err::<(), ScanError>(
                ScanError::WrongPhase,
            ),
    {
        match self.phase {
            Phase::Running => {
                self.phase = Phase::Draining;
                Ok(())
            },
            _ => Err(ScanError::WrongPhase),
        }
    }

    /// Releases the barrier and makes the report: `Draining` to `Reported`.
    ///
    /// The barrier releases only when the coordinator waits at it and every
    /// probe has resolved. The report then holds the open ports in the
    /// order in which they were found, and the time between the launch and
    /// `now_nanos`, a reading of the same clock. Before that the step is
    /// turned down: with `Unresolved` while the coordinator waits for
    /// probes, with `WrongPhase` in any other phase.
    pub fn finish(&mut self, now_nanos: u64) -> (result: Result<ScanReport, ScanError>)
        requires
            old(self).wf(),
        ensures
            final(self).wf(),
            final(self)@ == old(self)@.finish(),
            old(self)@.releases() ==> {
                &&& result matches Ok(report)
                &&& report.open_ports@ == old(self)@.open
                &&& report.open_ports@.no_duplicates()
                &&& report.elapsed_nanos == old(self)@.elapsed(now_nanos)
            },
            old(self)@.phase is Draining && !old(self)@.complete() ==> result == Err::<
                ScanReport,
                ScanError,
            >(ScanError::Unresolved),
            !(old(self)@.phase is Draining) ==> result == Err::<ScanReport, ScanError>(
                ScanError::WrongPhase,
            ),
    {
        match self.phase {
            Phase::Draining => {},
            _ => {
                return Err(ScanError::WrongPhase);
            },
        }
        if !self.is_complete() {
            return Err(ScanError::Unresolved);
        }
        let elapsed_nanos = if now_nanos >= self.started_at {
            now_nanos - self.started_at
        } else {
            0
        };
        let open_ports = self.open_ports.clone();
        self.phase = Phase::Reported;
        Ok(ScanReport { open_ports, elapsed_nanos })
    }
}

impl ScanView {
    /// The barrier's condition is that no probe is pending.
    pub proof fn lemma_complete_iff_none_pending(self)
        requires
            self.inv(),
        ensures
            self.resolved.finite(),
            0 <= self.pending() <= self.request.spec_probe_count(),
            self.complete() <==> self.pending() == 0,
    {
        let ports = self.request.port_set();
        lemma_port_range_len(self.request.spec_port_start(), self.request.spec_port_end());
        lemma_len_subset(self.resolved, ports);
        if self.pending() == 0 {
            lemma_subset_equality(self.resolved, ports);
        }
        if self.complete() {
            assert(self.resolved =~= ports);
        }
    }
}

} // verus!
