//! What a scan is asked to do: a target and an inclusive range of ports.

use vstd::prelude::*;
use crate::address::IpAddress;
use crate::port::{MIN_PORT, MAX_PORT};

verus! {

/// Why a triple of target, first and last port is no scan request.
#[derive(Clone, Copy, Debug, PartialEq, Eq, Structural)]
pub enum RequestError {
    /// The first port is below [`MIN_PORT`].
    InvalidPort,
    /// The first port lies above the last one.
    ReversedRange,
}

/// A validated scan request. It never changes once made.
#[derive(Clone, Copy, Debug, PartialEq, Eq)]
pub struct ScanRequest {
    target: IpAddress,
    port_start: u16,
    port_end: u16,
}

/// The set of the ports from `first` to `last`, both included.
pub open spec fn port_range(first: u16, last: u16) -> Set<u16> {
    Set::new(|port: u16| first <= port <= last)
}

/// A range of ports is finite and holds one port for each number in it.
pub proof fn lemma_port_range_len(first: u16, last: u16)
    requires
        first <= last,
    ensures
        port_range(first, last).finite(),
        port_range(first, last).len() == last - first + 1,
    decreases last - first,
{
    if first == last {
        assert(port_range(first, last) =~= Set::<u16>::empty().insert(last));
    } else {
        let shorter = (last - 1) as u16;
        lemma_port_range_len(first, shorter);
        assert(port_range(first, last) =~= port_range(first, shorter).insert(last));
    }
}

impl ScanRequest {
    /// The target of the scan.
    pub closed spec fn spec_target(&self) -> IpAddress {
        self.target
    }

    /// The first port of the range.
    pub closed spec fn spec_port_start(&self) -> u16 {
        self.port_start
    }

    /// The last port of the range.
    pub closed spec fn spec_port_end(&self) -> u16 {
        self.port_end
    }

    /// The invariant of a request: `1 <= port_start <= port_end <= 65535`.
    /// Every request that a program holds meets it.
    pub open spec fn wf(&self) -> bool {
        MIN_PORT <= self.spec_port_start() <= self.spec_port_end() <= MAX_PORT
    }

    #[verifier::type_invariant]
    spec fn valid(self) -> bool {
        self.wf()
    }

    /// Whether `port` is one of the ports to scan.
    pub open spec fn covers(&self, port: u16) -> bool {
        self.spec_port_start() <= port <= self.spec_port_end()
    }

    /// The number of ports to scan, which is the number of probes.
    pub open spec fn spec_probe_count(&self) -> int {
        self.spec_port_end() - self.spec_port_start() + 1
    }

    /// The ports to scan as a set.
    pub open spec fn port_set(&self) -> Set<u16> {
        port_range(self.spec_port_start(), self.spec_port_end())
    }

    /// The ports to scan in the order in which their probes are launched:
    /// ascending, each port once.
    pub open spec fn spec_ports(&self) -> Seq<u16> {
        Seq::new(self.spec_probe_count() as nat, |i: int| (self.spec_port_start() + i) as u16)
    }

    /// Makes a request for the ports `port_start..=port_end` of `target`.
    ///
    /// A first port of zero is refused, and so is a first port above the
    /// last one: no probe is ever launched for either.
    pub fn new(target: IpAddress, port_start: u16, port_end: u16) -> (result: Result<
        ScanRequest,
        RequestError,
    >)
        ensures
            port_start < MIN_PORT ==> result == Err::<ScanRequest, RequestError>(
                RequestError::InvalidPort,
            ),
            MIN_PORT <= port_start && port_start > port_end ==> result == Err::<
                ScanRequest,
                RequestError,
            >(RequestError::ReversedRange),
            MIN_PORT <= port_start <= port_end ==> {
                &&& result matches Ok(request)
                &&& request.wf()
                &&& request.spec_target() == target
                &&& request.spec_port_start() == port_start
                &&& request.spec_port_end() == port_end
            },
    {
        if port_start < MIN_PORT {
            Err(RequestError::InvalidPort)
        } else if port_start > port_end {
            Err(RequestError::ReversedRange)
        } else {
            Ok(ScanRequest { target, port_start, port_end })
        }
    }

    /// The target of the scan.
    #[verifier::when_used_as_spec(spec_target)]
    pub fn target(&self) -> (target: IpAddress)
        ensures
            target == self.spec_target(),
    {
        self.target
    }

    /// The first port of the range.
    #[verifier::when_used_as_spec(spec_port_start)]
    pub fn port_start(&self) -> (port: u16)
        ensures
            port == self.spec_port_start(),
    {
        self.port_start
    }

    /// The last port of the range.
    #[verifier::when_used_as_spec(spec_port_end)]
    pub fn port_end(&self) -> (port: u16)
        ensures
            port == self.spec_port_end(),
    {
        self.port_end
    }

    /// Whether `port` is one of the ports to scan.
    pub fn contains(&self, port: u16) -> (inside: bool)
        ensures
            inside == self.covers(port),
    {
        self.port_start <= port && port <= self.port_end
    }

    /// The number of probes that the scan launches: one for each port.
    pub fn probe_count(&self) -> (count: u32)
        ensures
            self.wf(),
            count == self.spec_probe_count(),
            1 <= count <= 65535,
    {
        proof {
            use_type_invariant(self);
        }
        (self.port_end - self.port_start) as u32 + 1
    }

    /// The ports to probe, in launch order: every port of the range once,
    /// ascending. Nothing is held back: the whole range is fanned out at
    /// once.
    pub fn ports(&self) -> (ports: Vec<u16>)
        ensures
            self.wf(),
            ports@ == self.spec_ports(),
    {
        proof {
            use_type_invariant(self);
        }
        let mut ports: Vec<u16> = Vec::new();
        let mut port: u16 = self.port_start;
        while port < self.port_end
            invariant
                self.wf(),
                self.port_start <= port <= self.port_end,
                ports@.len() == port - self.port_start,
                forall|i: int| 0 <= i < ports@.len() ==> ports@[i] == self.port_start + i,
            decreases self.port_end - port,
        {
            ports.push(port);
            port += 1;
        }
        ports.push(port);
        ports
    }
}

} // verus!
