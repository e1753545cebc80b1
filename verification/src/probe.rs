//! One probe: what a connection attempt came to, and what that says of the
//! port.

use vstd::prelude::*;

verus! {

/// The time that one connection attempt is given, in seconds.
pub const PROBE_TIMEOUT_SECS: u64 = 5;

/// How one connection attempt, raced against its time budget, ended.
#[derive(Clone, Copy, Debug, PartialEq, Eq, Structural)]
pub enum ConnectAttempt {
    /// The connection was established within the budget.
    Connected,
    /// The attempt ended within the budget without a connection: refused,
    /// unreachable, reset or any other failure of the network.
    Failed,
    /// The budget ran out before the attempt ended either way.
    TimedOut,
}

/// The result of one probe. Each port of a scan gets exactly one.
#[derive(Clone, Copy, Debug, PartialEq, Eq, Structural)]
pub enum PortOutcome {
    /// A connection to the port was established in time.
    Open(u16),
    /// No connection to the port was established in time.
    NotOpen(u16),
}

impl PortOutcome {
    /// The port that the outcome speaks of.
    pub open spec fn spec_port(&self) -> u16 {
        match *self {
            PortOutcome::Open(port) => port,
            PortOutcome::NotOpen(port) => port,
        }
    }

    /// What the outcome adds to the open ports: its port if that is open,
    /// nothing otherwise.
    pub open spec fn spec_open_port(&self) -> Option<u16> {
        match *self {
            PortOutcome::Open(port) => Some(port),
            PortOutcome::NotOpen(_) => None,
        }
    }

    /// The port that the outcome speaks of.
    #[verifier::when_used_as_spec(spec_port)]
    pub fn port(&self) -> (port: u16)
        ensures
            port == self.spec_port(),
    {
        match *self {
            PortOutcome::Open(port) => port,
            PortOutcome::NotOpen(port) => port,
        }
    }

    /// Whether the port was found open.
    pub fn is_open(&self) -> (open: bool)
        ensures
            open == (*self is Open),
    {
        match *self {
            PortOutcome::Open(_) => true,
            PortOutcome::NotOpen(_) => false,
        }
    }

    /// The port to report as open, if the outcome has one.
    #[verifier::when_used_as_spec(spec_open_port)]
    pub fn open_port(&self) -> (port: Option<u16>)
        ensures
            port == self.spec_open_port(),
    {
        match *self {
            PortOutcome::Open(port) => Some(port),
            PortOutcome::NotOpen(_) => None,
        }
    }
}

/// The outcome for `port` after `attempt`.
pub open spec fn spec_classify(port: u16, attempt: ConnectAttempt) -> PortOutcome {
    match attempt {
        ConnectAttempt::Connected => PortOutcome::Open(port),
        ConnectAttempt::Failed => PortOutcome::NotOpen(port),
        ConnectAttempt::TimedOut => PortOutcome::NotOpen(port),
    }
}

/// Classifies the port of one probe.
///
/// The port is open exactly when the connection was established within the
/// budget. A failed attempt and one that ran out of time both leave it not
/// open, and nothing tells the two apart afterwards; neither is an error of
/// the scan.
#[verifier::when_used_as_spec(spec_classify)]
pub fn classify(port: u16, attempt: ConnectAttempt) -> (outcome: PortOutcome)
    ensures
        outcome == spec_classify(port, attempt),
        outcome.spec_port() == port,
        outcome is Open <==> attempt is Connected,
{
    match attempt {
        ConnectAttempt::Connected => PortOutcome::Open(port),
        ConnectAttempt::Failed => PortOutcome::NotOpen(port),
        ConnectAttempt::TimedOut => PortOutcome::NotOpen(port),
    }
}

} // verus!
