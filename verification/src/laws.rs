//! What holds of every scan, whatever the order in which its probes
//! resolve.
//!
//! A scan is followed here through the outcomes that are handed to its
//! coordinator, one after the other. The laws speak of the state that
//! `Scan::record` leaves behind, and so of the report that `Scan::finish`
//! makes from it.

use vstd::prelude::*;
use crate::probe::PortOutcome;
use crate::request::ScanRequest;
use crate::scan::{Phase, ScanView};

verus! {

/// Whether every outcome speaks of a port of the request.
pub open spec fn within(request: ScanRequest, outcomes: Seq<PortOutcome>) -> bool {
    forall|i: int| 0 <= i < outcomes.len() ==> request.covers((#[trigger] outcomes[i]).spec_port())
}

/// Whether no two outcomes speak of the same port.
pub open spec fn distinct_ports(outcomes: Seq<PortOutcome>) -> bool {
    forall|i: int, j: int|
        0 <= i < j < outcomes.len() ==> (#[trigger] outcomes[i]).spec_port() != (
        #[trigger] outcomes[j]).spec_port()
}

/// Whether `outcomes` is what the probes of one scan for `request` hand
/// in: one outcome for each port of the range, in any order.
pub open spec fn delivers(request: ScanRequest, outcomes: Seq<PortOutcome>) -> bool {
    &&& outcomes.len() == request.spec_probe_count()
    &&& within(request, outcomes)
    &&& distinct_ports(outcomes)
}

/// Whether the outcomes are those of a target that accepts connections on
/// the ports in `listening` and on no other.
pub open spec fn observes(outcomes: Seq<PortOutcome>, listening: Set<u16>) -> bool {
    forall|i: int|
        0 <= i < outcomes.len() ==> ((#[trigger] outcomes[i]) is Open <==> listening.contains(
            outcomes[i].spec_port(),
        ))
}

/// The ports that the outcomes speak of.
pub open spec fn ports_of(outcomes: Seq<PortOutcome>) -> Set<u16> {
    Set::new(
        |port: u16|
            exists|i: int| 0 <= i < outcomes.len() && (#[trigger] outcomes[i]).spec_port() == port,
    )
}

/// The ports that the outcomes found open, in the order of the outcomes.
pub open spec fn found_open(outcomes: Seq<PortOutcome>) -> Seq<u16>
    decreases outcomes.len(),
{
    if outcomes.len() == 0 {
        Seq::empty()
    } else {
        match outcomes.last() {
            PortOutcome::Open(port) => found_open(outcomes.drop_last()).push(port),
            PortOutcome::NotOpen(_) => found_open(outcomes.drop_last()),
        }
    }
}

/// A scan for `request` right after its launch at the clock reading `now`.
pub open spec fn launched(request: ScanRequest, now: u64) -> ScanView {
    ScanView::idle(request).launch(now)
}

/// A port was found open exactly when one of the outcomes says so.
pub proof fn lemma_found_open_contains(outcomes: Seq<PortOutcome>, port: u16)
    ensures
        found_open(outcomes).contains(port) <==> exists|i: int|
            0 <= i < outcomes.len() && #[trigger] outcomes[i] == PortOutcome::Open(port),
    decreases outcomes.len(),
{
    if outcomes.len() > 0 {
        let rest = outcomes.drop_last();
        let found = found_open(outcomes);
        lemma_found_open_contains(rest, port);
        if found_open(rest).contains(port) {
            let i = choose|i: int|
                0 <= i < rest.len() && #[trigger] rest[i] == PortOutcome::Open(port);
            assert(outcomes[i] == PortOutcome::Open(port));
            let at = choose|at: int| 0 <= at < found_open(rest).len() && found_open(rest)[at] == port;
            assert(found[at] == port);
        } else if outcomes.last() == PortOutcome::Open(port) {
            assert(found[found.len() - 1] == port);
        } else if found.contains(port) {
            let at = choose|at: int| 0 <= at < found.len() && found[at] == port;
            assert(found_open(rest)[at] == port);
        } else if exists|i: int|
            0 <= i < outcomes.len() && #[trigger] outcomes[i] == PortOutcome::Open(port) {
            let i = choose|i: int|
                0 <= i < outcomes.len() && #[trigger] outcomes[i] == PortOutcome::Open(port);
            assert(rest[i] == PortOutcome::Open(port));
        }
    }
}

/// Taking an outcome keeps the invariant of the scan, and leaves request,
/// phase and start alone.
pub proof fn lemma_record_keeps_inv(scan: ScanView, outcome: PortOutcome)
    requires
        scan.inv(),
    ensures
        scan.record(outcome).inv(),
        scan.record(outcome).request == scan.request,
        scan.record(outcome).phase == scan.phase,
        scan.record(outcome).started_at == scan.started_at,
{
    let next = scan.record(outcome);
    assert forall|i: int, j: int|
        0 <= i < next.open.len() && 0 <= j < next.open.len() && i != j implies next.open[i]
        != next.open[j] by {
        // The port that joins the open ports was not resolved before, and
        // every port that was open before was.
        if i < scan.open.len() {
            assert(scan.resolved.contains(scan.open[i]));
        }
        if j < scan.open.len() {
            assert(scan.resolved.contains(scan.open[j]));
        }
    }
}

/// Outcomes handed in one after the other keep the invariant, leave
/// request, phase and start alone, and resolve none but the ports they
/// speak of.
pub proof fn lemma_replay_keeps_inv(scan: ScanView, outcomes: Seq<PortOutcome>)
    requires
        scan.inv(),
    ensures
        scan.replay(outcomes).inv(),
        scan.replay(outcomes).request == scan.request,
        scan.replay(outcomes).phase == scan.phase,
        scan.replay(outcomes).started_at == scan.started_at,
        forall|port: u16| #[trigger]
            scan.replay(outcomes).resolved.contains(port) ==> scan.resolved.contains(port)
                || ports_of(outcomes).contains(port),
    decreases outcomes.len(),
{
    if outcomes.len() > 0 {
        let rest = outcomes.drop_last();
        let before = scan.replay(rest);
        lemma_replay_keeps_inv(scan, rest);
        lemma_record_keeps_inv(before, outcomes.last());
        lemma_ports_of_push(outcomes);
    }
}

/// The ports of a sequence of outcomes are the ports of all but the last,
/// and the port of the last.
pub proof fn lemma_ports_of_push(outcomes: Seq<PortOutcome>)
    requires
        outcomes.len() > 0,
    ensures
        ports_of(outcomes) =~= ports_of(outcomes.drop_last()).insert(outcomes.last().spec_port()),
{
    let rest = outcomes.drop_last();
    let last = outcomes.last();
    assert forall|port: u16| ports_of(outcomes).contains(port) implies ports_of(rest).insert(
        last.spec_port(),
    ).contains(port) by {
        let i = choose|i: int|
            0 <= i < outcomes.len() && (#[trigger] outcomes[i]).spec_port() == port;
        if i < rest.len() {
            assert(rest[i].spec_port() == port);
        }
    }
    assert forall|port: u16| ports_of(rest).insert(last.spec_port()).contains(
        port,
    ) implies ports_of(outcomes).contains(port) by {
        if port == last.spec_port() {
            assert(outcomes[outcomes.len() - 1].spec_port() == port);
        } else {
            let i = choose|i: int| 0 <= i < rest.len() && (#[trigger] rest[i]).spec_port() == port;
            assert(outcomes[i].spec_port() == port);
        }
    }
}

/// The outcomes of distinct ports of the range, handed to a scan that has
/// probes in flight and nothing resolved, all count: the scan resolves
/// exactly their ports and finds open exactly the ports that they say are
/// open, in their order.
pub proof fn lemma_replay_counts_each(scan: ScanView, outcomes: Seq<PortOutcome>)
    requires
        scan.inv(),
        scan.in_flight(),
        scan.resolved =~= Set::empty(),
        scan.open =~= Seq::empty(),
        within(scan.request, outcomes),
        distinct_ports(outcomes),
    ensures
        scan.replay(outcomes).resolved =~= ports_of(outcomes),
        scan.replay(outcomes).resolved.finite(),
        scan.replay(outcomes).resolved.len() == outcomes.len(),
        scan.replay(outcomes).open == found_open(outcomes),
    decreases outcomes.len(),
{
    if outcomes.len() > 0 {
        let rest = outcomes.drop_last();
        let last = outcomes.last();
        let before = scan.replay(rest);
        assert(within(scan.request, rest) && distinct_ports(rest)) by {
            assert(forall|i: int| 0 <= i < rest.len() ==> rest[i] == outcomes[i]);
        }
        lemma_replay_counts_each(scan, rest);
        lemma_replay_keeps_inv(scan, rest);
        lemma_ports_of_push(outcomes);
        assert(before.awaits(last.spec_port())) by {
            if ports_of(rest).contains(last.spec_port()) {
                let i = choose|i: int|
                    0 <= i < rest.len() && (#[trigger] rest[i]).spec_port() == last.spec_port();
                assert(outcomes[i].spec_port() == outcomes[outcomes.len() - 1].spec_port());
            }
        }
    } else {
        assert(ports_of(outcomes) =~= Set::empty());
    }
}

/// A scan resolves no more ports than outcomes were handed to it.
pub proof fn lemma_replay_resolves_at_most(scan: ScanView, outcomes: Seq<PortOutcome>)
    requires
        scan.inv(),
    ensures
        scan.resolved.finite(),
        scan.replay(outcomes).resolved.finite(),
        scan.replay(outcomes).resolved.len() <= scan.resolved.len() + outcomes.len(),
    decreases outcomes.len(),
{
    scan.lemma_complete_iff_none_pending();
    if outcomes.len() > 0 {
        lemma_replay_resolves_at_most(scan, outcomes.drop_last());
    }
}

/// Going to the barrier and taking an outcome can change places: the
/// outcomes count alike whether they come before the coordinator waits or
/// while it does.
pub proof fn lemma_drain_commutes_with_replay(scan: ScanView, outcomes: Seq<PortOutcome>)
    ensures
        scan.drain().replay(outcomes) == scan.replay(outcomes).drain(),
    decreases outcomes.len(),
{
    if outcomes.len() > 0 {
        lemma_drain_commutes_with_replay(scan, outcomes.drop_last());
    }
}

/// A launch names one probe for each port of the range and no other:
/// `port_end - port_start + 1` probes, ascending from `port_start`, no port
/// twice.
pub proof fn lemma_one_probe_for_each_port(request: ScanRequest)
    requires
        request.wf(),
    ensures
        request.spec_ports().len() == request.spec_port_end() - request.spec_port_start() + 1,
        request.spec_ports().no_duplicates(),
        request.spec_ports().to_set() =~= request.port_set(),
        forall|i: int|
            0 <= i < request.spec_ports().len() ==> #[trigger] request.spec_ports()[i]
                == request.spec_port_start() + i,
{
    let ports = request.spec_ports();
    assert forall|port: u16| request.port_set().contains(port) implies ports.to_set().contains(
        port,
    ) by {
        assert(ports[port - request.spec_port_start()] == port);
    }
}

/// The barrier releases only after every probe has resolved: whatever was
/// handed to a scan since its launch, if the scan is complete then each
/// port of the range had an outcome, and there were at least as many
/// outcomes as probes.
pub proof fn lemma_barrier_waits_for_every_probe(
    request: ScanRequest,
    now: u64,
    outcomes: Seq<PortOutcome>,
)
    requires
        request.wf(),
        launched(request, now).replay(outcomes).complete(),
    ensures
        request.port_set().subset_of(ports_of(outcomes)),
        outcomes.len() >= request.spec_probe_count(),
{
    let start = launched(request, now);
    let end = start.replay(outcomes);
    lemma_replay_keeps_inv(start, outcomes);
    lemma_replay_resolves_at_most(start, outcomes);
    end.lemma_complete_iff_none_pending();
    assert forall|port: u16| request.port_set().contains(port) implies ports_of(
        outcomes,
    ).contains(port) by {
        assert(end.resolved.contains(port));
    }
}

/// Once every probe of a scan has handed in its outcome, in whatever
/// order, the scan is complete and the barrier releases: no probe is
/// pending, the scan ends in `Reported`, and the open ports stand in the
/// order in which they were found.
pub proof fn lemma_delivery_releases_barrier(
    request: ScanRequest,
    now: u64,
    outcomes: Seq<PortOutcome>,
)
    requires
        request.wf(),
        delivers(request, outcomes),
    ensures
        launched(request, now).replay(outcomes).inv(),
        launched(request, now).replay(outcomes).complete(),
        launched(request, now).replay(outcomes).pending() == 0,
        launched(request, now).replay(outcomes).drain().releases(),
        launched(request, now).replay(outcomes).drain().finish().phase == Phase::Reported,
        launched(request, now).replay(outcomes).open == found_open(outcomes),
{
    let start = launched(request, now);
    let end = start.replay(outcomes);
    lemma_replay_keeps_inv(start, outcomes);
    lemma_replay_counts_each(start, outcomes);
    end.lemma_complete_iff_none_pending();
}

/// While fewer outcomes than probes have been handed in, the barrier holds.
pub proof fn lemma_barrier_holds_while_pending(
    request: ScanRequest,
    now: u64,
    outcomes: Seq<PortOutcome>,
)
    requires
        request.wf(),
        outcomes.len() < request.spec_probe_count(),
    ensures
        !launched(request, now).replay(outcomes).complete(),
        !launched(request, now).replay(outcomes).drain().releases(),
        launched(request, now).replay(outcomes).drain().finish().phase != Phase::Reported,
{
    let start = launched(request, now);
    let end = start.replay(outcomes);
    lemma_replay_keeps_inv(start, outcomes);
    lemma_replay_resolves_at_most(start, outcomes);
    end.lemma_complete_iff_none_pending();
}

/// Against a target on which nothing listens, the scan completes and finds
/// no open port.
pub proof fn lemma_no_listener_no_open_port(
    request: ScanRequest,
    now: u64,
    outcomes: Seq<PortOutcome>,
)
    requires
        request.wf(),
        delivers(request, outcomes),
        forall|i: int| 0 <= i < outcomes.len() ==> (#[trigger] outcomes[i]) is NotOpen,
    ensures
        launched(request, now).replay(outcomes).open =~= Seq::<u16>::empty(),
        launched(request, now).replay(outcomes).drain().releases(),
{
    lemma_delivery_releases_barrier(request, now, outcomes);
    let found = found_open(outcomes);
    if found.len() > 0 {
        lemma_found_open_contains(outcomes, found[0]);
    }
}

/// The open ports of a scan are exactly the ports of its range on which
/// the target listens, each once, whatever the size of the range and
/// whatever the order in which the probes resolved.
pub proof fn lemma_open_ports_are_the_listeners(
    request: ScanRequest,
    now: u64,
    outcomes: Seq<PortOutcome>,
    listening: Set<u16>,
)
    requires
        request.wf(),
        delivers(request, outcomes),
        observes(outcomes, listening),
    ensures
        launched(request, now).replay(outcomes).open.to_set() =~= listening.intersect(
            request.port_set(),
        ),
        listening.subset_of(request.port_set()) ==> launched(request, now).replay(
            outcomes,
        ).open.to_set() =~= listening,
        launched(request, now).replay(outcomes).open.no_duplicates(),
        launched(request, now).replay(outcomes).drain().releases(),
{
    let end = launched(request, now).replay(outcomes);
    lemma_delivery_releases_barrier(request, now, outcomes);
    lemma_replay_counts_each(launched(request, now), outcomes);
    lemma_replay_keeps_inv(launched(request, now), outcomes);
    assert forall|port: u16| end.open.to_set().contains(port) <==> listening.intersect(
        request.port_set(),
    ).contains(port) by {
        lemma_found_open_contains(outcomes, port);
        if end.open.contains(port) {
            let i = choose|i: int|
                0 <= i < outcomes.len() && #[trigger] outcomes[i] == PortOutcome::Open(port);
            assert(request.covers(outcomes[i].spec_port()));
        }
        if listening.contains(port) && request.covers(port) {
            let i = choose|i: int|
                0 <= i < outcomes.len() && (#[trigger] outcomes[i]).spec_port() == port;
            assert(outcomes[i] == PortOutcome::Open(port));
        }
    }
}

/// Scanning the same range of an unchanged target twice yields the same
/// set of open ports, though the probes may resolve in another order and
/// at other times.
pub proof fn lemma_same_target_same_open_ports(
    request: ScanRequest,
    listening: Set<u16>,
    first_start: u64,
    first: Seq<PortOutcome>,
    second_start: u64,
    second: Seq<PortOutcome>,
)
    requires
        request.wf(),
        delivers(request, first),
        observes(first, listening),
        delivers(request, second),
        observes(second, listening),
    ensures
        launched(request, first_start).replay(first).open.to_set() == launched(
            request,
            second_start,
        ).replay(second).open.to_set(),
{
    lemma_open_ports_are_the_listeners(request, first_start, first, listening);
    lemma_open_ports_are_the_listeners(request, second_start, second, listening);
}

/// A scan of a single port launches exactly one probe, and the outcome of
/// that probe completes it.
pub proof fn lemma_single_port_scan(request: ScanRequest, now: u64, outcome: PortOutcome)
    requires
        request.wf(),
        request.spec_port_start() == request.spec_port_end(),
        outcome.spec_port() == request.spec_port_start(),
    ensures
        request.spec_probe_count() == 1,
        request.spec_ports() =~= seq![request.spec_port_start()],
        launched(request, now).record(outcome).drain().releases(),
        launched(request, now).record(outcome).open =~= match outcome {
            PortOutcome::Open(port) => seq![port],
            PortOutcome::NotOpen(_) => Seq::<u16>::empty(),
        },
{
}

} // verus!
