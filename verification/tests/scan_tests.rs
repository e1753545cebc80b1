use ip_sniffer::address::IpAddress;
use ip_sniffer::probe::{classify, ConnectAttempt, PortOutcome};
use ip_sniffer::request::ScanRequest;
use ip_sniffer::scan::{Phase, Scan, ScanError, ScanReport};

fn request(first: u16, last: u16) -> ScanRequest {
    ScanRequest::new(IpAddress::V4([127, 0, 0, 1]), first, last).unwrap()
}

/// Probes a target that listens on `listening` and nowhere else.
fn probe(listening: &[u16], port: u16) -> PortOutcome {
    if listening.contains(&port) {
        classify(port, ConnectAttempt::Connected)
    } else if port % 2 == 0 {
        classify(port, ConnectAttempt::Failed)
    } else {
        classify(port, ConnectAttempt::TimedOut)
    }
}

/// Runs a whole scan whose probes resolve in the order given by `order`,
/// a rearrangement of the launched ports.
fn run(first: u16, last: u16, listening: &[u16], order: &dyn Fn(Vec<u16>) -> Vec<u16>) -> ScanReport {
    let mut scan = Scan::new(request(first, last));
    let launched = scan.launch(1_000).unwrap();
    let mut reported = Vec::new();
    for port in order(launched) {
        if let Some(open) = scan.record(probe(listening, port)).unwrap() {
            reported.push(open);
        }
    }
    scan.drain().unwrap();
    let report = scan.finish(6_000).unwrap();
    assert_eq!(report.open_ports, reported);
    report
}

fn as_launched(ports: Vec<u16>) -> Vec<u16> {
    ports
}

fn reversed(mut ports: Vec<u16>) -> Vec<u16> {
    ports.reverse();
    ports
}

fn odd_ports_first(ports: Vec<u16>) -> Vec<u16> {
    let mut order: Vec<u16> = ports.iter().copied().filter(|port| port % 2 == 1).collect();
    order.extend(ports.iter().copied().filter(|port| port % 2 == 0));
    order
}

fn sorted(mut ports: Vec<u16>) -> Vec<u16> {
    ports.sort();
    ports
}

#[test]
fn new_scan_is_idle() {
    let scan = Scan::new(request(8000, 8002));
    assert_eq!(scan.phase(), Phase::Idle);
    assert_eq!(scan.pending(), 3);
    assert!(!scan.is_complete());
    assert!(scan.open_ports().is_empty());
    assert_eq!(scan.request(), request(8000, 8002));
}

#[test]
fn launch_names_one_probe_per_port() {
    let mut scan = Scan::new(request(8000, 8002));
    assert_eq!(scan.launch(0), Ok(vec![8000, 8001, 8002]));
    assert_eq!(scan.phase(), Phase::Running);
    assert_eq!(scan.pending(), 3);
}

#[test]
fn launch_count_is_range_size() {
    for (first, last) in [(1u16, 1u16), (1, 2), (20, 25), (1, 1024), (60000, 65535), (1, 65535)] {
        let mut scan = Scan::new(request(first, last));
        let ports = scan.launch(0).unwrap();
        assert_eq!(ports.len(), (last - first) as usize + 1);
        assert_eq!(ports[0], first);
        assert_eq!(ports[ports.len() - 1], last);
        assert_eq!(scan.pending() as usize, ports.len());
    }
}

#[test]
fn launch_happens_once() {
    let mut scan = Scan::new(request(8000, 8002));
    scan.launch(0).unwrap();
    assert_eq!(scan.launch(5), Err(ScanError::WrongPhase));
    assert_eq!(scan.phase(), Phase::Running);
    scan.drain().unwrap();
    assert_eq!(scan.launch(5), Err(ScanError::WrongPhase));
    assert_eq!(scan.phase(), Phase::Draining);
}

#[test]
fn outcome_before_launch_is_turned_down() {
    let mut scan = Scan::new(request(8000, 8002));
    assert_eq!(scan.record(PortOutcome::Open(8001)), Err(ScanError::WrongPhase));
    assert_eq!(scan.pending(), 3);
    assert!(scan.open_ports().is_empty());
}

#[test]
fn outcome_outside_the_range_is_turned_down() {
    let mut scan = Scan::new(request(8000, 8002));
    scan.launch(0).unwrap();
    assert_eq!(scan.record(PortOutcome::Open(7999)), Err(ScanError::OutOfRange));
    assert_eq!(scan.record(PortOutcome::Open(8003)), Err(ScanError::OutOfRange));
    assert_eq!(scan.record(PortOutcome::NotOpen(0)), Err(ScanError::OutOfRange));
    assert_eq!(scan.pending(), 3);
    assert!(scan.open_ports().is_empty());
}

#[test]
fn second_outcome_for_a_port_is_turned_down() {
    let mut scan = Scan::new(request(8000, 8002));
    scan.launch(0).unwrap();
    assert_eq!(scan.record(PortOutcome::NotOpen(8001)), Ok(None));
    assert_eq!(scan.record(PortOutcome::Open(8001)), Err(ScanError::AlreadyResolved));
    assert_eq!(scan.record(PortOutcome::NotOpen(8001)), Err(ScanError::AlreadyResolved));
    assert_eq!(scan.pending(), 2);
    assert!(scan.open_ports().is_empty());
}

#[test]
fn open_port_is_handed_back_at_once() {
    let mut scan = Scan::new(request(8000, 8002));
    scan.launch(0).unwrap();
    assert_eq!(scan.record(PortOutcome::Open(8002)), Ok(Some(8002)));
    assert_eq!(scan.open_ports(), &vec![8002]);
    assert_eq!(scan.record(PortOutcome::NotOpen(8000)), Ok(None));
    assert_eq!(scan.open_ports(), &vec![8002]);
    assert_eq!(scan.record(PortOutcome::Open(8001)), Ok(Some(8001)));
    assert_eq!(scan.open_ports(), &vec![8002, 8001]);
}

#[test]
fn outcomes_count_while_draining() {
    let mut scan = Scan::new(request(8000, 8001));
    scan.launch(0).unwrap();
    assert_eq!(scan.drain(), Ok(()));
    assert_eq!(scan.phase(), Phase::Draining);
    assert_eq!(scan.record(PortOutcome::Open(8000)), Ok(Some(8000)));
    assert_eq!(scan.record(PortOutcome::NotOpen(8001)), Ok(None));
    assert!(scan.is_complete());
}

#[test]
fn drain_needs_a_running_scan() {
    let mut scan = Scan::new(request(8000, 8001));
    assert_eq!(scan.drain(), Err(ScanError::WrongPhase));
    assert_eq!(scan.phase(), Phase::Idle);
    scan.launch(0).unwrap();
    assert_eq!(scan.drain(), Ok(()));
    assert_eq!(scan.drain(), Err(ScanError::WrongPhase));
    assert_eq!(scan.phase(), Phase::Draining);
}

#[test]
fn barrier_holds_until_the_last_probe() {
    let mut scan = Scan::new(request(8000, 8002));
    scan.launch(0).unwrap();
    scan.drain().unwrap();
    assert_eq!(scan.finish(9), Err(ScanError::Unresolved));
    scan.record(PortOutcome::NotOpen(8002)).unwrap();
    assert_eq!(scan.finish(9), Err(ScanError::Unresolved));
    scan.record(PortOutcome::NotOpen(8000)).unwrap();
    assert_eq!(scan.pending(), 1);
    assert!(!scan.is_complete());
    assert_eq!(scan.finish(9), Err(ScanError::Unresolved));
    assert_eq!(scan.phase(), Phase::Draining);
    scan.record(PortOutcome::NotOpen(8001)).unwrap();
    assert_eq!(scan.pending(), 0);
    assert!(scan.is_complete());
    assert!(scan.finish(9).is_ok());
    assert_eq!(scan.phase(), Phase::Reported);
}

#[test]
fn finish_needs_the_coordinator_at_the_barrier() {
    let mut scan = Scan::new(request(8000, 8000));
    assert_eq!(scan.finish(9), Err(ScanError::WrongPhase));
    scan.launch(0).unwrap();
    assert_eq!(scan.finish(9), Err(ScanError::WrongPhase));
    scan.record(PortOutcome::Open(8000)).unwrap();
    assert!(scan.is_complete());
    assert_eq!(scan.finish(9), Err(ScanError::WrongPhase));
    assert_eq!(scan.phase(), Phase::Running);
    scan.drain().unwrap();
    assert_eq!(
        scan.finish(9),
        Ok(ScanReport { open_ports: vec![8000], elapsed_nanos: 9 })
    );
}

#[test]
fn nothing_follows_the_report() {
    let mut scan = Scan::new(request(8000, 8000));
    scan.launch(0).unwrap();
    scan.record(PortOutcome::Open(8000)).unwrap();
    scan.drain().unwrap();
    scan.finish(1).unwrap();
    assert_eq!(scan.phase(), Phase::Reported);
    assert_eq!(scan.launch(2), Err(ScanError::WrongPhase));
    assert_eq!(scan.record(PortOutcome::Open(8000)), Err(ScanError::WrongPhase));
    assert_eq!(scan.drain(), Err(ScanError::WrongPhase));
    assert_eq!(scan.finish(3), Err(ScanError::WrongPhase));
    assert_eq!(scan.phase(), Phase::Reported);
    assert_eq!(scan.open_ports(), &vec![8000]);
}

#[test]
fn elapsed_is_barrier_minus_launch() {
    let mut scan = Scan::new(request(8000, 8000));
    scan.launch(1_500_000_000).unwrap();
    scan.record(PortOutcome::NotOpen(8000)).unwrap();
    scan.drain().unwrap();
    let report = scan.finish(6_500_000_123).unwrap();
    assert_eq!(report.elapsed_nanos, 5_000_000_123);
}

#[test]
fn elapsed_spans_the_whole_clock() {
    let mut scan = Scan::new(request(8000, 8000));
    scan.launch(0).unwrap();
    scan.record(PortOutcome::NotOpen(8000)).unwrap();
    scan.drain().unwrap();
    assert_eq!(scan.finish(u64::MAX).unwrap().elapsed_nanos, u64::MAX);
}

#[test]
fn elapsed_is_zero_when_the_clock_reads_less() {
    let mut scan = Scan::new(request(8000, 8000));
    scan.launch(500).unwrap();
    scan.record(PortOutcome::NotOpen(8000)).unwrap();
    scan.drain().unwrap();
    assert_eq!(scan.finish(499).unwrap().elapsed_nanos, 0);
}

#[test]
fn listener_on_8001_only() {
    let report = run(8000, 8002, &[8001], &as_launched);
    assert_eq!(report.open_ports, vec![8001]);
    assert_eq!(report.elapsed_nanos, 5_000);
    let report = run(8000, 8002, &[8001], &reversed);
    assert_eq!(report.open_ports, vec![8001]);
    let report = run(8000, 8002, &[8001], &odd_ports_first);
    assert_eq!(report.open_ports, vec![8001]);
}

#[test]
fn no_listener_gives_empty_report() {
    for (first, last) in [(8000u16, 8002u16), (1, 1), (1, 1024), (1, 65535)] {
        let report = run(first, last, &[], &as_launched);
        assert_eq!(report.open_ports, Vec::<u16>::new());
        let report = run(first, last, &[], &reversed);
        assert_eq!(report.open_ports, Vec::<u16>::new());
    }
}

#[test]
fn open_ports_are_the_listeners_in_range() {
    let listening = [22u16, 80, 443, 8080];
    let report = run(1, 1024, &listening, &as_launched);
    assert_eq!(report.open_ports, vec![22, 80, 443]);
    let report = run(1, 65535, &listening, &as_launched);
    assert_eq!(report.open_ports, vec![22, 80, 443, 8080]);
    let report = run(80, 80, &listening, &as_launched);
    assert_eq!(report.open_ports, vec![80]);
    let report = run(81, 442, &listening, &as_launched);
    assert_eq!(report.open_ports, Vec::<u16>::new());
}

#[test]
fn every_port_open() {
    let listening: Vec<u16> = (100u16..=110).collect();
    let report = run(100, 110, &listening, &reversed);
    assert_eq!(sorted(report.open_ports), listening);
}

#[test]
fn open_ports_come_in_completion_order() {
    let listening = [22u16, 80, 443];
    let report = run(1, 1024, &listening, &reversed);
    assert_eq!(report.open_ports, vec![443, 80, 22]);
    let report = run(1, 1024, &listening, &odd_ports_first);
    assert_eq!(report.open_ports, vec![443, 22, 80]);
}

#[test]
fn same_scan_twice_gives_same_open_set() {
    let listening = [3u16, 1999, 2000, 40000, 65535];
    let first = run(1, 65535, &listening, &as_launched);
    let second = run(1, 65535, &listening, &reversed);
    let third = run(1, 65535, &listening, &odd_ports_first);
    let again = run(1, 65535, &listening, &as_launched);
    assert_eq!(first.open_ports, again.open_ports);
    assert_eq!(sorted(first.open_ports), listening.to_vec());
    assert_eq!(sorted(second.open_ports), listening.to_vec());
    assert_eq!(sorted(third.open_ports), listening.to_vec());
}

#[test]
fn single_port_scan_open() {
    let mut scan = Scan::new(request(8001, 8001));
    assert_eq!(scan.launch(10), Ok(vec![8001]));
    assert_eq!(scan.pending(), 1);
    assert_eq!(scan.record(PortOutcome::Open(8001)), Ok(Some(8001)));
    assert!(scan.is_complete());
    scan.drain().unwrap();
    assert_eq!(
        scan.finish(30),
        Ok(ScanReport { open_ports: vec![8001], elapsed_nanos: 20 })
    );
}

#[test]
fn single_port_scan_not_open() {
    let mut scan = Scan::new(request(65535, 65535));
    assert_eq!(scan.launch(10), Ok(vec![65535]));
    assert_eq!(scan.record(PortOutcome::NotOpen(65535)), Ok(None));
    scan.drain().unwrap();
    assert_eq!(
        scan.finish(30),
        Ok(ScanReport { open_ports: vec![], elapsed_nanos: 20 })
    );
}

#[test]
fn full_range_scan_counts_down_to_the_barrier() {
    let mut scan = Scan::new(request(1, 65535));
    let ports = scan.launch(0).unwrap();
    assert_eq!(ports.len(), 65535);
    scan.drain().unwrap();
    let mut left: u32 = 65535;
    for port in ports {
        assert_eq!(scan.pending(), left);
        assert!(!scan.is_complete());
        scan.record(PortOutcome::NotOpen(port)).unwrap();
        left -= 1;
    }
    assert_eq!(scan.pending(), 0);
    assert!(scan.is_complete());
    assert_eq!(
        scan.finish(7),
        Ok(ScanReport { open_ports: vec![], elapsed_nanos: 7 })
    );
}
