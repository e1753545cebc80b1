use ip_sniffer::address::IpAddress;
use ip_sniffer::request::{RequestError, ScanRequest};

fn localhost() -> IpAddress {
    IpAddress::V4([127, 0, 0, 1])
}

#[test]
fn localhost_is_127_0_0_1() {
    assert_eq!(IpAddress::localhost(), IpAddress::V4([127, 0, 0, 1]));
}

#[test]
fn request_keeps_what_it_was_given() {
    let target = IpAddress::V6([0x2001, 0xdb8, 0, 0, 0, 0, 0, 1]);
    let request = ScanRequest::new(target, 8000, 8002).unwrap();
    assert_eq!(request.target(), target);
    assert_eq!(request.port_start(), 8000);
    assert_eq!(request.port_end(), 8002);
}

#[test]
fn request_refuses_port_zero() {
    assert_eq!(ScanRequest::new(localhost(), 0, 10), Err(RequestError::InvalidPort));
    assert_eq!(ScanRequest::new(localhost(), 0, 0), Err(RequestError::InvalidPort));
    assert_eq!(ScanRequest::new(localhost(), 0, 65535), Err(RequestError::InvalidPort));
}

#[test]
fn request_refuses_reversed_range() {
    assert_eq!(ScanRequest::new(localhost(), 10, 9), Err(RequestError::ReversedRange));
    assert_eq!(ScanRequest::new(localhost(), 65535, 1), Err(RequestError::ReversedRange));
    assert_eq!(ScanRequest::new(localhost(), 1, 0), Err(RequestError::ReversedRange));
}

#[test]
fn request_accepts_the_bounds() {
    assert!(ScanRequest::new(localhost(), 1, 1).is_ok());
    assert!(ScanRequest::new(localhost(), 1, 65535).is_ok());
    assert!(ScanRequest::new(localhost(), 65535, 65535).is_ok());
}

#[test]
fn probe_count_is_range_size() {
    assert_eq!(ScanRequest::new(localhost(), 8000, 8002).unwrap().probe_count(), 3);
    assert_eq!(ScanRequest::new(localhost(), 1, 65535).unwrap().probe_count(), 65535);
    assert_eq!(ScanRequest::new(localhost(), 1, 1024).unwrap().probe_count(), 1024);
    assert_eq!(ScanRequest::new(localhost(), 65535, 65535).unwrap().probe_count(), 1);
    assert_eq!(ScanRequest::new(localhost(), 22, 22).unwrap().probe_count(), 1);
}

#[test]
fn contains_tells_the_range_apart() {
    let request = ScanRequest::new(localhost(), 8000, 8002).unwrap();
    assert!(!request.contains(7999));
    assert!(request.contains(8000));
    assert!(request.contains(8001));
    assert!(request.contains(8002));
    assert!(!request.contains(8003));
    assert!(!request.contains(0));
    assert!(!request.contains(65535));
}

#[test]
fn ports_are_ascending_and_complete() {
    let request = ScanRequest::new(localhost(), 8000, 8002).unwrap();
    assert_eq!(request.ports(), vec![8000, 8001, 8002]);
    let request = ScanRequest::new(localhost(), 65533, 65535).unwrap();
    assert_eq!(request.ports(), vec![65533, 65534, 65535]);
}

#[test]
fn ports_of_the_full_range() {
    let request = ScanRequest::new(localhost(), 1, 65535).unwrap();
    let ports = request.ports();
    assert_eq!(ports.len(), 65535);
    for (i, port) in ports.iter().enumerate() {
        assert_eq!(*port as usize, i + 1);
    }
}

#[test]
fn ports_of_a_single_port_range() {
    let request = ScanRequest::new(localhost(), 443, 443).unwrap();
    assert_eq!(request.ports(), vec![443]);
    let request = ScanRequest::new(localhost(), 65535, 65535).unwrap();
    assert_eq!(request.ports(), vec![65535]);
}
