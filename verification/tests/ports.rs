use file_transfer::endpoint::{PortRange, RangeError};
use file_transfer::ports::{LeaseError, PortAllocator, TransferId};

fn range(first: u16, last: u16) -> PortRange {
    PortRange::new(first, last).unwrap()
}

#[test]
fn range_refuses_zero_and_inverted_bounds() {
    assert_eq!(PortRange::new(0, 10).unwrap_err(), RangeError::ZeroPort);
    assert_eq!(PortRange::new(10, 0).unwrap_err(), RangeError::ZeroPort);
    assert_eq!(PortRange::new(0, 0).unwrap_err(), RangeError::ZeroPort);
    assert_eq!(PortRange::new(11, 10).unwrap_err(), RangeError::Inverted);
    assert!(PortRange::new(10, 10).is_ok());
}

#[test]
fn range_reports_its_bounds_and_length() {
    let r = range(5000, 5009);
    assert_eq!(r.first(), 5000);
    assert_eq!(r.last(), 5009);
    assert_eq!(r.len(), 10);
    assert!(r.includes(5000));
    assert!(r.includes(5009));
    assert!(!r.includes(4999));
    assert!(!r.includes(5010));
    assert_eq!(range(1, 65535).len(), 65535);
    assert_eq!(range(65535, 65535).len(), 1);
}

#[test]
fn lease_hands_out_the_lowest_free_port() {
    let mut allocator = PortAllocator::new();
    let r = range(6000, 6002);
    assert_eq!(allocator.lease(&r, TransferId(1)), Ok(6000));
    assert_eq!(allocator.lease(&r, TransferId(2)), Ok(6001));
    allocator.release(6000);
    assert_eq!(allocator.lease(&r, TransferId(3)), Ok(6000));
    assert_eq!(allocator.lease(&r, TransferId(4)), Ok(6002));
    assert_eq!(allocator.holder(6000), Some(TransferId(3)));
    assert_eq!(allocator.holder(6001), Some(TransferId(2)));
    assert_eq!(allocator.holder(6002), Some(TransferId(4)));
}

#[test]
fn lease_never_hands_out_a_port_twice_and_fails_when_exhausted() {
    let mut allocator = PortAllocator::new();
    let r = range(7000, 7015);
    let mut seen: Vec<u16> = Vec::new();
    for n in 0..16u64 {
        let port = allocator.lease(&r, TransferId(n)).unwrap();
        assert!(r.includes(port));
        assert!(!seen.contains(&port));
        seen.push(port);
    }
    assert_eq!(allocator.leased(), 16);
    assert_eq!(allocator.lease(&r, TransferId(16)), Err(LeaseError::ExhaustedRange));
    assert_eq!(allocator.leased(), 16);
}

#[test]
fn lease_in_a_single_port_range() {
    let mut allocator = PortAllocator::new();
    let r = range(65535, 65535);
    assert_eq!(allocator.lease(&r, TransferId(0)), Ok(65535));
    assert_eq!(allocator.lease(&r, TransferId(1)), Err(LeaseError::ExhaustedRange));
    allocator.release(65535);
    assert_eq!(allocator.lease(&r, TransferId(1)), Ok(65535));
}

#[test]
fn release_of_a_free_port_changes_nothing() {
    let mut allocator = PortAllocator::new();
    let r = range(8000, 8001);
    allocator.release(8000);
    allocator.release(9);
    assert_eq!(allocator.leased(), 0);
    assert_eq!(allocator.lease(&r, TransferId(1)), Ok(8000));
    allocator.release(8001);
    assert!(allocator.is_leased(8000));
    assert_eq!(allocator.lease(&r, TransferId(2)), Ok(8001));
}

#[test]
fn double_release_leaves_later_leases_intact() {
    let mut allocator = PortAllocator::new();
    let r = range(8100, 8102);
    assert_eq!(allocator.lease(&r, TransferId(1)), Ok(8100));
    assert_eq!(allocator.lease(&r, TransferId(2)), Ok(8101));
    allocator.release(8100);
    allocator.release(8100);
    assert!(!allocator.is_leased(8100));
    assert!(allocator.is_leased(8101));
    assert_eq!(allocator.holder(8101), Some(TransferId(2)));
    assert_eq!(allocator.leased(), 1);
    assert_eq!(allocator.lease(&r, TransferId(3)), Ok(8100));
    assert_eq!(allocator.lease(&r, TransferId(4)), Ok(8102));
    assert_eq!(allocator.lease(&r, TransferId(5)), Err(LeaseError::ExhaustedRange));
}

#[test]
fn ports_outside_the_range_do_not_count() {
    let mut allocator = PortAllocator::new();
    let low = range(100, 101);
    let high = range(200, 200);
    assert_eq!(allocator.lease(&high, TransferId(1)), Ok(200));
    assert_eq!(allocator.lease(&low, TransferId(2)), Ok(100));
    assert_eq!(allocator.lease(&low, TransferId(3)), Ok(101));
    assert_eq!(allocator.lease(&low, TransferId(4)), Err(LeaseError::ExhaustedRange));
    assert_eq!(allocator.holder(200), Some(TransferId(1)));
    assert_eq!(allocator.holder(300), None);
}
