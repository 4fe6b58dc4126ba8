use conn_registry::address::PeerAddr;
use conn_registry::registry::Registry;
use conn_registry::transport::WriteOutcome;
use std::cell::RefCell;

struct Pipe {
    answer: WriteOutcome,
    attempts: RefCell<Vec<Vec<u8>>>,
}

fn pipe(answer: WriteOutcome) -> Pipe {
    Pipe { answer, attempts: RefCell::new(Vec::new()) }
}

fn write(pipe: &Pipe, bytes: &[u8]) -> WriteOutcome {
    pipe.attempts.borrow_mut().push(bytes.to_vec());
    pipe.answer
}

fn addr(port: u16) -> PeerAddr {
    PeerAddr::V4 { octets: 0xc0a8_0001, port }
}

#[test]
fn broadcast_partial_failure() {
    let mut registry = Registry::new();
    registry.insert(pipe(WriteOutcome::Written), addr(1));
    registry.insert(pipe(WriteOutcome::Failed), addr(2));
    registry.insert(pipe(WriteOutcome::Written), addr(3));
    let report = registry.broadcast(b"hello", &write);
    assert_eq!(report, vec![(addr(1), true), (addr(2), false), (addr(3), true)]);
    assert_eq!(report.iter().filter(|row| !row.1).count(), 1);
    assert_eq!(report.iter().filter(|row| row.1).count(), 2);
    assert_eq!(registry.len(), 3);
    assert_eq!(registry.list(), vec![(0, addr(1)), (1, addr(2)), (2, addr(3))]);
}

#[test]
fn broadcast_attempts_every_connection_after_a_failure() {
    let mut registry = Registry::new();
    registry.insert(pipe(WriteOutcome::Failed), addr(1));
    registry.insert(pipe(WriteOutcome::Failed), addr(2));
    registry.insert(pipe(WriteOutcome::Written), addr(3));
    registry.broadcast(b"x", &write);
    for position in 0..3 {
        assert_eq!(
            *registry.get(position).unwrap().handle.attempts.borrow(),
            vec![b"x".to_vec()]
        );
    }
}

#[test]
fn broadcast_would_block_is_not_delivered_and_not_evicted() {
    let mut registry = Registry::new();
    registry.insert(pipe(WriteOutcome::WouldBlock), addr(1));
    assert_eq!(registry.broadcast(b"x", &write), vec![(addr(1), false)]);
    assert_eq!(registry.len(), 1);
}

#[test]
fn broadcast_on_an_empty_table() {
    let registry: Registry<Pipe> = Registry::new();
    assert_eq!(registry.broadcast(b"x", &write), vec![]);
}

#[test]
fn broadcast_of_no_bytes_still_attempts() {
    let mut registry = Registry::new();
    registry.insert(pipe(WriteOutcome::Written), addr(1));
    assert_eq!(registry.broadcast(b"", &write), vec![(addr(1), true)]);
    assert_eq!(*registry.get(0).unwrap().handle.attempts.borrow(), vec![Vec::<u8>::new()]);
}

#[test]
fn delivery_report_pairs_addresses_with_success() {
    let mut registry = Registry::new();
    registry.insert(pipe(WriteOutcome::Written), addr(1));
    registry.insert(pipe(WriteOutcome::Written), addr(2));
    registry.insert(pipe(WriteOutcome::Written), addr(3));
    let outcomes = vec![WriteOutcome::WouldBlock, WriteOutcome::Written, WriteOutcome::Failed];
    assert_eq!(
        registry.delivery_report(&outcomes),
        vec![(addr(1), false), (addr(2), true), (addr(3), false)]
    );
}

#[test]
fn delivery_report_counts_a_connection_without_outcome_as_not_delivered() {
    let mut registry = Registry::new();
    registry.insert(pipe(WriteOutcome::Written), addr(1));
    registry.insert(pipe(WriteOutcome::Written), addr(2));
    assert_eq!(
        registry.delivery_report(&vec![WriteOutcome::Written]),
        vec![(addr(1), true), (addr(2), false)]
    );
}
