use conn_registry::address::PeerAddr;
use conn_registry::error::ConsoleError;
use conn_registry::registry::Registry;
use conn_registry::selection::{unicast_report, Selection};
use conn_registry::transport::WriteOutcome;
use std::cell::RefCell;

struct Socket {
    answer: WriteOutcome,
    received: RefCell<Vec<u8>>,
}

fn socket(answer: WriteOutcome) -> Socket {
    Socket { answer, received: RefCell::new(Vec::new()) }
}

fn write(socket: &Socket, bytes: &[u8]) -> WriteOutcome {
    if socket.answer == WriteOutcome::Written {
        socket.received.borrow_mut().extend_from_slice(bytes);
    }
    socket.answer
}

fn addr(port: u16) -> PeerAddr {
    PeerAddr::V4 { octets: 0x7f00_0001, port }
}

fn received(registry: &Registry<Socket>, position: usize) -> Vec<u8> {
    registry.get(position).unwrap().handle.received.borrow().clone()
}

fn three() -> Registry<Socket> {
    let mut registry = Registry::new();
    registry.insert(socket(WriteOutcome::Written), addr(1));
    registry.insert(socket(WriteOutcome::Written), addr(2));
    registry.insert(socket(WriteOutcome::Written), addr(3));
    registry
}

#[test]
fn nothing_is_selected_at_first() {
    let selection = Selection::new();
    assert_eq!(selection.show(), None);
    assert!(selection.resolve(&three()).is_none());
}

#[test]
fn select_stores_the_address_at_the_position() {
    let registry = three();
    let mut selection = Selection::new();
    assert_eq!(selection.select(&registry, 1), Ok(addr(2)));
    assert_eq!(selection.show(), Some(addr(2)));
    assert_eq!(selection.select(&registry, 0), Ok(addr(1)));
    assert_eq!(selection.show(), Some(addr(1)));
}

#[test]
fn selection_survives_reordering() {
    let mut registry = three();
    let mut selection = Selection::new();
    assert_eq!(selection.select(&registry, 2), Ok(addr(3)));
    assert!(registry.remove(0).is_some());
    assert_eq!(selection.show(), Some(addr(3)));
    assert_eq!(selection.resolve(&registry).map(|entry| entry.addr), Some(addr(3)));
    assert_eq!(registry.position_of(addr(3)), Some(1));
    assert!(registry.get(2).is_none());
    assert_eq!(selection.send_to_selected(&registry, b"still you", &write), Ok(addr(3)));
    assert_eq!(received(&registry, 1), b"still you");
    assert_eq!(received(&registry, 0), b"");
}

#[test]
fn selection_survives_eviction_of_others() {
    let mut registry = Registry::new();
    registry.insert(socket(WriteOutcome::Failed), addr(1));
    registry.insert(socket(WriteOutcome::Failed), addr(2));
    registry.insert(socket(WriteOutcome::Written), addr(3));
    let mut selection = Selection::new();
    assert_eq!(selection.select(&registry, 2), Ok(addr(3)));
    registry.evict_dead(&write);
    assert_eq!(registry.len(), 1);
    assert_eq!(selection.resolve(&registry).map(|entry| entry.addr), Some(addr(3)));
}

#[test]
fn selection_after_eviction_is_no_selection() {
    let mut registry = Registry::new();
    registry.insert(socket(WriteOutcome::Written), addr(1));
    registry.insert(socket(WriteOutcome::Failed), addr(2));
    let mut selection = Selection::new();
    assert_eq!(selection.select(&registry, 1), Ok(addr(2)));
    assert_eq!(registry.evict_dead(&write), vec![(addr(1), true), (addr(2), false)]);
    assert_eq!(
        selection.send_to_selected(&registry, b"anyone?", &write),
        Err(ConsoleError::NoSelection)
    );
    assert_eq!(selection.show(), Some(addr(2)));
    assert!(selection.resolve(&registry).is_none());
    assert_eq!(received(&registry, 0), b"Hello, are you there?");
}

#[test]
fn out_of_range_selection_keeps_prior() {
    let mut registry = Registry::new();
    registry.insert(socket(WriteOutcome::Written), addr(1));
    registry.insert(socket(WriteOutcome::Written), addr(2));
    let mut selection = Selection::new();
    assert_eq!(selection.select(&registry, 1), Ok(addr(2)));
    assert_eq!(selection.select(&registry, 99), Err(ConsoleError::IndexOutOfRange));
    assert_eq!(selection.show(), Some(addr(2)));
    assert_eq!(selection.select(&registry, 2), Err(ConsoleError::IndexOutOfRange));
    assert_eq!(selection.show(), Some(addr(2)));
}

#[test]
fn out_of_range_selection_with_nothing_selected() {
    let registry: Registry<Socket> = Registry::new();
    let mut selection = Selection::new();
    assert_eq!(selection.select(&registry, 0), Err(ConsoleError::IndexOutOfRange));
    assert_eq!(selection.show(), None);
}

#[test]
fn send_without_selection_is_no_selection() {
    let registry = three();
    let selection = Selection::new();
    assert_eq!(
        selection.send_to_selected(&registry, b"hi", &write),
        Err(ConsoleError::NoSelection)
    );
    for position in 0..3 {
        assert_eq!(received(&registry, position), b"");
    }
}

#[test]
fn send_writes_only_to_the_selected_connection() {
    let registry = three();
    let mut selection = Selection::new();
    assert_eq!(selection.select(&registry, 1), Ok(addr(2)));
    assert_eq!(selection.send_to_selected(&registry, b"hi", &write), Ok(addr(2)));
    assert_eq!(received(&registry, 0), b"");
    assert_eq!(received(&registry, 1), b"hi");
    assert_eq!(received(&registry, 2), b"");
}

#[test]
fn send_goes_to_the_first_connection_with_the_address() {
    let mut registry = three();
    registry.insert(socket(WriteOutcome::Written), addr(2));
    let mut selection = Selection::new();
    assert_eq!(selection.select(&registry, 3), Ok(addr(2)));
    assert_eq!(selection.send_to_selected(&registry, b"hi", &write), Ok(addr(2)));
    assert_eq!(received(&registry, 1), b"hi");
    assert_eq!(received(&registry, 3), b"");
}

#[test]
fn send_reports_a_write_failure() {
    let mut registry = Registry::new();
    registry.insert(socket(WriteOutcome::Failed), addr(1));
    registry.insert(socket(WriteOutcome::WouldBlock), addr(2));
    let mut selection = Selection::new();
    assert_eq!(selection.select(&registry, 0), Ok(addr(1)));
    assert_eq!(
        selection.send_to_selected(&registry, b"hi", &write),
        Err(ConsoleError::WriteFailure)
    );
    assert_eq!(selection.select(&registry, 1), Ok(addr(2)));
    assert_eq!(
        selection.send_to_selected(&registry, b"hi", &write),
        Err(ConsoleError::WriteFailure)
    );
    assert_eq!(registry.len(), 2);
}

#[test]
fn unicast_report_by_outcome() {
    assert_eq!(unicast_report(addr(7), WriteOutcome::Written), Ok(addr(7)));
    assert_eq!(unicast_report(addr(7), WriteOutcome::WouldBlock), Err(ConsoleError::WriteFailure));
    assert_eq!(unicast_report(addr(7), WriteOutcome::Failed), Err(ConsoleError::WriteFailure));
}
