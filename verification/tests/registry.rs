use conn_registry::address::PeerAddr;
use conn_registry::registry::{Entry, Registry};
use conn_registry::transport::WriteOutcome;
use std::cell::RefCell;

fn v4(last: u32, port: u16) -> PeerAddr {
    PeerAddr::V4 { octets: 0x7f00_0000 + last, port }
}

fn three() -> Registry<u32> {
    let mut registry: Registry<u32> = Registry::new();
    registry.insert(10, v4(1, 4000));
    registry.insert(11, v4(1, 4001));
    registry.insert(12, v4(1, 4002));
    registry
}

fn handles(registry: &Registry<u32>) -> Vec<u32> {
    let mut found = Vec::new();
    let mut i = 0;
    while let Some(entry) = registry.get(i) {
        found.push(entry.handle);
        i += 1;
    }
    found
}

#[test]
fn new_registry_is_empty() {
    let registry: Registry<u32> = Registry::new();
    assert_eq!(registry.len(), 0);
    assert_eq!(registry.list(), vec![]);
    assert!(registry.get(0).is_none());
}

#[test]
fn insert_returns_the_length_before() {
    let mut registry: Registry<u32> = Registry::new();
    assert_eq!(registry.insert(10, v4(1, 4000)), 0);
    assert_eq!(registry.insert(11, v4(1, 4001)), 1);
    assert_eq!(registry.insert(12, v4(1, 4002)), 2);
    assert_eq!(registry.len(), 3);
}

#[test]
fn list_shows_entries_in_insertion_order() {
    let registry = three();
    assert_eq!(
        registry.list(),
        vec![(0, v4(1, 4000)), (1, v4(1, 4001)), (2, v4(1, 4002))]
    );
    assert_eq!(handles(&registry), vec![10, 11, 12]);
}

#[test]
fn list_keeps_insertion_order_for_equal_and_mixed_addresses() {
    let v6 = PeerAddr::V6 { segments: 1, port: 9, flowinfo: 0, scope_id: 0 };
    let mut registry: Registry<u32> = Registry::new();
    registry.insert(1, v6);
    registry.insert(2, v4(9, 9));
    registry.insert(3, v6);
    assert_eq!(registry.list(), vec![(0, v6), (1, v4(9, 9)), (2, v6)]);
}

#[test]
fn remove_shifts_later_positions_down() {
    let mut registry = three();
    let removed = registry.remove(0);
    assert_eq!(removed.map(|entry| (entry.handle, entry.addr)), Some((10, v4(1, 4000))));
    assert_eq!(registry.list(), vec![(0, v4(1, 4001)), (1, v4(1, 4002))]);
    assert_eq!(handles(&registry), vec![11, 12]);
}

#[test]
fn remove_in_the_middle_leaves_earlier_positions() {
    let mut registry = three();
    assert!(registry.remove(1).is_some());
    assert_eq!(registry.list(), vec![(0, v4(1, 4000)), (1, v4(1, 4002))]);
}

#[test]
fn remove_past_the_end_removes_nothing() {
    let mut registry = three();
    assert!(registry.remove(3).is_none());
    assert!(registry.remove(usize::MAX).is_none());
    assert_eq!(registry.len(), 3);
    assert_eq!(handles(&registry), vec![10, 11, 12]);
}

#[test]
fn get_returns_the_entry_at_a_position() {
    let registry = three();
    let entry: &Entry<u32> = registry.get(1).unwrap();
    assert_eq!(entry.handle, 11);
    assert_eq!(entry.addr, v4(1, 4001));
    assert!(registry.get(3).is_none());
}

#[test]
fn find_by_address_takes_the_first_match() {
    let mut registry = three();
    registry.insert(13, v4(1, 4001));
    assert_eq!(registry.position_of(v4(1, 4001)), Some(1));
    assert_eq!(registry.find_by_address(v4(1, 4001)).map(|entry| entry.handle), Some(11));
    assert_eq!(registry.find_by_address(v4(1, 4002)).map(|entry| entry.handle), Some(12));
}

#[test]
fn find_by_address_of_unknown_address_is_none() {
    let registry = three();
    assert_eq!(registry.position_of(v4(1, 5000)), None);
    assert!(registry.find_by_address(v4(2, 4000)).is_none());
    let empty: Registry<u32> = Registry::new();
    assert!(empty.find_by_address(v4(1, 4000)).is_none());
}

#[test]
fn addresses_differ_when_any_field_differs() {
    let base = PeerAddr::V6 { segments: 1, port: 2, flowinfo: 3, scope_id: 4 };
    let other_scope = PeerAddr::V6 { segments: 1, port: 2, flowinfo: 3, scope_id: 5 };
    let other_flow = PeerAddr::V6 { segments: 1, port: 2, flowinfo: 0, scope_id: 4 };
    let mut registry: Registry<u32> = Registry::new();
    registry.insert(1, other_scope);
    registry.insert(2, other_flow);
    registry.insert(3, base);
    assert_eq!(registry.position_of(base), Some(2));
    assert_eq!(registry.position_of(PeerAddr::V4 { octets: 1, port: 2 }), None);
}

#[test]
fn retain_flagged_keeps_order_and_counts_removed() {
    let mut registry = three();
    registry.insert(13, v4(1, 4003));
    let removed = registry.retain_flagged(&vec![false, true, false, true]);
    assert_eq!(removed, 2);
    assert_eq!(registry.list(), vec![(0, v4(1, 4001)), (1, v4(1, 4003))]);
    assert_eq!(handles(&registry), vec![11, 13]);
}

#[test]
fn retain_flagged_with_all_true_changes_nothing() {
    let mut registry = three();
    assert_eq!(registry.retain_flagged(&vec![true, true, true]), 0);
    assert_eq!(handles(&registry), vec![10, 11, 12]);
}

#[test]
fn retain_flagged_with_all_false_empties_the_table() {
    let mut registry = three();
    assert_eq!(registry.retain_flagged(&vec![false, false, false]), 3);
    assert_eq!(registry.len(), 0);
}

#[test]
fn retain_flagged_keeps_entries_without_a_flag() {
    let mut registry = three();
    assert_eq!(registry.retain_flagged(&vec![false]), 1);
    assert_eq!(handles(&registry), vec![11, 12]);
    assert_eq!(registry.retain_flagged(&vec![]), 0);
    assert_eq!(handles(&registry), vec![11, 12]);
}

#[test]
fn retain_flagged_ignores_flags_past_the_end() {
    let mut registry = three();
    assert_eq!(registry.retain_flagged(&vec![true, false, true, false, false]), 1);
    assert_eq!(handles(&registry), vec![10, 12]);
}

#[test]
fn remove_where_filters_by_predicate() {
    let mut registry = three();
    registry.insert(13, v4(1, 4003));
    let removed = registry.remove_where(|entry: &Entry<u32>| entry.handle % 2 == 1);
    assert_eq!(removed, 2);
    assert_eq!(registry.list(), vec![(0, v4(1, 4001)), (1, v4(1, 4003))]);
}

#[test]
fn remove_where_asks_about_every_entry_once_in_order() {
    let mut registry = three();
    let asked: RefCell<Vec<u32>> = RefCell::new(Vec::new());
    let removed = registry.remove_where(|entry: &Entry<u32>| {
        asked.borrow_mut().push(entry.handle);
        true
    });
    assert_eq!(removed, 0);
    assert_eq!(asked.into_inner(), vec![10, 11, 12]);
}

#[test]
fn attempt_all_writes_to_every_entry_in_order() {
    let registry = three();
    let seen: RefCell<Vec<(u32, Vec<u8>)>> = RefCell::new(Vec::new());
    let write = |handle: &u32, bytes: &[u8]| {
        seen.borrow_mut().push((*handle, bytes.to_vec()));
        if *handle == 10 {
            WriteOutcome::Failed
        } else if *handle == 11 {
            WriteOutcome::WouldBlock
        } else {
            WriteOutcome::Written
        }
    };
    let outcomes = registry.attempt_all(b"abc", &write);
    assert_eq!(
        outcomes,
        vec![WriteOutcome::Failed, WriteOutcome::WouldBlock, WriteOutcome::Written]
    );
    assert_eq!(
        seen.into_inner(),
        vec![(10, b"abc".to_vec()), (11, b"abc".to_vec()), (12, b"abc".to_vec())]
    );
}

#[test]
fn attempt_all_on_an_empty_table_writes_nothing() {
    let registry: Registry<u32> = Registry::new();
    let write = |_handle: &u32, _bytes: &[u8]| -> WriteOutcome { panic!("nothing to write to") };
    assert_eq!(registry.attempt_all(b"abc", &write), vec![]);
}
