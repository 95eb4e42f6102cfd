use zink::codegen::registry::{AllocationError, Registry, StorageKind};

#[test]
fn distinct_names_get_consecutive_slots() {
    let mut registry = Registry::new();
    let names = ["Counter", "Balances", "Owner", "TotalSupply", "Allowances"];
    for (expected, name) in names.iter().enumerate() {
        assert_eq!(
            registry.allocate(StorageKind::Persistent, name),
            Ok(expected as i32)
        );
    }
}

#[test]
fn a_name_gets_no_second_slot() {
    let mut registry = Registry::new();
    assert_eq!(registry.allocate(StorageKind::Persistent, "Counter"), Ok(0));
    assert_eq!(registry.allocate(StorageKind::Persistent, "Other"), Ok(1));
    assert_eq!(
        registry.allocate(StorageKind::Persistent, "Counter"),
        Err(AllocationError::Duplicate)
    );
    assert_eq!(registry.allocate(StorageKind::Persistent, "Third"), Ok(2));
}

#[test]
fn namespaces_count_on_their_own() {
    let mut registry = Registry::new();
    assert_eq!(registry.allocate(StorageKind::Persistent, "Counter"), Ok(0));
    assert_eq!(registry.allocate(StorageKind::Transient, "Counter"), Ok(0));
    assert_eq!(registry.allocate(StorageKind::Persistent, "Owner"), Ok(1));
    assert_eq!(registry.allocate(StorageKind::Transient, "Lock"), Ok(1));
    assert_eq!(
        registry.allocate(StorageKind::Transient, "Counter"),
        Err(AllocationError::Duplicate)
    );
}

#[test]
fn names_differ_by_case() {
    let mut registry = Registry::new();
    assert_eq!(registry.allocate(StorageKind::Persistent, "counter"), Ok(0));
    assert_eq!(registry.allocate(StorageKind::Persistent, "Counter"), Ok(1));
}
