use citysim::resources::{ResourceKind, ResourceKinds, ResourceStock};
use citysim::storage::{StorageBuilding, StorageConfig, StorageSlots};

fn rice_meat_config() -> StorageConfig {
    StorageConfig {
        name: "Test Storage".to_string(),
        tile_def_name: "test_storage".to_string(),
        min_workers: 0,
        max_workers: 1,
        resources_accepted: ResourceKinds::with_vec(vec![ResourceKind::rice(), ResourceKind::meat()]),
        num_slots: 8,
        slot_capacity: 4,
    }
}

fn slot_kind(s: &StorageSlots, i: usize) -> Option<ResourceKind> {
    s.slots[i].allocated_resource_kind
}

#[test]
fn capacity_query_on_empty_storage() {
    let storage = StorageBuilding::new(rice_meat_config());
    assert_eq!(storage.how_many_can_fit(ResourceKind::rice()), 32);
    assert_eq!(storage.how_many_can_fit(ResourceKind::meat()), 32);
}

#[test]
fn capacity_query_after_two_rice_slots() {
    let mut storage = StorageBuilding::new(rice_meat_config());
    assert_eq!(storage.receive_resources(ResourceKind::rice(), 4), 4);
    assert_eq!(storage.receive_resources(ResourceKind::rice(), 4), 4);
    assert_eq!(storage.how_many_can_fit(ResourceKind::rice()), 24);
    assert_eq!(storage.how_many_can_fit(ResourceKind::meat()), 24);
    assert_eq!(slot_kind(&storage.storage_slots, 0), Some(ResourceKind::rice()));
    assert_eq!(slot_kind(&storage.storage_slots, 1), Some(ResourceKind::rice()));
    assert_eq!(slot_kind(&storage.storage_slots, 2), None);
}

#[test]
fn receive_clamps_to_slot_capacity() {
    let mut storage = StorageBuilding::new(rice_meat_config());
    assert_eq!(storage.receive_resources(ResourceKind::rice(), 3), 3);
    // Only one unit of room is left in the first rice slot.
    assert_eq!(storage.receive_resources(ResourceKind::rice(), 10), 1);
    assert_eq!(storage.storage_slots.slot_resource_count(0, ResourceKind::rice()), 4);
    assert_eq!(storage.how_many_can_fit(ResourceKind::rice()), 28);
}

#[test]
fn receive_zero_leaves_slot_free() {
    let mut storage = StorageBuilding::new(rice_meat_config());
    assert_eq!(storage.receive_resources(ResourceKind::meat(), 0), 0);
    assert_eq!(slot_kind(&storage.storage_slots, 0), None);
    assert!(storage.storage_slots.is_slot_free(0));
}

#[test]
fn receive_into_full_storage_takes_nothing() {
    let mut storage = StorageBuilding::new(rice_meat_config());
    for _ in 0..8 {
        assert_eq!(storage.receive_resources(ResourceKind::rice(), 4), 4);
    }
    assert!(storage.is_full());
    assert_eq!(storage.receive_resources(ResourceKind::rice(), 1), 0);
    assert_eq!(storage.receive_resources(ResourceKind::meat(), 1), 0);
    assert_eq!(storage.how_many_can_fit(ResourceKind::meat()), 0);
}

#[test]
fn slot_invariant_holds_over_operations() {
    let mut storage = StorageBuilding::new(rice_meat_config());
    storage.receive_resources(ResourceKind::rice(), 2);
    storage.receive_resources(ResourceKind::meat(), 5);
    storage.storage_slots.decrement_slot_resource_count(0, ResourceKind::rice(), 7);
    for i in 0..storage.storage_slots.num_slots() {
        let slot = &storage.storage_slots.slots[i];
        let count = match slot.allocated_resource_kind {
            Some(k) => slot.stock.count(k),
            None => 0,
        };
        assert!(count <= 4);
        assert_eq!(slot.allocated_resource_kind.is_none(), count == 0);
    }
}

#[test]
fn decrement_releases_empty_slot() {
    let mut storage = StorageBuilding::new(rice_meat_config());
    storage.receive_resources(ResourceKind::rice(), 2);
    assert_eq!(storage.storage_slots.decrement_slot_resource_count(0, ResourceKind::rice(), 1), 1);
    assert_eq!(slot_kind(&storage.storage_slots, 0), Some(ResourceKind::rice()));
    assert_eq!(storage.storage_slots.decrement_slot_resource_count(0, ResourceKind::rice(), 5), 0);
    assert_eq!(slot_kind(&storage.storage_slots, 0), None);
    // The released slot now takes another kind.
    assert_eq!(storage.receive_resources(ResourceKind::meat(), 1), 1);
    assert_eq!(slot_kind(&storage.storage_slots, 0), Some(ResourceKind::meat()));
}

#[test]
fn find_resource_slot_matches_exact_kind_only() {
    let mut storage = StorageBuilding::new(rice_meat_config());
    storage.receive_resources(ResourceKind::meat(), 1);
    storage.receive_resources(ResourceKind::rice(), 1);
    assert_eq!(storage.storage_slots.find_resource_slot(ResourceKind::rice()), Some(1));
    assert_eq!(storage.storage_slots.find_resource_slot(ResourceKind::meat()), Some(0));
    assert_eq!(storage.storage_slots.find_resource_slot(ResourceKind::foods()), None);
    assert_eq!(storage.storage_slots.find_free_slot(), Some(2));
}

#[test]
fn shop_all_or_nothing_with_missing_kind_takes_nothing() {
    let mut storage = StorageBuilding::new(rice_meat_config());
    storage.receive_resources(ResourceKind::rice(), 1);
    let mut basket = ResourceStock::new();
    let list = ResourceKinds::with_vec(vec![ResourceKind::rice(), ResourceKind::meat()]);
    let taken = storage.shop(&mut basket, &list, true);
    assert_eq!(taken, ResourceKind::empty());
    assert_eq!(basket.count(ResourceKind::rice()), 0);
    assert_eq!(storage.storage_slots.slot_resource_count(0, ResourceKind::rice()), 1);
}

#[test]
fn shop_all_or_nothing_with_everything_present() {
    let mut storage = StorageBuilding::new(rice_meat_config());
    storage.receive_resources(ResourceKind::rice(), 1);
    let mut basket = ResourceStock::new();
    let list = ResourceKinds::with_vec(vec![ResourceKind::rice()]);
    let taken = storage.shop(&mut basket, &list, true);
    assert!(taken.contains(ResourceKind::rice()));
    assert_eq!(taken, ResourceKind::rice());
    assert_eq!(basket.count(ResourceKind::rice()), 1);
    assert_eq!(storage.storage_slots.slot_resource_count(0, ResourceKind::rice()), 0);
    assert!(storage.storage_slots.is_slot_free(0));
}

#[test]
fn shop_partial_takes_what_is_there() {
    let mut storage = StorageBuilding::new(rice_meat_config());
    storage.receive_resources(ResourceKind::rice(), 3);
    let mut basket = ResourceStock::new();
    let list = ResourceKinds::with_vec(vec![ResourceKind::rice(), ResourceKind::meat()]);
    let taken = storage.shop(&mut basket, &list, false);
    assert_eq!(taken, ResourceKind::rice());
    assert_eq!(basket.count(ResourceKind::rice()), 1);
    assert_eq!(basket.count(ResourceKind::meat()), 0);
    assert_eq!(storage.storage_slots.slot_resource_count(0, ResourceKind::rice()), 2);
}

#[test]
fn shop_two_kinds_sets_both_bits() {
    let mut storage = StorageBuilding::new(rice_meat_config());
    storage.receive_resources(ResourceKind::rice(), 2);
    storage.receive_resources(ResourceKind::meat(), 2);
    let mut basket = ResourceStock::new();
    let list = ResourceKinds::with_vec(vec![ResourceKind::rice(), ResourceKind::meat()]);
    let taken = storage.shop(&mut basket, &list, true);
    assert_eq!(taken.bits, ResourceKind::rice().bits | ResourceKind::meat().bits);
    assert_eq!(basket.count(ResourceKind::rice()), 1);
    assert_eq!(basket.count(ResourceKind::meat()), 1);
}

#[test]
fn stock_add_and_remove() {
    let mut stock = ResourceStock::with_accepted_list(&ResourceKinds::foods());
    assert_eq!(stock.count(ResourceKind::fish()), 0);
    stock.add(ResourceKind::fish());
    stock.add(ResourceKind::fish());
    assert_eq!(stock.count(ResourceKind::fish()), 2);
    assert_eq!(stock.remove(ResourceKind::fish(), 5), 2);
    assert_eq!(stock.count(ResourceKind::fish()), 0);
    assert!(stock.is_empty());
    stock.add(ResourceKind::wood());
    assert_eq!(stock.count(ResourceKind::wood()), 1);
}

#[test]
fn shop_repeated_kind_takes_one_unit_per_entry() {
    let mut storage = StorageBuilding::new(rice_meat_config());
    storage.receive_resources(ResourceKind::rice(), 4);
    storage.receive_resources(ResourceKind::rice(), 1);
    let mut basket = ResourceStock::new();
    let list = ResourceKinds::with_vec(vec![
        ResourceKind::rice(),
        ResourceKind::rice(),
        ResourceKind::rice(),
        ResourceKind::rice(),
        ResourceKind::rice(),
        ResourceKind::rice(),
    ]);
    let taken = storage.shop(&mut basket, &list, true);
    assert_eq!(taken, ResourceKind::rice());
    // Five units were stored: the first slot drains, then the second.
    assert_eq!(basket.count(ResourceKind::rice()), 5);
    assert!(storage.storage_slots.is_slot_free(0));
    assert!(storage.storage_slots.is_slot_free(1));
}

#[test]
fn shop_repeated_kind_drains_first_slot_first() {
    let mut storage = StorageBuilding::new(rice_meat_config());
    storage.receive_resources(ResourceKind::rice(), 4);
    storage.receive_resources(ResourceKind::rice(), 2);
    let mut basket = ResourceStock::new();
    let list = ResourceKinds::with_vec(vec![ResourceKind::rice(), ResourceKind::rice()]);
    storage.shop(&mut basket, &list, false);
    assert_eq!(storage.storage_slots.slot_resource_count(0, ResourceKind::rice()), 2);
    assert_eq!(storage.storage_slots.slot_resource_count(1, ResourceKind::rice()), 2);
    assert_eq!(basket.count(ResourceKind::rice()), 2);
}
