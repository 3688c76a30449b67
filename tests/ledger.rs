use rebels::resources::Resource;
use rebels::types::{ResourceMap, StorableResourceMap, WorldError};

#[test]
fn empty_ledger_reads_zero() {
    let m = ResourceMap::new();
    for r in [Resource::SATOSHI, Resource::GOLD, Resource::SCRAPS, Resource::FUEL, Resource::RUM] {
        assert_eq!(m.value(&r), 0);
    }
    assert_eq!(m.used_storage_capacity(), 0);
}

#[test]
fn storing_space_per_kind() {
    assert_eq!(Resource::SATOSHI.to_storing_space(), 0);
    assert_eq!(Resource::GOLD.to_storing_space(), 2);
    assert_eq!(Resource::SCRAPS.to_storing_space(), 10);
    assert_eq!(Resource::FUEL.to_storing_space(), 0);
    assert_eq!(Resource::RUM.to_storing_space(), 1);
    assert_eq!(Resource::GOLD.name(), "Gold");
}

#[test]
fn used_capacity_is_weighted_sum() {
    let mut m = ResourceMap::new();
    m.add(Resource::SCRAPS, 178, 10_000).unwrap();
    m.add(Resource::RUM, 11, 10_000).unwrap();
    m.add(Resource::GOLD, 1, 10_000).unwrap();
    m.add(Resource::FUEL, 50, 10_000).unwrap();
    m.add(Resource::SATOSHI, 1000, 10_000).unwrap();
    assert_eq!(m.used_storage_capacity(), 1780 + 11 + 2);
    assert_eq!(Resource::used_storage_capacity(&m), 1793);
}

#[test]
fn add_within_capacity() {
    let mut m = ResourceMap::new();
    assert_eq!(m.add(Resource::GOLD, 5, 10), Ok(()));
    assert_eq!(m.value(&Resource::GOLD), 5);
    assert_eq!(m.used_storage_capacity(), 10);
}

#[test]
fn add_over_capacity_is_refused_unchanged() {
    let mut m = ResourceMap::new();
    m.add(Resource::RUM, 5, 10).unwrap();
    let before = m;
    assert_eq!(m.add(Resource::GOLD, 3, 10), Err(WorldError::CapacityExceeded));
    assert_eq!(m, before);
    assert!(m.used_storage_capacity() <= 10);
}

#[test]
fn saturating_add_clamps_to_free_space() {
    let mut m = ResourceMap::new();
    m.add(Resource::RUM, 3, 25).unwrap();
    m.saturating_add(Resource::SCRAPS, 100, 25);
    assert_eq!(m.value(&Resource::SCRAPS), 2);
    assert!(m.used_storage_capacity() <= 25);
    m.saturating_add(Resource::FUEL, 70, 25);
    assert_eq!(m.value(&Resource::FUEL), 70);
}

#[test]
fn saturating_add_over_full_adds_nothing() {
    let mut m = ResourceMap::new();
    m.add(Resource::RUM, 30, 30).unwrap();
    m.saturating_add(Resource::GOLD, 4, 20);
    assert_eq!(m.value(&Resource::GOLD), 0);
}

#[test]
fn sub_more_than_held_is_refused_unchanged() {
    let mut m = ResourceMap::new();
    m.add(Resource::RUM, 4, 100).unwrap();
    let before = m;
    assert_eq!(m.sub(Resource::RUM, 5), Err(WorldError::InsufficientResources));
    assert_eq!(m, before);
    assert_eq!(m.sub(Resource::RUM, 4), Ok(()));
    assert_eq!(m.value(&Resource::RUM), 0);
}

#[test]
fn saturating_sub_floors_at_zero() {
    let mut m = ResourceMap::new();
    m.add(Resource::GOLD, 4, 100).unwrap();
    m.saturating_sub(Resource::GOLD, 10);
    assert_eq!(m.value(&Resource::GOLD), 0);
    m.add(Resource::GOLD, 4, 100).unwrap();
    m.saturating_sub(Resource::GOLD, 1);
    assert_eq!(m.value(&Resource::GOLD), 3);
}

#[test]
fn update_routes_by_sign() {
    let mut m = ResourceMap::new();
    assert_eq!(m.update(Resource::SCRAPS, 3, 40), Ok(()));
    assert_eq!(m.value(&Resource::SCRAPS), 3);
    assert_eq!(m.update(Resource::SCRAPS, -2, 40), Ok(()));
    assert_eq!(m.value(&Resource::SCRAPS), 1);
    assert_eq!(m.update(Resource::SCRAPS, 0, 40), Ok(()));
    assert_eq!(m.value(&Resource::SCRAPS), 1);
    assert_eq!(m.update(Resource::SCRAPS, 4, 40), Err(WorldError::CapacityExceeded));
    assert_eq!(m.update(Resource::SCRAPS, -2, 40), Err(WorldError::InsufficientResources));
    assert_eq!(m.update(Resource::SCRAPS, i32::MIN, 40), Err(WorldError::InsufficientResources));
    assert_eq!(m.value(&Resource::SCRAPS), 1);
}

#[test]
fn checked_add_past_u32_is_refused() {
    let mut m = ResourceMap::new();
    m.add(Resource::SATOSHI, u32::MAX - 5, 0).unwrap();
    assert_eq!(m.add(Resource::SATOSHI, 10, 0), Err(WorldError::CapacityExceeded));
    assert_eq!(m.value(&Resource::SATOSHI), u32::MAX - 5);
    assert_eq!(m.update(Resource::FUEL, 3, 0), Ok(()));
}

#[test]
fn saturating_add_of_weightless_kind_stops_at_max() {
    let mut m = ResourceMap::new();
    m.add(Resource::SATOSHI, u32::MAX - 5, 0).unwrap();
    m.saturating_add(Resource::SATOSHI, 10, 0);
    assert_eq!(m.value(&Resource::SATOSHI), u32::MAX);
}
