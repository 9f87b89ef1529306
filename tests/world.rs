use citysim::building::{BuildingArchetype, BuildingArchetypeKind, BuildingKind};
use citysim::config::BuildingConfigs;
use citysim::map::TileMap;
use citysim::placement::TileSets;
use citysim::resources::ResourceKind;
use citysim::tiles::{Cell, CellRange, GameStateHandle, TileDef, TileKind, TileMapLayerKind};
use citysim::unit::{UnitConfig, UnitConfigs};
use citysim::world::{EntityRef, World, UNIT_GAME_STATE_KIND};
use citysim::sim::Query;

fn building_def(name: &str, w: i32, h: i32) -> TileDef {
    TileDef {
        name: name.to_string(),
        category: "buildings".to_string(),
        kind: TileKind::building(),
        size_w: w,
        size_h: h,
    }
}

fn unit_def(name: &str) -> TileDef {
    TileDef {
        name: name.to_string(),
        category: "units".to_string(),
        kind: TileKind::unit(),
        size_w: 1,
        size_h: 1,
    }
}

fn new_world() -> World {
    let unit_configs = UnitConfigs::new(vec![UnitConfig {
        name: "Runner".to_string(),
        tile_def_name: "ped".to_string(),
    }]);
    World::new(BuildingConfigs::load(), unit_configs)
}

#[test]
fn handle_round_trip_for_granary() {
    let mut world = new_world();
    let mut map = TileMap::new(8, 8);
    let cell = Cell::new(2, 3);
    let index = world.try_spawn_building_with_tile_def(&mut map, cell, &building_def("granary", 1, 1)).unwrap();
    let tile = map.find_tile(cell, TileMapLayerKind::Objects, TileKind::building()).unwrap();
    let kind = BuildingKind::from_game_state_handle(tile.game_state_handle());
    assert_eq!(kind, BuildingKind::granary());
    assert_eq!(tile.game_state_handle(), GameStateHandle::new(index, BuildingKind::granary().bits));
    let building = world.find_building_for_tile(tile).unwrap();
    assert_eq!(building.kind(), BuildingKind::granary());
    assert_eq!(building.archetype_kind(), BuildingArchetypeKind::Storage);
    assert_eq!(building.base_cell(), cell);

    world.despawn_building_at_cell(&mut map, cell).unwrap();
    let tile = map.try_tile_from_layer(cell, TileMapLayerKind::Objects).unwrap();
    assert!(!tile.game_state_handle().is_valid());
    assert!(tile.is_empty());
    assert!(world.find_building_for_cell(cell, &map).is_none());
}

#[test]
fn buildings_go_to_the_list_of_their_archetype() {
    let mut world = new_world();
    let mut map = TileMap::new(9, 9);
    world.try_spawn_building_with_tile_def(&mut map, Cell::new(1, 1), &building_def("house0", 1, 1)).unwrap();
    world.try_spawn_building_with_tile_def(&mut map, Cell::new(3, 1), &building_def("well_big", 1, 1)).unwrap();
    world.try_spawn_building_with_tile_def(&mut map, Cell::new(5, 1), &building_def("market", 1, 1)).unwrap();
    world.try_spawn_building_with_tile_def(&mut map, Cell::new(1, 4), &building_def("rice_farm", 1, 1)).unwrap();
    world.try_spawn_building_with_tile_def(&mut map, Cell::new(5, 5), &building_def("granary", 1, 1)).unwrap();
    let archetypes = [
        BuildingArchetypeKind::Producer,
        BuildingArchetypeKind::Storage,
        BuildingArchetypeKind::Service,
        BuildingArchetypeKind::House,
    ];
    let mut total = 0;
    for a in archetypes {
        let list = world.buildings_list(a);
        assert_eq!(list.archetype_kind(), a);
        for b in list.iter() {
            assert_eq!(b.archetype_kind(), a);
            total += 1;
        }
    }
    assert_eq!(total, 5);
    assert_eq!(world.buildings_list(BuildingArchetypeKind::Service).iter().len(), 2);
}

#[test]
fn spawning_on_an_occupied_cell_fails_and_changes_nothing() {
    let mut world = new_world();
    let mut map = TileMap::new(8, 8);
    let cell = Cell::new(4, 4);
    world.try_spawn_building_with_tile_def(&mut map, cell, &building_def("market", 1, 1)).unwrap();
    assert!(world.try_spawn_building_with_tile_def(&mut map, cell, &building_def("well_small", 1, 1)).is_err());
    let tile = map.find_tile(cell, TileMapLayerKind::Objects, TileKind::building()).unwrap();
    assert_eq!(tile.name(), "market");
    assert_eq!(world.buildings_list(BuildingArchetypeKind::Service).iter().len(), 1);
}

#[test]
fn spawning_an_unknown_building_fails() {
    let mut world = new_world();
    let mut map = TileMap::new(8, 8);
    let cell = Cell::new(1, 1);
    assert!(world.try_spawn_building_with_tile_def(&mut map, cell, &building_def("castle", 1, 1)).is_err());
    assert!(map.try_tile_from_layer(cell, TileMapLayerKind::Objects).unwrap().is_empty());
}

#[test]
fn spawning_off_the_map_fails() {
    let mut world = new_world();
    let mut map = TileMap::new(4, 4);
    assert!(world.try_spawn_building_with_tile_def(&mut map, Cell::new(4, 0), &building_def("market", 1, 1)).is_err());
    assert!(world.try_spawn_building_with_tile_def(&mut map, Cell::new(3, 3), &building_def("market", 2, 2)).is_err());
}

#[test]
fn multi_cell_building_blocks_and_clears_its_footprint() {
    let mut world = new_world();
    let mut map = TileMap::new(8, 8);
    let base = Cell::new(2, 2);
    world.try_spawn_building_with_tile_def(&mut map, base, &building_def("storage_yard", 2, 2)).unwrap();
    let blocker = map.try_tile_from_layer(Cell::new(3, 3), TileMapLayerKind::Objects).unwrap();
    assert!(blocker.is(TileKind::blocker()));
    assert_eq!(blocker.base_cell(), base);
    // A footprint cell is occupied.
    assert!(world.try_spawn_building_with_tile_def(&mut map, Cell::new(3, 2), &building_def("market", 1, 1)).is_err());
    let building = world.find_building_for_cell(base, &map).unwrap();
    assert_eq!(building.cell_range(), CellRange::new(base, Cell::new(3, 3)));

    world.despawn_building_at_cell(&mut map, base).unwrap();
    for (x, y) in [(2, 2), (3, 2), (2, 3), (3, 3)] {
        assert!(map.try_tile_from_layer(Cell::new(x, y), TileMapLayerKind::Objects).unwrap().is_empty());
    }
}

#[test]
fn despawning_an_empty_cell_fails() {
    let mut world = new_world();
    let mut map = TileMap::new(8, 8);
    assert!(world.despawn_building_at_cell(&mut map, Cell::new(1, 1)).is_err());
    assert!(world.despawn_unit_at_cell(&mut map, Cell::new(1, 1)).is_err());
}

#[test]
fn despawning_a_vacant_index_fails_after_clearing_the_tile() {
    let mut world = new_world();
    let mut map = TileMap::new(8, 8);
    let cell = Cell::new(1, 1);
    world.try_spawn_building_with_tile_def(&mut map, cell, &building_def("house0", 1, 1)).unwrap();
    world.reset();
    assert!(world.despawn_building_at_cell(&mut map, cell).is_err());
    assert!(map.try_tile_from_layer(cell, TileMapLayerKind::Objects).unwrap().is_empty());
}

#[test]
fn building_indices_are_stable_and_reused() {
    let mut world = new_world();
    let mut map = TileMap::new(8, 8);
    let a = world.try_spawn_building_with_tile_def(&mut map, Cell::new(0, 0), &building_def("market", 1, 1)).unwrap();
    let b = world.try_spawn_building_with_tile_def(&mut map, Cell::new(1, 0), &building_def("well_small", 1, 1)).unwrap();
    assert_ne!(a, b);
    world.despawn_building_at_cell(&mut map, Cell::new(0, 0)).unwrap();
    let list = world.buildings_list(BuildingArchetypeKind::Service);
    assert!(list.try_get(a).is_none());
    assert_eq!(list.try_get(b).unwrap().kind(), BuildingKind::well_small());
    let c = world.try_spawn_building_with_tile_def(&mut map, Cell::new(2, 0), &building_def("well_big", 1, 1)).unwrap();
    assert_eq!(c, a);
}

#[test]
fn find_building_by_name() {
    let mut world = new_world();
    let mut map = TileMap::new(8, 8);
    world.try_spawn_building_with_tile_def(&mut map, Cell::new(0, 0), &building_def("well_big", 1, 1)).unwrap();
    let name = "Well Big".to_string();
    let found = world.find_building_by_name(&name, BuildingArchetypeKind::Service).unwrap();
    assert_eq!(found.kind(), BuildingKind::well_big());
    assert!(world.find_building_by_name(&name, BuildingArchetypeKind::House).is_none());
}

#[test]
fn units_spawn_despawn_and_reuse_slots() {
    let mut world = new_world();
    let mut map = TileMap::new(8, 8);
    let first = world.try_spawn_unit_with_tile_def(&mut map, Cell::new(1, 1), &unit_def("ped")).unwrap();
    let second = world.try_spawn_unit_with_tile_def(&mut map, Cell::new(2, 1), &unit_def("ped")).unwrap();
    assert_eq!(first, 0);
    assert_eq!(second, 1);
    let tile = map.find_tile(Cell::new(1, 1), TileMapLayerKind::Objects, TileKind::unit()).unwrap();
    assert_eq!(tile.game_state_handle(), GameStateHandle::new(0, UNIT_GAME_STATE_KIND));
    let unit = world.find_unit_for_tile(tile).unwrap();
    assert_eq!(unit.name(), "Runner");
    assert_eq!(unit.cell(), Cell::new(1, 1));

    world.despawn_unit_at_cell(&mut map, Cell::new(1, 1)).unwrap();
    assert!(world.unit_spawn_pool.try_get(first).is_none());
    assert!(world.find_unit_for_cell(Cell::new(1, 1), &map).is_none());
    assert_eq!(world.unit_spawn_pool.try_get(second).unwrap().cell(), Cell::new(2, 1));

    let third = world.try_spawn_unit_with_tile_def(&mut map, Cell::new(3, 1), &unit_def("ped")).unwrap();
    assert_eq!(third, first);
    assert_eq!(world.unit_spawn_pool.try_get(third).unwrap().cell(), Cell::new(3, 1));
    assert!(world.find_unit_by_name(&"Runner".to_string()).is_some());
}

#[test]
fn unit_cannot_stand_on_a_building() {
    let mut world = new_world();
    let mut map = TileMap::new(8, 8);
    world.try_spawn_building_with_tile_def(&mut map, Cell::new(1, 1), &building_def("market", 1, 1)).unwrap();
    assert!(world.try_spawn_unit_with_tile_def(&mut map, Cell::new(1, 1), &unit_def("ped")).is_err());
    assert!(world.try_spawn_unit_with_tile_def(&mut map, Cell::new(2, 1), &unit_def("cart")).is_err());
}

#[test]
fn unit_spawn_by_config_uses_the_catalog() {
    let mut world = new_world();
    let mut map = TileMap::new(8, 8);
    let tile_sets = TileSets::new(vec![unit_def("ped")]);
    let index = world
        .try_spawn_unit_with_config(&mut map, &tile_sets, Cell::new(4, 4), &"Runner".to_string())
        .unwrap();
    assert!(world.unit_spawn_pool.try_get(index).is_some());
    assert!(world
        .try_spawn_unit_with_config(&mut map, &tile_sets, Cell::new(5, 4), &"Nobody".to_string())
        .is_err());
}

#[test]
fn storage_visit_unloads_cargo_and_asks_for_despawn() {
    let mut world = new_world();
    let mut map = TileMap::new(8, 8);
    let index = world.try_spawn_unit_with_tile_def(&mut map, Cell::new(1, 1), &unit_def("ped")).unwrap();
    let configs = BuildingConfigs::load();
    let mut granary = citysim::storage::StorageBuilding::new(configs.storage_granary.clone());
    let unit = world.unit_spawn_pool.try_get_mut(index).unwrap();
    unit.load_cargo(ResourceKind::rice(), 3);
    assert!(granary.visited_by(unit));
    assert!(unit.is_inventory_empty());
    assert_eq!(granary.how_many_can_fit(ResourceKind::rice()), 29);

    // Wood is not stored in a granary: the unit keeps it.
    let unit = world.unit_spawn_pool.try_get_mut(index).unwrap();
    unit.load_cargo(ResourceKind::wood(), 2);
    assert!(!granary.visited_by(unit));
    assert!(!unit.is_inventory_empty());
}

#[test]
fn query_finds_first_building_in_scan_order() {
    let mut world = new_world();
    let mut map = TileMap::new(10, 10);
    world.try_spawn_building_with_tile_def(&mut map, Cell::new(6, 2), &building_def("well_small", 1, 1)).unwrap();
    world.try_spawn_building_with_tile_def(&mut map, Cell::new(2, 3), &building_def("well_small", 1, 1)).unwrap();
    let tile_sets = TileSets::new(vec![]);
    let query = Query::new(&map, &tile_sets, &world);
    let start = CellRange::new(Cell::new(4, 4), Cell::new(4, 4));
    assert!(query.is_near_building(start, BuildingKind::well_small(), 2));
    assert!(!query.is_near_building(start, BuildingKind::market(), 5));
    assert_eq!(query.find_building_cell(start, BuildingKind::well_small(), 2), Some(Cell::new(6, 2)));
    let found = query.find_nearest_building(start, BuildingKind::well_small(), 2).unwrap();
    assert_eq!(found.base_cell(), Cell::new(6, 2));
    assert!(!query.is_near_building(start, BuildingKind::well_small(), 1));
    assert!(query.find_nearest_building(start, BuildingKind::well_small(), 1).is_none());
}

#[test]
fn terrain_tile_def_cannot_spawn_a_building_or_unit() {
    let mut world = new_world();
    let mut map = TileMap::new(8, 8);
    let mut def = building_def("market", 1, 1);
    def.kind = TileKind { bits: TileKind::building().bits | TileKind::terrain().bits };
    assert!(world.try_spawn_building_with_tile_def(&mut map, Cell::new(1, 1), &def).is_err());
    let mut udef = unit_def("ped");
    udef.kind = TileKind { bits: TileKind::unit().bits | TileKind::building().bits };
    assert!(world.try_spawn_unit_with_tile_def(&mut map, Cell::new(1, 1), &udef).is_err());
    assert!(map.try_tile_from_layer(Cell::new(1, 1), TileMapLayerKind::Objects).unwrap().is_empty());
}

#[test]
fn update_visits_units_then_lists_in_key_order() {
    let mut world = new_world();
    let mut map = TileMap::new(8, 8);
    let g = world.try_spawn_building_with_tile_def(&mut map, Cell::new(0, 0), &building_def("granary", 1, 1)).unwrap();
    let h = world.try_spawn_building_with_tile_def(&mut map, Cell::new(1, 0), &building_def("house0", 1, 1)).unwrap();
    let f = world.try_spawn_building_with_tile_def(&mut map, Cell::new(2, 0), &building_def("rice_farm", 1, 1)).unwrap();
    let u0 = world.try_spawn_unit_with_tile_def(&mut map, Cell::new(3, 3), &unit_def("ped")).unwrap();
    let u1 = world.try_spawn_unit_with_tile_def(&mut map, Cell::new(4, 3), &unit_def("ped")).unwrap();
    world.despawn_unit_at_cell(&mut map, Cell::new(3, 3)).unwrap();
    let order = world.update(500);
    assert_eq!(
        order,
        vec![
            EntityRef::Unit(u1),
            EntityRef::Building(BuildingArchetypeKind::Producer, f),
            EntityRef::Building(BuildingArchetypeKind::Storage, g),
            EntityRef::Building(BuildingArchetypeKind::House, h),
        ]
    );
    assert_ne!(u0, u1);
}

#[test]
fn spawned_granary_carries_the_granary_config() {
    let mut world = new_world();
    let mut map = TileMap::new(8, 8);
    world.try_spawn_building_with_tile_def(&mut map, Cell::new(0, 0), &building_def("granary", 1, 1)).unwrap();
    let b = world.find_building_for_cell(Cell::new(0, 0), &map).unwrap();
    match &b.archetype {
        BuildingArchetype::Storage(s) => {
            assert_eq!(s.config.name, "Granary");
            assert_eq!(s.config.resources_accepted.len(), 3);
            assert_eq!(s.how_many_can_fit(ResourceKind::rice()), 32);
        }
        _ => panic!("a granary is a storage building"),
    }
}
