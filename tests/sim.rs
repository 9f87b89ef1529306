use citysim::building::{BuildingKind, HouseLevel};
use citysim::config::BuildingConfigs;
use citysim::map::TileMap;
use citysim::placement::{
    cells_overlap, try_clear_tile_at_cursor, try_clear_tile_from_layer, try_place_tile_at_cursor,
    try_place_tile_in_layer,
};
use citysim::resources::ResourceKind;
use citysim::sim::{Simulation, UpdateTimer, UpdateTimerResult};
use citysim::tiles::{Cell, TileDef, TileKind, TileMapLayerKind};
use citysim::unit::UnitSpawnPool;
use citysim::unit::UnitConfig;

#[test]
fn fixed_step_fires_once_on_the_crossing_tick() {
    let mut timer = UpdateTimer::new(500);
    assert_eq!(timer.tick(200), UpdateTimerResult::DoNotUpdate);
    assert_eq!(timer.tick(200), UpdateTimerResult::DoNotUpdate);
    assert_eq!(timer.time_since_last_ms(), 400);
    assert!(timer.tick(200).should_update());
    assert_eq!(timer.time_since_last_ms(), 0);
    assert!(!timer.tick(200).should_update());
}

#[test]
fn simulation_reports_the_accumulated_step() {
    let mut sim = Simulation::new();
    assert_eq!(sim.update(200), None);
    assert_eq!(sim.update(200), None);
    assert_eq!(sim.update(200), Some(600));
    assert_eq!(sim.update_timer.time_since_last_ms(), 0);
    // One long frame still fires a single update.
    assert_eq!(sim.update(1700), Some(1700));
}

#[test]
fn configs_load_the_built_in_table() {
    let configs = BuildingConfigs::load();
    assert_eq!(configs.find_house_config().stock_update_frequency_ms, 20_000);
    assert_eq!(configs.find_house_level_config(HouseLevel::Level1).max_residents, 4);
    assert_eq!(configs.find_house_level_config(HouseLevel::Level2).tax_generated, 2);
    assert_eq!(configs.find_service_config(BuildingKind::well_big()).effect_radius, 5);
    assert_eq!(configs.find_service_config(BuildingKind::well_small()).name, "Well Small");
    assert_eq!(configs.find_storage_config(BuildingKind::granary()).slot_capacity, 4);
    assert_eq!(configs.find_storage_config(BuildingKind::storage_yard()).name, "Storage Yard");
    let farm = configs.find_producer_config(BuildingKind::farm(), &"livestock_farm".to_string());
    assert_eq!(farm.production_output, ResourceKind::meat());
    let farm = configs.find_producer_config(BuildingKind::farm(), &"rice_farm".to_string());
    assert_eq!(farm.production_output, ResourceKind::rice());
}

#[test]
fn cells_overlap_finds_a_shared_cell() {
    let a = vec![Cell::new(0, 0), Cell::new(1, 0)];
    let b = vec![Cell::new(2, 0), Cell::new(1, 0)];
    let c = vec![Cell::new(5, 5)];
    assert!(cells_overlap(&a, &b));
    assert!(!cells_overlap(&a, &c));
    assert!(!cells_overlap(&a, &vec![]));
}

#[test]
fn placement_in_layers_and_at_cursor() {
    let mut map = TileMap::new(6, 6);
    let grass = TileDef {
        name: "grass".to_string(),
        category: "ground".to_string(),
        kind: TileKind::terrain(),
        size_w: 1,
        size_h: 1,
    };
    let house = TileDef {
        name: "house0".to_string(),
        category: "buildings".to_string(),
        kind: TileKind::building(),
        size_w: 2,
        size_h: 1,
    };
    assert!(try_place_tile_in_layer(&mut map, TileMapLayerKind::Terrain, Cell::new(0, 0), &grass));
    assert!(try_place_tile_in_layer(&mut map, TileMapLayerKind::Objects, Cell::new(0, 0), &house));
    assert!(map.has_tile(Cell::new(1, 0), TileMapLayerKind::Objects, TileKind::blocker()));
    assert!(!try_place_tile_at_cursor(&mut map, Cell::new(1, 0), &house));
    assert!(!try_place_tile_at_cursor(&mut map, Cell::new(5, 5), &house));
    assert!(!try_place_tile_at_cursor(&mut map, Cell::new(9, 9), &house));
    assert!(try_place_tile_at_cursor(&mut map, Cell::new(3, 3), &house));

    // Clearing at the cursor takes the objects layer first.
    assert!(try_clear_tile_at_cursor(&mut map, Cell::new(1, 0), Cell::new(0, 0)));
    assert!(map.try_tile_from_layer(Cell::new(0, 0), TileMapLayerKind::Objects).unwrap().is_empty());
    assert!(map.has_tile(Cell::new(0, 0), TileMapLayerKind::Terrain, TileKind::terrain()));
    assert!(try_clear_tile_at_cursor(&mut map, Cell::new(0, 0), Cell::new(0, 0)));
    assert!(!map.has_tile(Cell::new(0, 0), TileMapLayerKind::Terrain, TileKind::terrain()));
    assert!(!try_clear_tile_at_cursor(&mut map, Cell::new(0, 0), Cell::new(0, 0)));

    assert!(try_clear_tile_from_layer(&mut map, TileMapLayerKind::Objects, Cell::new(4, 3)));
    assert!(map.try_tile_from_layer(Cell::new(3, 3), TileMapLayerKind::Objects).unwrap().is_empty());
}

#[test]
fn pool_index_stability() {
    let config = UnitConfig { name: "Runner".to_string(), tile_def_name: "ped".to_string() };
    let mut pool = UnitSpawnPool::new(2);
    let a = pool.spawn(Cell::new(0, 0), &config);
    let b = pool.spawn(Cell::new(1, 0), &config);
    let c = pool.spawn(Cell::new(2, 0), &config);
    assert_eq!((a, b, c), (0, 1, 2));
    assert_eq!(pool.num_slots(), 3);
    assert_eq!(pool.try_get(b).unwrap().cell(), Cell::new(1, 0));
    pool.despawn_index(a);
    assert!(pool.try_get(a).is_none());
    assert_eq!(pool.try_get(b).unwrap().spawn_pool_index(), b);
    assert_eq!(pool.iter().len(), 2);
    let d = pool.spawn(Cell::new(3, 0), &config);
    assert_eq!(d, a);
    assert_eq!(pool.try_get(d).unwrap().cell(), Cell::new(3, 0));
    assert_eq!(pool.live_indices(), vec![0, 1, 2]);
    pool.clear();
    assert!(pool.iter().is_empty());
    assert_eq!(pool.num_slots(), 3);
    assert!(pool.is_valid());
}
