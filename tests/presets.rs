use citysim::building::{Building, BuildingArchetype, BuildingArchetypeKind, BuildingKind, ServiceBuilding};
use citysim::building_list::BuildingList;
use citysim::config::{instantiate, BuildingConfigs};
use citysim::placement::TileSets;
use citysim::presets::{build_tile_map, find_tile, preset_tiles_0};
use citysim::resources::{ResourceKind, ResourceKinds};
use citysim::tiles::{empty_tile, Cell, CellRange, TileDef, TileKind, TileMapLayerKind};
use citysim::unit::UnitConfigs;
use citysim::world::World;

fn def(name: &str, category: &str, kind: TileKind) -> TileDef {
    TileDef { name: name.to_string(), category: category.to_string(), kind, size_w: 1, size_h: 1 }
}

fn catalog() -> TileSets {
    TileSets::new(vec![
        def("grass", "ground", TileKind::terrain()),
        def("dirt", "ground", TileKind::terrain()),
        def("stone_path", "ground", TileKind::terrain()),
        def("house0", "buildings", TileKind::building()),
        def("well_small", "buildings", TileKind::building()),
        def("well_big", "buildings", TileKind::building()),
        def("market", "buildings", TileKind::building()),
        def("rice_farm", "buildings", TileKind::building()),
        def("granary", "buildings", TileKind::building()),
    ])
}

#[test]
fn preset_map_holds_its_buildings() {
    let mut world = World::new(BuildingConfigs::load(), UnitConfigs::new(vec![]));
    let tile_sets = catalog();
    let map = build_tile_map(&preset_tiles_0(), &mut world, &tile_sets);
    assert_eq!((map.width, map.height), (9, 9));
    assert!(map.has_tile(Cell::new(0, 0), TileMapLayerKind::Terrain, TileKind::terrain()));
    assert_eq!(world.find_building_for_cell(Cell::new(1, 1), &map).unwrap().kind(), BuildingKind::house());
    assert_eq!(world.find_building_for_cell(Cell::new(3, 1), &map).unwrap().kind(), BuildingKind::well_big());
    assert_eq!(world.find_building_for_cell(Cell::new(5, 1), &map).unwrap().kind(), BuildingKind::market());
    assert_eq!(world.find_building_for_cell(Cell::new(2, 3), &map).unwrap().kind(), BuildingKind::well_small());
    assert_eq!(world.find_building_for_cell(Cell::new(1, 4), &map).unwrap().kind(), BuildingKind::farm());
    assert_eq!(world.find_building_for_cell(Cell::new(5, 5), &map).unwrap().kind(), BuildingKind::granary());
    assert!(world.find_building_for_cell(Cell::new(0, 0), &map).is_none());
}

#[test]
fn preset_map_skips_tiles_missing_from_the_catalog() {
    let mut world = World::new(BuildingConfigs::load(), UnitConfigs::new(vec![]));
    let tile_sets = TileSets::new(vec![def("market", "buildings", TileKind::building())]);
    let map = build_tile_map(&preset_tiles_0(), &mut world, &tile_sets);
    assert!(world.find_building_for_cell(Cell::new(5, 1), &map).is_some());
    assert!(world.find_building_for_cell(Cell::new(1, 1), &map).is_none());
    assert!(!map.has_tile(Cell::new(0, 0), TileMapLayerKind::Terrain, TileKind::terrain()));
}

#[test]
fn preset_find_tile_maps_ids_to_catalog_entries() {
    let tile_sets = catalog();
    assert!(find_tile(&tile_sets, TileMapLayerKind::Objects, -1).is_none());
    assert_eq!(find_tile(&tile_sets, TileMapLayerKind::Objects, 5).unwrap().name, "granary");
    assert_eq!(find_tile(&tile_sets, TileMapLayerKind::Terrain, 2).unwrap().name, "stone_path");
}

#[test]
fn instantiate_only_known_tiles() {
    let configs = BuildingConfigs::load();
    let mut tile = empty_tile(Cell::new(3, 4));
    tile.name = "well_small".to_string();
    let building = instantiate(&tile, &configs).unwrap();
    assert_eq!(building.kind(), BuildingKind::well_small());
    assert_eq!(building.name(), "Well Small");
    assert_eq!(building.cell_range(), CellRange::new(Cell::new(3, 4), Cell::new(3, 4)));
    tile.name = "livestock_farm".to_string();
    assert_eq!(instantiate(&tile, &configs).unwrap().archetype_kind(), BuildingArchetypeKind::Producer);
    tile.name = "castle".to_string();
    assert!(instantiate(&tile, &configs).is_none());
}

#[test]
fn building_list_keys_survive_removal() {
    let configs = BuildingConfigs::load();
    let mut list = BuildingList::new(BuildingArchetypeKind::Service, 4);
    let cells = CellRange::new(Cell::new(0, 0), Cell::new(0, 0));
    let make = |kind: BuildingKind| {
        Building::new(
            kind,
            cells,
            BuildingArchetype::Service(ServiceBuilding { config: configs.service_market.clone() }),
        )
    };
    let a = list.add(make(BuildingKind::market()));
    let b = list.add(make(BuildingKind::well_small()));
    let c = list.add(make(BuildingKind::well_big()));
    assert_eq!(list.keys(), vec![a, b, c]);
    assert!(list.remove(b).is_ok());
    assert!(list.remove(b).is_err());
    assert!(list.try_get(b).is_none());
    assert!(list.contains(a) && list.contains(c));
    assert_eq!(list.try_get(c).unwrap().kind(), BuildingKind::well_big());
    let d = list.add(make(BuildingKind::market()));
    assert_eq!(d, b);
    list.try_get_mut(d).unwrap().kind = BuildingKind::well_small();
    assert_eq!(list.try_get(d).unwrap().kind(), BuildingKind::well_small());
    list.clear();
    assert!(list.iter().is_empty());
}

#[test]
fn mutable_lookups_reach_the_stored_entities() {
    let mut world = World::new(BuildingConfigs::load(), UnitConfigs::new(vec![]));
    let tile_sets = catalog();
    let map = build_tile_map(&preset_tiles_0(), &mut world, &tile_sets);
    let granary = world.find_building_for_cell_mut(Cell::new(5, 5), &map).unwrap();
    granary.kind = BuildingKind::storage_yard();
    let name = "Granary".to_string();
    assert!(world.find_building_by_name_mut(&name, BuildingArchetypeKind::Storage).is_some());
    assert_eq!(world.find_building_for_cell(Cell::new(5, 5), &map).unwrap().kind(), BuildingKind::storage_yard());
    assert!(world.find_unit_by_name_mut(&"Nobody".to_string()).is_none());
    let kinds = ResourceKinds::all();
    assert_eq!(kinds.len(), 5);
    let mut mask = ResourceKind::empty();
    mask.insert(ResourceKind::fish());
    assert!(ResourceKind::foods().contains(mask));
    assert!(!mask.intersects(ResourceKind::rice()));
}
