use vstd::prelude::*;

use crate::building::{
    Building, BuildingArchetype, BuildingKind, HouseBuilding, HouseConfig, HouseLevel,
    HouseLevelConfig, ProducerBuilding, ProducerConfig, ServiceBuilding, ServiceConfig,
    archetype_of, HOUSE_BIT, FARM_BIT, WELL_SMALL_BIT, WELL_BIG_BIT,
    MARKET_BIT, GRANARY_BIT, STORAGE_YARD_BIT,
};
use crate::resources::{ResourceKind, ResourceKinds, distinct_kinds, RICE_BIT, MEAT_BIT, FISH_BIT, WOOD_BIT, STONE_BIT};
use crate::storage::{StorageBuilding, StorageConfig};
use crate::tiles::Tile;

verus! {

/// The configuration records of every building the game knows.
#[derive(Debug)]
pub struct BuildingConfigs {
    pub house_cfg: HouseConfig,
    pub house0: HouseLevelConfig,
    pub house1: HouseLevelConfig,
    pub house2: HouseLevelConfig,
    pub service_well_small: ServiceConfig,
    pub service_well_big: ServiceConfig,
    pub service_market: ServiceConfig,
    pub producer_rice_farm: ProducerConfig,
    pub producer_livestock_farm: ProducerConfig,
    pub storage_yard: StorageConfig,
    pub storage_granary: StorageConfig,
}

/// A service configuration with the usual worker range.
fn service_config(name: &str, tile_def_name: &str, stock_update_frequency_ms: u64, effect_radius: i32, resources_required: ResourceKinds) -> (r: ServiceConfig)
    ensures
        r.name@ == name@,
        r.tile_def_name@ == tile_def_name@,
        r.min_workers == 0,
        r.max_workers == 1,
        r.stock_update_frequency_ms == stock_update_frequency_ms,
        r.effect_radius == effect_radius,
        r.resources_required@ == resources_required@,
{
    ServiceConfig {
        name: name.to_owned(),
        tile_def_name: tile_def_name.to_owned(),
        min_workers: 0,
        max_workers: 1,
        stock_update_frequency_ms,
        effect_radius,
        resources_required,
    }
}

/// A farm configuration producing `output`.
fn farm_config(name: &str, tile_def_name: &str, output: ResourceKind) -> (r: ProducerConfig)
    ensures
        r.name@ == name@,
        r.tile_def_name@ == tile_def_name@,
        r.min_workers == 0,
        r.max_workers == 1,
        r.production_output_frequency_ms == 20_000,
        r.production_output == output,
        r.production_capacity == 5,
        r.resources_required@.len() == 0,
        r.resources_capacity == 0,
        r.storage_buildings_accepted.bits == GRANARY_BIT,
{
    ProducerConfig {
        name: name.to_owned(),
        tile_def_name: tile_def_name.to_owned(),
        min_workers: 0,
        max_workers: 1,
        production_output_frequency_ms: 20_000,
        production_output: output,
        production_capacity: 5,
        resources_required: ResourceKinds::none(),
        resources_capacity: 0,
        storage_buildings_accepted: BuildingKind::granary(),
    }
}

/// A storage configuration with eight slots of four units.
fn storage_config(name: &str, tile_def_name: &str, resources_accepted: ResourceKinds) -> (r: StorageConfig)
    requires
        resources_accepted@.len() > 0,
        distinct_kinds(resources_accepted@),
    ensures
        r.name@ == name@,
        r.tile_def_name@ == tile_def_name@,
        r.min_workers == 0,
        r.max_workers == 1,
        r.resources_accepted@ == resources_accepted@,
        r.num_slots == 8,
        r.slot_capacity == 4,
        r.valid(),
{
    StorageConfig {
        name: name.to_owned(),
        tile_def_name: tile_def_name.to_owned(),
        min_workers: 0,
        max_workers: 1,
        resources_accepted,
        num_slots: 8,
        slot_capacity: 4,
    }
}

impl BuildingConfigs {
    /// The tile names of the configurations, each naming one building.
    pub open spec fn wf(&self) -> bool {
        &&& self.storage_yard.valid()
        &&& self.storage_granary.valid()
    }

    /// The built-in table of configurations.
    pub fn load() -> (r: BuildingConfigs)
        ensures
            r.wf(),
            r.house_cfg == (HouseConfig { stock_update_frequency_ms: 20_000, upgrade_update_frequency_ms: 10_000 }),
            r.house0.name@ == "House Level 0"@ && r.house0.tile_def_name@ == "house0"@,
            r.house0.max_residents == 2 && r.house0.tax_generated == 0,
            r.house0.services_required@.len() == 0 && r.house0.resources_required@.len() == 0,
            r.house1.name@ == "House Level 1"@ && r.house1.tile_def_name@ == "house1"@,
            r.house1.max_residents == 4 && r.house1.tax_generated == 1,
            r.house1.services_required@ == seq![BuildingKind { bits: WELL_SMALL_BIT | WELL_BIG_BIT }, BuildingKind { bits: MARKET_BIT }],
            r.house1.resources_required@ == seq![ResourceKind { bits: RICE_BIT | MEAT_BIT | FISH_BIT }],
            r.house2.name@ == "House Level 2"@ && r.house2.tile_def_name@ == "house2"@,
            r.house2.max_residents == 6 && r.house2.tax_generated == 2,
            r.house2.services_required@ == seq![BuildingKind { bits: WELL_BIG_BIT }, BuildingKind { bits: MARKET_BIT }],
            r.house2.resources_required@ == seq![ResourceKind { bits: RICE_BIT }, ResourceKind { bits: MEAT_BIT | FISH_BIT }],
            r.service_well_small.name@ == "Well Small"@ && r.service_well_small.tile_def_name@ == "well_small"@,
            r.service_well_small.effect_radius == 3 && r.service_well_small.stock_update_frequency_ms == 0,
            r.service_well_small.resources_required@.len() == 0,
            r.service_well_big.name@ == "Well Big"@ && r.service_well_big.tile_def_name@ == "well_big"@,
            r.service_well_big.effect_radius == 5 && r.service_well_big.stock_update_frequency_ms == 0,
            r.service_well_big.resources_required@.len() == 0,
            r.service_market.name@ == "Market"@ && r.service_market.tile_def_name@ == "market"@,
            r.service_market.effect_radius == 5 && r.service_market.stock_update_frequency_ms == 20_000,
            r.service_market.resources_required@ == seq![ResourceKind { bits: RICE_BIT }, ResourceKind { bits: MEAT_BIT }, ResourceKind { bits: FISH_BIT }],
            r.producer_rice_farm.name@ == "Rice Farm"@ && r.producer_rice_farm.tile_def_name@ == "rice_farm"@,
            r.producer_rice_farm.production_output.bits == RICE_BIT,
            r.producer_livestock_farm.name@ == "Livestock Farm"@ && r.producer_livestock_farm.tile_def_name@ == "livestock_farm"@,
            r.producer_livestock_farm.production_output.bits == MEAT_BIT,
            r.storage_yard.name@ == "Storage Yard"@ && r.storage_yard.tile_def_name@ == "storage_yard"@,
            r.storage_yard.resources_accepted@.len() == 5,
            r.storage_granary.name@ == "Granary"@ && r.storage_granary.tile_def_name@ == "granary"@,
            r.storage_granary.resources_accepted@ == seq![ResourceKind { bits: RICE_BIT }, ResourceKind { bits: MEAT_BIT }, ResourceKind { bits: FISH_BIT }],
            r.storage_yard.num_slots == 8 && r.storage_yard.slot_capacity == 4,
            r.storage_granary.num_slots == 8 && r.storage_granary.slot_capacity == 4,
            r.storage_yard.resources_accepted@ == seq![
                ResourceKind { bits: RICE_BIT },
                ResourceKind { bits: MEAT_BIT },
                ResourceKind { bits: FISH_BIT },
                ResourceKind { bits: WOOD_BIT },
                ResourceKind { bits: STONE_BIT },
            ],
            r.service_well_small.min_workers == 0 && r.service_well_small.max_workers == 1,
            r.service_well_big.min_workers == 0 && r.service_well_big.max_workers == 1,
            r.service_market.min_workers == 0 && r.service_market.max_workers == 1,
            r.producer_rice_farm.min_workers == 0 && r.producer_rice_farm.max_workers == 1,
            r.producer_livestock_farm.min_workers == 0 && r.producer_livestock_farm.max_workers == 1,
            r.storage_yard.min_workers == 0 && r.storage_yard.max_workers == 1,
            r.storage_granary.min_workers == 0 && r.storage_granary.max_workers == 1,
            r.producer_rice_farm.production_output_frequency_ms == 20_000,
            r.producer_rice_farm.production_capacity == 5,
            r.producer_rice_farm.resources_required@.len() == 0,
            r.producer_rice_farm.resources_capacity == 0,
            r.producer_rice_farm.storage_buildings_accepted.bits == GRANARY_BIT,
            r.producer_livestock_farm.production_output_frequency_ms == 20_000,
            r.producer_livestock_farm.production_capacity == 5,
            r.producer_livestock_farm.resources_required@.len() == 0,
            r.producer_livestock_farm.resources_capacity == 0,
            r.producer_livestock_farm.storage_buildings_accepted.bits == GRANARY_BIT,
    {
        let house1_services = vec![BuildingKind { bits: WELL_SMALL_BIT | WELL_BIG_BIT }, BuildingKind::market()];
        let house2_services = vec![BuildingKind::well_big(), BuildingKind::market()];
        let house2_resources = vec![ResourceKind::rice(), ResourceKind { bits: MEAT_BIT | FISH_BIT }];
        let r = BuildingConfigs {
            house_cfg: HouseConfig { stock_update_frequency_ms: 20_000, upgrade_update_frequency_ms: 10_000 },
            house0: HouseLevelConfig {
                name: "House Level 0".to_owned(),
                tile_def_name: "house0".to_owned(),
                max_residents: 2,
                tax_generated: 0,
                services_required: Vec::new(),
                resources_required: ResourceKinds::none(),
            },
            house1: HouseLevelConfig {
                name: "House Level 1".to_owned(),
                tile_def_name: "house1".to_owned(),
                max_residents: 4,
                tax_generated: 1,
                // Any water source (small well or big well) and a market.
                services_required: house1_services,
                // Any one kind of food.
                resources_required: ResourceKinds::with_vec(vec![ResourceKind::foods()]),
            },
            house2: HouseLevelConfig {
                name: "House Level 2".to_owned(),
                tile_def_name: "house2".to_owned(),
                max_residents: 6,
                tax_generated: 2,
                services_required: house2_services,
                // Two kinds of food: rice, and meat or fish.
                resources_required: ResourceKinds::with_vec(house2_resources),
            },
            service_well_small: service_config("Well Small", "well_small", 0, 3, ResourceKinds::none()),
            service_well_big: service_config("Well Big", "well_big", 0, 5, ResourceKinds::none()),
            service_market: service_config("Market", "market", 20_000, 5, ResourceKinds::foods()),
            producer_rice_farm: farm_config("Rice Farm", "rice_farm", ResourceKind::rice()),
            producer_livestock_farm: farm_config("Livestock Farm", "livestock_farm", ResourceKind::meat()),
            storage_yard: storage_config("Storage Yard", "storage_yard", ResourceKinds::all()),
            storage_granary: storage_config("Granary", "granary", ResourceKinds::foods()),
        };
        proof {
            assert(r.house1.services_required@ =~= seq![BuildingKind { bits: WELL_SMALL_BIT | WELL_BIG_BIT }, BuildingKind { bits: MARKET_BIT }]);
            assert(r.house2.services_required@ =~= seq![BuildingKind { bits: WELL_BIG_BIT }, BuildingKind { bits: MARKET_BIT }]);
            assert(r.house1.resources_required@ =~= seq![ResourceKind { bits: RICE_BIT | MEAT_BIT | FISH_BIT }]);
            assert(r.house2.resources_required@ =~= seq![ResourceKind { bits: RICE_BIT }, ResourceKind { bits: MEAT_BIT | FISH_BIT }]);
        }
        r
    }

    pub fn find_house_config(&self) -> (r: &HouseConfig)
        ensures
            *r == self.house_cfg,
    {
        &self.house_cfg
    }

    pub fn find_house_level_config(&self, level: HouseLevel) -> (r: &HouseLevelConfig)
        ensures
            *r == match level {
                HouseLevel::Level0 => self.house0,
                HouseLevel::Level1 => self.house1,
                HouseLevel::Level2 => self.house2,
            },
    {
        match level {
            HouseLevel::Level0 => &self.house0,
            HouseLevel::Level1 => &self.house1,
            HouseLevel::Level2 => &self.house2,
        }
    }

    /// The farm configuration whose tile is `tile_name`.
    pub fn find_producer_config(&self, kind: BuildingKind, tile_name: &String) -> (r: &ProducerConfig)
        requires
            kind.bits == FARM_BIT,
            tile_name@ == self.producer_rice_farm.tile_def_name@ || tile_name@
                == self.producer_livestock_farm.tile_def_name@,
        ensures
            *r == if tile_name@ == self.producer_rice_farm.tile_def_name@ {
                self.producer_rice_farm
            } else {
                self.producer_livestock_farm
            },
    {
        if *tile_name == self.producer_rice_farm.tile_def_name {
            &self.producer_rice_farm
        } else {
            &self.producer_livestock_farm
        }
    }

    pub fn find_service_config(&self, kind: BuildingKind) -> (r: &ServiceConfig)
        requires
            kind.bits == WELL_SMALL_BIT || kind.bits == WELL_BIG_BIT || kind.bits == MARKET_BIT,
        ensures
            *r == if kind.bits == WELL_SMALL_BIT {
                self.service_well_small
            } else if kind.bits == WELL_BIG_BIT {
                self.service_well_big
            } else {
                self.service_market
            },
    {
        if kind.bits == WELL_SMALL_BIT {
            &self.service_well_small
        } else if kind.bits == WELL_BIG_BIT {
            &self.service_well_big
        } else {
            &self.service_market
        }
    }

    pub fn find_storage_config(&self, kind: BuildingKind) -> (r: &StorageConfig)
        requires
            kind.bits == GRANARY_BIT || kind.bits == STORAGE_YARD_BIT,
        ensures
            *r == if kind.bits == GRANARY_BIT {
                self.storage_granary
            } else {
                self.storage_yard
            },
    {
        if kind.bits == GRANARY_BIT {
            &self.storage_granary
        } else {
            &self.storage_yard
        }
    }

    /// The building kind a tile named `name` stands for, if any.
    pub open spec fn kind_for_tile_name(&self, name: Seq<char>) -> Option<u32> {
        if name == self.service_well_small.tile_def_name@ {
            Some(WELL_SMALL_BIT)
        } else if name == self.service_well_big.tile_def_name@ {
            Some(WELL_BIG_BIT)
        } else if name == self.service_market.tile_def_name@ {
            Some(MARKET_BIT)
        } else if name == self.house0.tile_def_name@ {
            Some(HOUSE_BIT)
        } else if name == self.producer_rice_farm.tile_def_name@ || name
            == self.producer_livestock_farm.tile_def_name@ {
            Some(FARM_BIT)
        } else if name == self.storage_granary.tile_def_name@ {
            Some(GRANARY_BIT)
        } else if name == self.storage_yard.tile_def_name@ {
            Some(STORAGE_YARD_BIT)
        } else {
            None
        }
    }
}

/// The building a placed tile stands for, built from its configuration, or
/// `None` for a tile no configuration names.
pub fn instantiate(tile: &Tile, configs: &BuildingConfigs) -> (r: Option<Building>)
    requires
        configs.wf(),
        tile.size_w >= 1,
        tile.size_h >= 1,
        tile.base_cell.x + tile.size_w - 1 <= i32::MAX,
        tile.base_cell.y + tile.size_h - 1 <= i32::MAX,
    ensures
        match configs.kind_for_tile_name(tile.name@) {
            Some(bits) => match r {
                Some(b) => {
                    &&& b.wf()
                    &&& b.kind.bits == bits
                    &&& b.cells.start == tile.base_cell
                    &&& b.cells.end.x == tile.base_cell.x + tile.size_w - 1
                    &&& b.cells.end.y == tile.base_cell.y + tile.size_h - 1
                    &&& b.archetype_kind_spec() == archetype_of(bits)
                    &&& carries_config(*configs, tile.name@, b)
                },
                None => false,
            },
            None => r.is_none(),
        },
{
    let name = tile.name();
    let cells = tile.cell_range();
    if *name == configs.service_well_small.tile_def_name {
        let config = configs.find_service_config(BuildingKind::well_small());
        Some(Building::new(BuildingKind::well_small(), cells, BuildingArchetype::Service(ServiceBuilding { config: copy_service_config(config) })))
    } else if *name == configs.service_well_big.tile_def_name {
        let config = configs.find_service_config(BuildingKind::well_big());
        Some(Building::new(BuildingKind::well_big(), cells, BuildingArchetype::Service(ServiceBuilding { config: copy_service_config(config) })))
    } else if *name == configs.service_market.tile_def_name {
        let config = configs.find_service_config(BuildingKind::market());
        Some(Building::new(BuildingKind::market(), cells, BuildingArchetype::Service(ServiceBuilding { config: copy_service_config(config) })))
    } else if *name == configs.house0.tile_def_name {
        let config = configs.find_house_config();
        let level_config = configs.find_house_level_config(HouseLevel::Level0);
        Some(Building::new(BuildingKind::house(), cells, BuildingArchetype::House(HouseBuilding { level: HouseLevel::Level0, config: *config, level_config: copy_house_level_config(level_config) })))
    } else if *name == configs.producer_rice_farm.tile_def_name || *name == configs.producer_livestock_farm.tile_def_name {
        let config = configs.find_producer_config(BuildingKind::farm(), name);
        Some(Building::new(BuildingKind::farm(), cells, BuildingArchetype::Producer(ProducerBuilding { config: copy_producer_config(config) })))
    } else if *name == configs.storage_granary.tile_def_name {
        let config = configs.find_storage_config(BuildingKind::granary());
        Some(Building::new(BuildingKind::granary(), cells, BuildingArchetype::Storage(StorageBuilding::new(copy_storage_config(config)))))
    } else if *name == configs.storage_yard.tile_def_name {
        let config = configs.find_storage_config(BuildingKind::storage_yard());
        Some(Building::new(BuildingKind::storage_yard(), cells, BuildingArchetype::Storage(StorageBuilding::new(copy_storage_config(config)))))
    } else {
        None
    }
}

/// Same fields, strings and lists compared by their contents.
pub open spec fn same_storage_config(a: StorageConfig, b: StorageConfig) -> bool {
    &&& a.name@ == b.name@
    &&& a.tile_def_name@ == b.tile_def_name@
    &&& a.min_workers == b.min_workers
    &&& a.max_workers == b.max_workers
    &&& a.resources_accepted@ == b.resources_accepted@
    &&& a.num_slots == b.num_slots
    &&& a.slot_capacity == b.slot_capacity
}

/// Same fields, strings and lists compared by their contents.
pub open spec fn same_service_config(a: ServiceConfig, b: ServiceConfig) -> bool {
    &&& a.name@ == b.name@
    &&& a.tile_def_name@ == b.tile_def_name@
    &&& a.min_workers == b.min_workers
    &&& a.max_workers == b.max_workers
    &&& a.stock_update_frequency_ms == b.stock_update_frequency_ms
    &&& a.effect_radius == b.effect_radius
    &&& a.resources_required@ == b.resources_required@
}

/// Same fields, strings and lists compared by their contents.
pub open spec fn same_producer_config(a: ProducerConfig, b: ProducerConfig) -> bool {
    &&& a.name@ == b.name@
    &&& a.tile_def_name@ == b.tile_def_name@
    &&& a.min_workers == b.min_workers
    &&& a.max_workers == b.max_workers
    &&& a.production_output_frequency_ms == b.production_output_frequency_ms
    &&& a.production_output == b.production_output
    &&& a.production_capacity == b.production_capacity
    &&& a.resources_required@ == b.resources_required@
    &&& a.resources_capacity == b.resources_capacity
    &&& a.storage_buildings_accepted == b.storage_buildings_accepted
}

/// Same fields, strings and lists compared by their contents.
pub open spec fn same_house_level_config(a: HouseLevelConfig, b: HouseLevelConfig) -> bool {
    &&& a.name@ == b.name@
    &&& a.tile_def_name@ == b.tile_def_name@
    &&& a.max_residents == b.max_residents
    &&& a.tax_generated == b.tax_generated
    &&& a.services_required@ == b.services_required@
    &&& a.resources_required@ == b.resources_required@
}

/// The building instantiated from a tile named `name` carries the
/// configuration that `name` selects.
pub open spec fn carries_config(configs: BuildingConfigs, name: Seq<char>, b: Building) -> bool {
    match b.archetype {
        BuildingArchetype::Service(sv) => same_service_config(sv.config, if name == configs.service_well_small.tile_def_name@ {
            configs.service_well_small
        } else if name == configs.service_well_big.tile_def_name@ {
            configs.service_well_big
        } else {
            configs.service_market
        }),
        BuildingArchetype::House(h) => h.level == HouseLevel::Level0 && h.config == configs.house_cfg
            && same_house_level_config(h.level_config, configs.house0),
        BuildingArchetype::Producer(p) => same_producer_config(p.config, if name == configs.producer_rice_farm.tile_def_name@ {
            configs.producer_rice_farm
        } else {
            configs.producer_livestock_farm
        }),
        BuildingArchetype::Storage(st) => same_storage_config(st.config, if name == configs.storage_granary.tile_def_name@ {
            configs.storage_granary
        } else {
            configs.storage_yard
        }),
    }
}

/// A copy of a list of resource kinds.
fn copy_kinds(kinds: &ResourceKinds) -> (r: ResourceKinds)
    ensures
        r@ == kinds@,
{
    let mut out: Vec<ResourceKind> = Vec::new();
    let mut i: usize = 0;
    while i < kinds.len()
        invariant
            i <= kinds@.len(),
            out@ == kinds@.subrange(0, i as int),
        decreases kinds@.len() - i,
    {
        out.push(kinds.get(i));
        i = i + 1;
        assert(out@ =~= kinds@.subrange(0, i as int));
    }
    assert(out@ =~= kinds@);
    ResourceKinds::with_vec(out)
}

/// A copy of a list of building kinds.
fn copy_building_kinds(kinds: &Vec<BuildingKind>) -> (r: Vec<BuildingKind>)
    ensures
        r@ == kinds@,
{
    let mut out: Vec<BuildingKind> = Vec::new();
    let mut i: usize = 0;
    while i < kinds.len()
        invariant
            i <= kinds@.len(),
            out@ == kinds@.subrange(0, i as int),
        decreases kinds@.len() - i,
    {
        out.push(kinds[i]);
        i = i + 1;
        assert(out@ =~= kinds@.subrange(0, i as int));
    }
    assert(out@ =~= kinds@);
    out
}

/// A copy of a storage configuration, field by field.
fn copy_storage_config(config: &StorageConfig) -> (r: StorageConfig)
    ensures
        same_storage_config(r, *config),
{
    StorageConfig {
        name: config.name.clone(),
        tile_def_name: config.tile_def_name.clone(),
        min_workers: config.min_workers,
        max_workers: config.max_workers,
        resources_accepted: copy_kinds(&config.resources_accepted),
        num_slots: config.num_slots,
        slot_capacity: config.slot_capacity,
    }
}

/// A copy of a service configuration, field by field.
fn copy_service_config(config: &ServiceConfig) -> (r: ServiceConfig)
    ensures
        same_service_config(r, *config),
{
    ServiceConfig {
        name: config.name.clone(),
        tile_def_name: config.tile_def_name.clone(),
        min_workers: config.min_workers,
        max_workers: config.max_workers,
        stock_update_frequency_ms: config.stock_update_frequency_ms,
        effect_radius: config.effect_radius,
        resources_required: copy_kinds(&config.resources_required),
    }
}

/// A copy of a producer configuration, field by field.
fn copy_producer_config(config: &ProducerConfig) -> (r: ProducerConfig)
    ensures
        same_producer_config(r, *config),
{
    ProducerConfig {
        name: config.name.clone(),
        tile_def_name: config.tile_def_name.clone(),
        min_workers: config.min_workers,
        max_workers: config.max_workers,
        production_output_frequency_ms: config.production_output_frequency_ms,
        production_output: config.production_output,
        production_capacity: config.production_capacity,
        resources_required: copy_kinds(&config.resources_required),
        resources_capacity: config.resources_capacity,
        storage_buildings_accepted: config.storage_buildings_accepted,
    }
}

/// A copy of a house level configuration, field by field.
fn copy_house_level_config(config: &HouseLevelConfig) -> (r: HouseLevelConfig)
    ensures
        same_house_level_config(r, *config),
{
    HouseLevelConfig {
        name: config.name.clone(),
        tile_def_name: config.tile_def_name.clone(),
        max_residents: config.max_residents,
        tax_generated: config.tax_generated,
        services_required: copy_building_kinds(&config.services_required),
        resources_required: copy_kinds(&config.resources_required),
    }
}

impl BuildingConfigs {
    /// The building kind a tile named `name` stands for, if any.
    pub fn building_kind_for_tile(&self, name: &String) -> (r: Option<BuildingKind>)
        ensures
            match self.kind_for_tile_name(name@) {
                Some(bits) => r == Some(BuildingKind { bits }),
                None => r.is_none(),
            },
    {
        if *name == self.service_well_small.tile_def_name {
            Some(BuildingKind::well_small())
        } else if *name == self.service_well_big.tile_def_name {
            Some(BuildingKind::well_big())
        } else if *name == self.service_market.tile_def_name {
            Some(BuildingKind::market())
        } else if *name == self.house0.tile_def_name {
            Some(BuildingKind::house())
        } else if *name == self.producer_rice_farm.tile_def_name || *name == self.producer_livestock_farm.tile_def_name {
            Some(BuildingKind::farm())
        } else if *name == self.storage_granary.tile_def_name {
            Some(BuildingKind::granary())
        } else if *name == self.storage_yard.tile_def_name {
            Some(BuildingKind::storage_yard())
        } else {
            None
        }
    }
}

} // verus!
