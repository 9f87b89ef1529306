use vstd::prelude::*;

use crate::resources::{ResourceKind, ResourceKinds};
use crate::storage::StorageBuilding;
use crate::tiles::{CellRange, Cell, GameStateHandle};

verus! {

/// Bit of each concrete building kind.
pub const HOUSE_BIT: u32 = 1;
pub const FARM_BIT: u32 = 2;
pub const WELL_SMALL_BIT: u32 = 4;
pub const WELL_BIG_BIT: u32 = 8;
pub const MARKET_BIT: u32 = 16;
pub const GRANARY_BIT: u32 = 32;
pub const STORAGE_YARD_BIT: u32 = 64;

/// A building kind as a bitmask: one bit for a concrete building, several
/// bits for an "any of these" requirement.
#[derive(Clone, Copy, Debug, PartialEq, Eq, Structural)]
pub struct BuildingKind {
    pub bits: u32,
}

/// The four behavioral categories of buildings.
#[derive(Clone, Copy, Debug, PartialEq, Eq, Structural)]
pub enum BuildingArchetypeKind {
    Producer,
    Storage,
    Service,
    House,
}

/// Number of building archetypes.
pub const BUILDING_ARCHETYPE_COUNT: usize = 4;

/// `bits` is one concrete building kind.
pub open spec fn is_concrete_building(bits: u32) -> bool {
    bits == HOUSE_BIT || bits == FARM_BIT || bits == WELL_SMALL_BIT || bits == WELL_BIG_BIT
        || bits == MARKET_BIT || bits == GRANARY_BIT || bits == STORAGE_YARD_BIT
}

/// The archetype of a concrete building kind.
pub open spec fn archetype_of(bits: u32) -> BuildingArchetypeKind {
    if bits == HOUSE_BIT {
        BuildingArchetypeKind::House
    } else if bits == FARM_BIT {
        BuildingArchetypeKind::Producer
    } else if bits == GRANARY_BIT || bits == STORAGE_YARD_BIT {
        BuildingArchetypeKind::Storage
    } else {
        BuildingArchetypeKind::Service
    }
}

impl BuildingKind {
    pub fn house() -> (r: BuildingKind)
        ensures
            r.bits == HOUSE_BIT,
    {
        BuildingKind { bits: HOUSE_BIT }
    }

    pub fn farm() -> (r: BuildingKind)
        ensures
            r.bits == FARM_BIT,
    {
        BuildingKind { bits: FARM_BIT }
    }

    pub fn well_small() -> (r: BuildingKind)
        ensures
            r.bits == WELL_SMALL_BIT,
    {
        BuildingKind { bits: WELL_SMALL_BIT }
    }

    pub fn well_big() -> (r: BuildingKind)
        ensures
            r.bits == WELL_BIG_BIT,
    {
        BuildingKind { bits: WELL_BIG_BIT }
    }

    pub fn market() -> (r: BuildingKind)
        ensures
            r.bits == MARKET_BIT,
    {
        BuildingKind { bits: MARKET_BIT }
    }

    pub fn granary() -> (r: BuildingKind)
        ensures
            r.bits == GRANARY_BIT,
    {
        BuildingKind { bits: GRANARY_BIT }
    }

    pub fn storage_yard() -> (r: BuildingKind)
        ensures
            r.bits == STORAGE_YARD_BIT,
    {
        BuildingKind { bits: STORAGE_YARD_BIT }
    }

    /// The kind a tile's handle names.
    pub fn from_game_state_handle(handle: GameStateHandle) -> (r: BuildingKind)
        ensures
            r.bits == handle.kind,
    {
        BuildingKind { bits: handle.kind }
    }

    pub fn bits(&self) -> (r: u32)
        ensures
            r == self.bits,
    {
        self.bits
    }

    /// True when `self` is one concrete building kind.
    pub fn is_concrete(&self) -> (r: bool)
        ensures
            r == is_concrete_building(self.bits),
    {
        self.bits == HOUSE_BIT || self.bits == FARM_BIT || self.bits == WELL_SMALL_BIT
            || self.bits == WELL_BIG_BIT || self.bits == MARKET_BIT || self.bits == GRANARY_BIT
            || self.bits == STORAGE_YARD_BIT
    }

    /// True when `self` and `other` share a bit.
    pub fn intersects(&self, other: BuildingKind) -> (r: bool)
        ensures
            r == (self.bits & other.bits != 0),
    {
        self.bits & other.bits != 0
    }

    /// The archetype of a concrete building kind.
    pub fn archetype_kind(&self) -> (r: BuildingArchetypeKind)
        requires
            is_concrete_building(self.bits),
        ensures
            r == archetype_of(self.bits),
    {
        if self.bits == HOUSE_BIT {
            BuildingArchetypeKind::House
        } else if self.bits == FARM_BIT {
            BuildingArchetypeKind::Producer
        } else if self.bits == GRANARY_BIT || self.bits == STORAGE_YARD_BIT {
            BuildingArchetypeKind::Storage
        } else {
            BuildingArchetypeKind::Service
        }
    }
}

/// Levels a house can reach.
#[derive(Clone, Copy, Debug, PartialEq, Eq, Structural)]
pub enum HouseLevel {
    Level0,
    Level1,
    Level2,
}

/// Settings shared by every house.
#[derive(Clone, Copy, Debug, PartialEq, Eq, Structural)]
pub struct HouseConfig {
    pub stock_update_frequency_ms: u64,
    pub upgrade_update_frequency_ms: u64,
}

/// Settings of one house level.
#[derive(Clone, Debug)]
pub struct HouseLevelConfig {
    pub name: String,
    pub tile_def_name: String,
    pub max_residents: u32,
    pub tax_generated: u32,
    /// Services required: each entry is satisfied by any building of its bits.
    pub services_required: Vec<BuildingKind>,
    /// Resources required: each entry is satisfied by any kind of its bits.
    pub resources_required: ResourceKinds,
}

/// Settings of a service building.
#[derive(Clone, Debug)]
pub struct ServiceConfig {
    pub name: String,
    pub tile_def_name: String,
    pub min_workers: u32,
    pub max_workers: u32,
    pub stock_update_frequency_ms: u64,
    pub effect_radius: i32,
    pub resources_required: ResourceKinds,
}

/// Settings of a producer building.
#[derive(Clone, Debug)]
pub struct ProducerConfig {
    pub name: String,
    pub tile_def_name: String,
    pub min_workers: u32,
    pub max_workers: u32,
    pub production_output_frequency_ms: u64,
    pub production_output: ResourceKind,
    pub production_capacity: u32,
    pub resources_required: ResourceKinds,
    pub resources_capacity: u32,
    pub storage_buildings_accepted: BuildingKind,
}

#[derive(Debug)]
pub struct ProducerBuilding {
    pub config: ProducerConfig,
}

#[derive(Debug)]
pub struct ServiceBuilding {
    pub config: ServiceConfig,
}

#[derive(Debug)]
pub struct HouseBuilding {
    pub level: HouseLevel,
    pub config: HouseConfig,
    pub level_config: HouseLevelConfig,
}

/// The behavior-specific part of a building.
#[derive(Debug)]
pub enum BuildingArchetype {
    Producer(ProducerBuilding),
    Storage(StorageBuilding),
    Service(ServiceBuilding),
    House(HouseBuilding),
}

impl BuildingArchetype {
    pub open spec fn kind_spec(&self) -> BuildingArchetypeKind {
        match self {
            BuildingArchetype::Producer(_) => BuildingArchetypeKind::Producer,
            BuildingArchetype::Storage(_) => BuildingArchetypeKind::Storage,
            BuildingArchetype::Service(_) => BuildingArchetypeKind::Service,
            BuildingArchetype::House(_) => BuildingArchetypeKind::House,
        }
    }
}

/// A placed building: its kind, the cells it covers and its behavior.
#[derive(Debug)]
pub struct Building {
    pub kind: BuildingKind,
    pub cells: CellRange,
    pub archetype: BuildingArchetype,
}

impl Building {
    /// Kind and archetype agree, and a storage building is well formed.
    pub open spec fn wf(&self) -> bool {
        &&& is_concrete_building(self.kind.bits)
        &&& archetype_of(self.kind.bits) == self.archetype.kind_spec()
        &&& match self.archetype {
            BuildingArchetype::Storage(s) => s.wf(),
            _ => true,
        }
    }

    pub open spec fn archetype_kind_spec(&self) -> BuildingArchetypeKind {
        self.archetype.kind_spec()
    }

    pub fn new(kind: BuildingKind, cells: CellRange, archetype: BuildingArchetype) -> (r: Building)
        requires
            is_concrete_building(kind.bits),
            archetype_of(kind.bits) == archetype.kind_spec(),
            match archetype {
                BuildingArchetype::Storage(s) => s.wf(),
                _ => true,
            },
        ensures
            r.wf(),
            r.kind == kind,
            r.cells == cells,
            r.archetype == archetype,
    {
        Building { kind, cells, archetype }
    }

    pub fn kind(&self) -> (r: BuildingKind)
        ensures
            r == self.kind,
    {
        self.kind
    }

    pub fn archetype_kind(&self) -> (r: BuildingArchetypeKind)
        ensures
            r == self.archetype_kind_spec(),
    {
        match &self.archetype {
            BuildingArchetype::Producer(_) => BuildingArchetypeKind::Producer,
            BuildingArchetype::Storage(_) => BuildingArchetypeKind::Storage,
            BuildingArchetype::Service(_) => BuildingArchetypeKind::Service,
            BuildingArchetype::House(_) => BuildingArchetypeKind::House,
        }
    }

    pub fn base_cell(&self) -> (r: Cell)
        ensures
            r == self.cells.start,
    {
        self.cells.start
    }

    pub fn cell_range(&self) -> (r: CellRange)
        ensures
            r == self.cells,
    {
        self.cells
    }

    /// The building's display name, from its configuration.
    pub open spec fn name_spec(&self) -> Seq<char> {
        match self.archetype {
            BuildingArchetype::Producer(p) => p.config.name@,
            BuildingArchetype::Storage(s) => s.config.name@,
            BuildingArchetype::Service(s) => s.config.name@,
            BuildingArchetype::House(h) => h.level_config.name@,
        }
    }

    pub fn name(&self) -> (r: &String)
        ensures
            r@ == self.name_spec(),
    {
        match &self.archetype {
            BuildingArchetype::Producer(p) => &p.config.name,
            BuildingArchetype::Storage(s) => &s.config.name,
            BuildingArchetype::Service(s) => &s.config.name,
            BuildingArchetype::House(h) => &h.level_config.name,
        }
    }
}

} // verus!
