use vstd::prelude::*;

use crate::building::{
    Building, BuildingArchetypeKind, BuildingKind, archetype_of, is_concrete_building,
};
use crate::building_list::BuildingList;
use crate::config::{BuildingConfigs, instantiate};
use crate::map::TileMap;
use crate::placement::{in_footprint, objects_free, placement_allowed, TileSets};
use crate::tiles::{
    Cell, GameStateHandle, Tile, TileDef, TileKind, TileMapLayerKind, empty_tile_spec,
    INVALID_HANDLE_INDEX, TILE_BLOCKER, TILE_BUILDING, TILE_TERRAIN, TILE_UNIT,
};
use crate::unit::{UnitConfigs, UnitSpawnPool, MAX_POOL_LEN};

verus! {

/// The tag a tile's handle carries when it names a unit.
pub const UNIT_GAME_STATE_KIND: u32 = 0xABCD1234;

/// Slots the unit pool starts with.
pub const UNIT_POOL_CAPACITY: usize = 256;

/// `h` names a building: a valid index and a concrete building kind.
pub open spec fn names_building(h: GameStateHandle) -> bool {
    h.index != INVALID_HANDLE_INDEX && is_concrete_building(h.kind)
}

/// `h` names a unit: a valid index and the unit tag.
pub open spec fn names_unit(h: GameStateHandle) -> bool {
    h.index != INVALID_HANDLE_INDEX && h.kind == UNIT_GAME_STATE_KIND
}

/// Some unit configuration has a tile named `name`.
pub open spec fn has_unit_config_for(configs: UnitConfigs, name: Seq<char>) -> bool {
    exists|i: int| 0 <= i < configs.configs@.len() && configs.configs@[i].tile_def_name@ == name
}

/// The world state: one building list per archetype and the unit pool.
pub struct World {
    pub producers: BuildingList,
    pub storages: BuildingList,
    pub services: BuildingList,
    pub houses: BuildingList,
    pub building_configs: BuildingConfigs,
    pub unit_spawn_pool: UnitSpawnPool,
    pub unit_configs: UnitConfigs,
}

impl World {
    /// The list of archetype `a`.
    pub open spec fn list_of(&self, a: BuildingArchetypeKind) -> BuildingList {
        match a {
            BuildingArchetypeKind::Producer => self.producers,
            BuildingArchetypeKind::Storage => self.storages,
            BuildingArchetypeKind::Service => self.services,
            BuildingArchetypeKind::House => self.houses,
        }
    }

    /// Each list is well formed and holds its own archetype; the pool and the
    /// configurations are well formed.
    pub open spec fn wf(&self) -> bool {
        &&& self.producers.wf() && self.producers.archetype_kind == BuildingArchetypeKind::Producer
        &&& self.storages.wf() && self.storages.archetype_kind == BuildingArchetypeKind::Storage
        &&& self.services.wf() && self.services.archetype_kind == BuildingArchetypeKind::Service
        &&& self.houses.wf() && self.houses.archetype_kind == BuildingArchetypeKind::House
        &&& self.unit_spawn_pool.wf()
        &&& self.building_configs.wf()
    }

    /// Only the list of archetype `a` may differ between `self` and `other`.
    pub open spec fn same_but_list(&self, other: World, a: BuildingArchetypeKind) -> bool {
        &&& (a != BuildingArchetypeKind::Producer ==> self.producers == other.producers)
        &&& (a != BuildingArchetypeKind::Storage ==> self.storages == other.storages)
        &&& (a != BuildingArchetypeKind::Service ==> self.services == other.services)
        &&& (a != BuildingArchetypeKind::House ==> self.houses == other.houses)
        &&& self.unit_spawn_pool == other.unit_spawn_pool
        &&& self.building_configs == other.building_configs
        &&& self.unit_configs == other.unit_configs
    }

    /// Only the unit pool may differ between `self` and `other`.
    pub open spec fn same_but_pool(&self, other: World) -> bool {
        &&& self.producers == other.producers
        &&& self.storages == other.storages
        &&& self.services == other.services
        &&& self.houses == other.houses
        &&& self.building_configs == other.building_configs
        &&& self.unit_configs == other.unit_configs
    }

    pub fn new(building_configs: BuildingConfigs, unit_configs: UnitConfigs) -> (r: World)
        requires
            building_configs.wf(),
        ensures
            r.wf(),
            forall|a: BuildingArchetypeKind| #[trigger] r.list_of(a).entries().dom().len() == 0,
            r.unit_spawn_pool.len() == UNIT_POOL_CAPACITY,
            forall|i: int| 0 <= i < UNIT_POOL_CAPACITY ==> !r.unit_spawn_pool.is_live(i),
    {
        let r = World {
            producers: BuildingList::new(BuildingArchetypeKind::Producer, 32),
            storages: BuildingList::new(BuildingArchetypeKind::Storage, 32),
            services: BuildingList::new(BuildingArchetypeKind::Service, 128),
            houses: BuildingList::new(BuildingArchetypeKind::House, 256),
            building_configs,
            unit_spawn_pool: UnitSpawnPool::new(UNIT_POOL_CAPACITY),
            unit_configs,
        };
        assert forall|a: BuildingArchetypeKind| #[trigger] r.list_of(a).entries().dom().len() == 0 by {
            assert(r.list_of(a).entries().dom() =~= Set::empty());
        }
        r
    }

    /// Removes every building and despawns every unit.
    pub fn reset(&mut self)
        requires
            old(self).wf(),
        ensures
            final(self).wf(),
            forall|a: BuildingArchetypeKind| #[trigger] final(self).list_of(a).entries().dom().len() == 0,
            final(self).unit_spawn_pool.len() == old(self).unit_spawn_pool.len(),
            forall|i: int| 0 <= i < old(self).unit_spawn_pool.len() ==> !final(self).unit_spawn_pool.is_live(i),
    {
        self.producers.clear();
        self.storages.clear();
        self.services.clear();
        self.houses.clear();
        self.unit_spawn_pool.clear();
        assert forall|a: BuildingArchetypeKind| #[trigger] self.list_of(a).entries().dom().len() == 0 by {
            assert(self.list_of(a).entries().dom() =~= Set::empty());
        }
    }

    pub fn buildings_list(&self, a: BuildingArchetypeKind) -> (r: &BuildingList)
        ensures
            *r == self.list_of(a),
    {
        match a {
            BuildingArchetypeKind::Producer => &self.producers,
            BuildingArchetypeKind::Storage => &self.storages,
            BuildingArchetypeKind::Service => &self.services,
            BuildingArchetypeKind::House => &self.houses,
        }
    }

    /// The list of archetype `a`, to change in place.
    pub fn buildings_list_mut(&mut self, a: BuildingArchetypeKind) -> (r: &mut BuildingList)
        ensures
            *r == old(self).list_of(a),
            final(self).list_of(a) == *final(r),
            final(self).same_but_list(*old(self), a),
    {
        match a {
            BuildingArchetypeKind::Producer => &mut self.producers,
            BuildingArchetypeKind::Storage => &mut self.storages,
            BuildingArchetypeKind::Service => &mut self.services,
            BuildingArchetypeKind::House => &mut self.houses,
        }
    }

    /// Adds `building` to the list of its archetype; returns its key there.
    fn add_building(&mut self, building: Building) -> (r: usize)
        requires
            old(self).wf(),
            building.wf(),
        ensures
            final(self).wf(),
            final(self).same_but_list(*old(self), building.archetype_kind_spec()),
            !old(self).list_of(building.archetype_kind_spec()).entries().contains_key(r),
            r < usize::MAX,
            final(self).list_of(building.archetype_kind_spec()).entries() == old(self).list_of(building.archetype_kind_spec()).entries().insert(r, building),
    {
        let r = match building.archetype_kind() {
            BuildingArchetypeKind::Producer => self.producers.add(building),
            BuildingArchetypeKind::Storage => self.storages.add(building),
            BuildingArchetypeKind::Service => self.services.add(building),
            BuildingArchetypeKind::House => self.houses.add(building),
        };
        r
    }

    /// Removes the building under `index` from the list of archetype `a`.
    fn remove_building(&mut self, a: BuildingArchetypeKind, index: usize) -> (r: Result<(), String>)
        requires
            old(self).wf(),
        ensures
            final(self).wf(),
            final(self).same_but_list(*old(self), a),
            r.is_ok() == old(self).list_of(a).entries().contains_key(index),
            final(self).list_of(a).entries() == old(self).list_of(a).entries().remove(index),
    {
        let r = match a {
            BuildingArchetypeKind::Producer => self.producers.remove(index),
            BuildingArchetypeKind::Storage => self.storages.remove(index),
            BuildingArchetypeKind::Service => self.services.remove(index),
            BuildingArchetypeKind::House => self.houses.remove(index),
        };
        r
    }
}


/// After spawning, the building of kind `bits` is stored under `index` in the
/// list of its archetype, and the tile at `cell` carries its handle.
pub open spec fn building_spawned_at(w: World, m: TileMap, cell: Cell, index: usize, bits: u32) -> bool {
    let a = archetype_of(bits);
    &&& index != INVALID_HANDLE_INDEX
    &&& w.list_of(a).entries().contains_key(index)
    &&& w.list_of(a).entries()[index].kind.bits == bits
    &&& w.list_of(a).entries()[index].cells.start == cell
    &&& m.in_bounds(cell)
    &&& m.tile_at(TileMapLayerKind::Objects, cell).game_state == GameStateHandle { index, kind: bits }
}

impl World {
    /// Places a building tile of `tile_def` at `target_cell`, creates its
    /// building in the list of its archetype and writes the building's handle
    /// on the tile. Returns the building's key. Fails, changing nothing, when
    /// the cell is off the map, no configuration names the tile, or the
    /// footprint is not free.
    pub fn try_spawn_building_with_tile_def(&mut self, tile_map: &mut TileMap, target_cell: Cell, tile_def: &TileDef) -> (r: Result<usize, String>)
        requires
            old(self).wf(),
            old(tile_map).wf(),
            tile_def.wf(),
            tile_def.kind.bits & TILE_BUILDING != 0,
        ensures
            final(self).wf(),
            final(tile_map).wf(),
            final(tile_map).same_shape(*old(tile_map)),
            r.is_ok() == (tile_def.kind.bits & TILE_TERRAIN == 0 && old(tile_map).in_bounds(target_cell) && old(self).building_configs.kind_for_tile_name(tile_def.name@).is_some()
                && placement_allowed(*old(tile_map), target_cell, *tile_def)),
            r.is_err() ==> *final(self) == *old(self) && final(tile_map).terrain@ == old(tile_map).terrain@
                && final(tile_map).objects@ == old(tile_map).objects@,
            r matches Ok(index) ==> {
                let bits = old(self).building_configs.kind_for_tile_name(tile_def.name@).unwrap();
                let a = archetype_of(bits);
                &&& building_spawned_at(*final(self), *final(tile_map), target_cell, index, bits)
                &&& !old(self).list_of(a).entries().contains_key(index)
                &&& final(self).list_of(a).entries().remove(index) == old(self).list_of(a).entries()
                &&& final(self).same_but_list(*old(self), a)
                &&& final(tile_map).tile_at(TileMapLayerKind::Objects, target_cell).kind == tile_def.kind
                &&& final(tile_map).terrain@ == old(tile_map).terrain@
                &&& forall|c: Cell| final(tile_map).in_bounds(c) && c != target_cell && !objects_free(*old(tile_map), c)
                    ==> #[trigger] final(tile_map).tile_at(TileMapLayerKind::Objects, c) == old(tile_map).tile_at(TileMapLayerKind::Objects, c)
                &&& forall|c: Cell| final(tile_map).in_bounds(c) && c != target_cell
                    ==> #[trigger] final(tile_map).tile_at(TileMapLayerKind::Objects, c) == old(tile_map).tile_at(TileMapLayerKind::Objects, c)
                        || final(tile_map).tile_at(TileMapLayerKind::Objects, c).kind.bits == TILE_BLOCKER
            },
    {
        if tile_def.kind.bits & TILE_TERRAIN != 0 {
            return Err("Failed to place Building: the TileDef is a terrain tile!".to_owned());
        }
        if !tile_map.is_cell_within_bounds(target_cell) {
            return Err("Failed to place Building: cell is outside the map!".to_owned());
        }
        let kind = match self.building_configs.building_kind_for_tile(&tile_def.name) {
            Some(kind) => kind,
            None => {
                return Err("Failed to instantiate Building: unknown tile!".to_owned());
            },
        };
        proof {
            let b = tile_def.kind.bits;
            assert(b & TILE_BUILDING != 0 ==> b != 0) by (bit_vector);
        }
        match tile_map.try_place_tile(target_cell, tile_def) {
            Ok(()) => {},
            Err(err) => {
                return Err(err);
            },
        }
        let ghost m1 = *tile_map;
        let building = match tile_map.try_tile_from_layer(target_cell, TileMapLayerKind::Objects) {
            Some(tile) => instantiate(tile, &self.building_configs),
            None => None,
        };
        let building = match building {
            Some(b) => b,
            None => {
                proof {
                    assert(false);
                }
                return Err("Failed to instantiate Building!".to_owned());
            },
        };
        let ghost b = building;
        let index = self.add_building(building);
        proof {
            assert(self.list_of(b.archetype_kind_spec()).entries()[index] == b);
        }
        tile_map.set_game_state_handle(target_cell, TileMapLayerKind::Objects, GameStateHandle::new(index, kind.bits));
        proof {
            assert(tile_map.terrain@ == m1.terrain@);
            assert forall|c: Cell| tile_map.in_bounds(c) && c != target_cell && !objects_free(*old(tile_map), c)
                implies #[trigger] tile_map.tile_at(TileMapLayerKind::Objects, c) == old(tile_map).tile_at(TileMapLayerKind::Objects, c) by {
                if in_footprint(c, target_cell, tile_def.size_w as int, tile_def.size_h as int) {
                    assert(objects_free(*old(tile_map), c));
                }
                assert(m1.tile_at(TileMapLayerKind::Objects, c) == old(tile_map).tile_at(TileMapLayerKind::Objects, c));
            }
            assert forall|c: Cell| tile_map.in_bounds(c) && c != target_cell
                implies #[trigger] tile_map.tile_at(TileMapLayerKind::Objects, c) == old(tile_map).tile_at(TileMapLayerKind::Objects, c)
                    || tile_map.tile_at(TileMapLayerKind::Objects, c).kind.bits == TILE_BLOCKER by {
                assert(tile_map.tile_at(TileMapLayerKind::Objects, c) == m1.tile_at(TileMapLayerKind::Objects, c));
            }
        }
        Ok(index)
    }

    /// Removes the building whose tile has its base at `tile_base_cell`: the
    /// tile (with its whole footprint) is cleared first, then the building
    /// leaves its list. Fails, changing nothing, when no building tile with a
    /// building handle is there; fails after clearing the tile when the list
    /// has no building under the handle's key.
    pub fn despawn_building_at_cell(&mut self, tile_map: &mut TileMap, tile_base_cell: Cell) -> (r: Result<(), String>)
        requires
            old(self).wf(),
            old(tile_map).wf(),
        ensures
            final(self).wf(),
            final(tile_map).wf(),
            final(tile_map).same_shape(*old(tile_map)),
            !(old(tile_map).in_bounds(tile_base_cell) && old(tile_map).tile_at(TileMapLayerKind::Objects, tile_base_cell).kind.bits & TILE_BUILDING != 0
                && names_building(old(tile_map).tile_at(TileMapLayerKind::Objects, tile_base_cell).game_state)) ==> {
                &&& r.is_err()
                &&& *final(self) == *old(self)
                &&& final(tile_map).terrain@ == old(tile_map).terrain@
                &&& final(tile_map).objects@ == old(tile_map).objects@
            },
            old(tile_map).in_bounds(tile_base_cell) && old(tile_map).tile_at(TileMapLayerKind::Objects, tile_base_cell).kind.bits & TILE_BUILDING != 0
                && names_building(old(tile_map).tile_at(TileMapLayerKind::Objects, tile_base_cell).game_state) ==> {
                let t = old(tile_map).tile_at(TileMapLayerKind::Objects, tile_base_cell);
                let a = archetype_of(t.game_state.kind);
                &&& r.is_ok() == old(self).list_of(a).entries().contains_key(t.game_state.index)
                &&& final(self).list_of(a).entries() == old(self).list_of(a).entries().remove(t.game_state.index)
                &&& final(self).same_but_list(*old(self), a)
                &&& empty_tile_spec(final(tile_map).tile_at(TileMapLayerKind::Objects, tile_base_cell))
                &&& final(tile_map).terrain@ == old(tile_map).terrain@
                &&& forall|c: Cell|
                    final(tile_map).in_bounds(c) && c != tile_base_cell ==> if in_footprint(c, t.base_cell, t.size_w as int, t.size_h as int) {
                        empty_tile_spec(#[trigger] final(tile_map).tile_at(TileMapLayerKind::Objects, c))
                    } else {
                        final(tile_map).tile_at(TileMapLayerKind::Objects, c) == old(tile_map).tile_at(TileMapLayerKind::Objects, c)
                    }
            },
    {
        let game_state = match tile_map.find_tile(tile_base_cell, TileMapLayerKind::Objects, TileKind::building()) {
            Some(tile) => tile.game_state_handle(),
            None => {
                return Err("Building should have an associated Tile in the TileMap!".to_owned());
            },
        };
        if !game_state.is_valid() {
            return Err("Building tile should have a valid game state!".to_owned());
        }
        let building_kind = BuildingKind::from_game_state_handle(game_state);
        if !building_kind.is_concrete() {
            return Err("Building tile should name a building kind!".to_owned());
        }
        let ghost m0 = *tile_map;
        let ghost t = m0.tile_at(TileMapLayerKind::Objects, tile_base_cell);
        proof {
            let b = t.kind.bits;
            assert(b & TILE_BUILDING != 0 ==> b != 0) by (bit_vector);
            assert(b & TILE_BUILDING != 0 ==> b & (TILE_BUILDING | TILE_BLOCKER) != 0) by (bit_vector);
        }
        match tile_map.try_clear_tile_from_layer(tile_base_cell, TileMapLayerKind::Objects) {
            Ok(()) => {},
            Err(err) => {
                return Err(err);
            },
        }
        let archetype_kind = building_kind.archetype_kind();
        self.remove_building(archetype_kind, game_state.index())
    }

    /// Removes `building` through the tile at its base cell.
    pub fn despawn_building(&mut self, tile_map: &mut TileMap, building: &Building) -> (r: Result<(), String>)
        requires
            old(self).wf(),
            old(tile_map).wf(),
        ensures
            final(self).wf(),
            final(tile_map).wf(),
            final(tile_map).same_shape(*old(tile_map)),
            !(old(tile_map).in_bounds(building.cells.start) && old(tile_map).tile_at(TileMapLayerKind::Objects, building.cells.start).kind.bits & TILE_BUILDING != 0
                && names_building(old(tile_map).tile_at(TileMapLayerKind::Objects, building.cells.start).game_state)) ==> {
                &&& r.is_err()
                &&& *final(self) == *old(self)
                &&& final(tile_map).terrain@ == old(tile_map).terrain@
                &&& final(tile_map).objects@ == old(tile_map).objects@
            },
            old(tile_map).in_bounds(building.cells.start) && old(tile_map).tile_at(TileMapLayerKind::Objects, building.cells.start).kind.bits & TILE_BUILDING != 0
                && names_building(old(tile_map).tile_at(TileMapLayerKind::Objects, building.cells.start).game_state) ==> {
                let t = old(tile_map).tile_at(TileMapLayerKind::Objects, building.cells.start);
                let a = archetype_of(t.game_state.kind);
                &&& r.is_ok() == old(self).list_of(a).entries().contains_key(t.game_state.index)
                &&& final(self).list_of(a).entries() == old(self).list_of(a).entries().remove(t.game_state.index)
                &&& final(self).same_but_list(*old(self), a)
                &&& empty_tile_spec(final(tile_map).tile_at(TileMapLayerKind::Objects, building.cells.start))
            },
    {
        self.despawn_building_at_cell(tile_map, building.base_cell())
    }

    /// The building a tile's handle names, if its list holds one under that key.
    pub fn find_building_for_tile(&self, tile: &Tile) -> (r: Option<&Building>)
        ensures
            names_building(tile.game_state) && self.list_of(archetype_of(tile.game_state.kind)).entries().contains_key(tile.game_state.index)
                ==> r == Some(&self.list_of(archetype_of(tile.game_state.kind)).entries()[tile.game_state.index]),
            !(names_building(tile.game_state) && self.list_of(archetype_of(tile.game_state.kind)).entries().contains_key(tile.game_state.index))
                ==> r.is_none(),
    {
        let game_state = tile.game_state_handle();
        if game_state.is_valid() {
            let building_kind = BuildingKind::from_game_state_handle(game_state);
            if building_kind.is_concrete() {
                let archetype_kind = building_kind.archetype_kind();
                return self.buildings_list(archetype_kind).try_get(game_state.index());
            }
        }
        None
    }

    /// The building whose tile stands at `cell`, if any.
    pub fn find_building_for_cell(&self, cell: Cell, tile_map: &TileMap) -> (r: Option<&Building>)
        requires
            tile_map.wf(),
        ensures
            ({
                let t = tile_map.tile_at(TileMapLayerKind::Objects, cell);
                let found = tile_map.in_bounds(cell) && t.kind.bits & TILE_BUILDING != 0 && names_building(t.game_state)
                    && self.list_of(archetype_of(t.game_state.kind)).entries().contains_key(t.game_state.index);
                &&& found ==> r == Some(&self.list_of(archetype_of(t.game_state.kind)).entries()[t.game_state.index])
                &&& !found ==> r.is_none()
            }),
    {
        match tile_map.find_tile(cell, TileMapLayerKind::Objects, TileKind::building()) {
            Some(tile) => self.find_building_for_tile(tile),
            None => None,
        }
    }

    /// The first building of archetype `a`, by key, named `name`.
    pub fn find_building_by_name(&self, name: &String, a: BuildingArchetypeKind) -> (r: Option<&Building>)
        ensures
            match r {
                Some(b) => b.name_spec() == name@ && exists|k: usize| self.list_of(a).entries().contains_key(k) && self.list_of(a).entries()[k] == *b,
                None => forall|k: usize| #[trigger] self.list_of(a).entries().contains_key(k) ==> self.list_of(a).entries()[k].name_spec() != name@,
            },
    {
        let list = self.buildings_list(a);
        let buildings = list.iter();
        let ghost keys = choose|keys: Seq<usize>| list.in_key_order(keys, buildings@);
        let mut i: usize = 0;
        while i < buildings.len()
            invariant
                *list == self.list_of(a),
                list.in_key_order(keys, buildings@),
                i <= buildings@.len(),
                forall|j: int| 0 <= j < i ==> buildings@[j].name_spec() != name@,
            decreases buildings@.len() - i,
        {
            let b = buildings[i];
            if *b.name() == *name {
                assert(keys.contains(keys[i as int]));
                assert(list.entries().contains_key(keys[i as int]));
                return Some(b);
            }
            i = i + 1;
        }
        proof {
            assert forall|k: usize| #[trigger] list.entries().contains_key(k) implies list.entries()[k].name_spec() != name@ by {
                assert(keys.contains(k));
                let j = choose|j: int| 0 <= j < keys.len() && keys[j] == k;
                assert(*buildings@[j] == list.entries()[k]);
            }
        }
        None
    }
}


/// After spawning, slot `index` of the pool holds a live unit standing at
/// `cell`, and the tile at `cell` carries the unit's handle.
pub open spec fn unit_spawned_at(w: World, m: TileMap, cell: Cell, index: usize) -> bool {
    &&& w.unit_spawn_pool.is_live(index as int)
    &&& w.unit_spawn_pool.pool@[index as int].cell == cell
    &&& w.unit_spawn_pool.pool@[index as int].spawn_pool_index == index
    &&& m.in_bounds(cell)
    &&& m.tile_at(TileMapLayerKind::Objects, cell).game_state == GameStateHandle { index, kind: UNIT_GAME_STATE_KIND }
}

impl World {
    /// Places a unit tile of `tile_def` at `target_cell` and spawns a unit for
    /// it into the pool's first dead slot (or a new one), writing the unit's
    /// handle on the tile. Returns the slot. Fails, changing nothing, when the
    /// cell is off the map, no unit configuration names the tile, the cell is
    /// occupied, or the pool is at its largest size.
    pub fn try_spawn_unit_with_tile_def(&mut self, tile_map: &mut TileMap, target_cell: Cell, tile_def: &TileDef) -> (r: Result<usize, String>)
        requires
            old(self).wf(),
            old(tile_map).wf(),
            tile_def.wf(),
            tile_def.kind.bits & TILE_UNIT != 0,
        ensures
            final(self).wf(),
            final(tile_map).wf(),
            final(tile_map).same_shape(*old(tile_map)),
            r.is_ok() == (tile_def.kind.bits & TILE_BUILDING == 0 && tile_def.kind.bits & TILE_TERRAIN == 0 && old(tile_map).in_bounds(target_cell) && has_unit_config_for(old(self).unit_configs, tile_def.name@)
                && objects_free(*old(tile_map), target_cell) && old(self).unit_spawn_pool.len() < MAX_POOL_LEN),
            r.is_err() ==> *final(self) == *old(self) && final(tile_map).terrain@ == old(tile_map).terrain@
                && final(tile_map).objects@ == old(tile_map).objects@,
            r matches Ok(index) ==> {
                &&& unit_spawned_at(*final(self), *final(tile_map), target_cell, index)
                &&& !old(self).unit_spawn_pool.is_live(index as int)
                &&& forall|j: int| 0 <= j < index ==> old(self).unit_spawn_pool.is_live(j)
                &&& forall|j: int| 0 <= j < old(self).unit_spawn_pool.len() && j != index ==> #[trigger] final(self).unit_spawn_pool.pool@[j] == old(self).unit_spawn_pool.pool@[j]
                    && final(self).unit_spawn_pool.flags()[j] == old(self).unit_spawn_pool.flags()[j]
                &&& final(self).same_but_pool(*old(self))
                &&& final(tile_map).tile_at(TileMapLayerKind::Objects, target_cell).kind == tile_def.kind
                &&& final(tile_map).terrain@ == old(tile_map).terrain@
            },
    {
        if tile_def.kind.bits & TILE_BUILDING != 0 || tile_def.kind.bits & TILE_TERRAIN != 0 {
            return Err("Failed to spawn Unit: the TileDef is not only a unit tile!".to_owned());
        }
        if !tile_map.is_cell_within_bounds(target_cell) {
            return Err("Failed to spawn Unit: cell is outside the map!".to_owned());
        }
        let config = match self.unit_configs.find_config_by_tile_name(&tile_def.name) {
            Some(config) => config,
            None => {
                return Err("Failed to spawn Unit: no unit configuration for the tile!".to_owned());
            },
        };
        if self.unit_spawn_pool.num_slots() >= MAX_POOL_LEN {
            return Err("Failed to spawn Unit: the unit pool is full!".to_owned());
        }
        proof {
            let b = tile_def.kind.bits;
            assert(b & TILE_UNIT != 0 ==> b != 0) by (bit_vector);
        }
        match tile_map.try_place_tile(target_cell, tile_def) {
            Ok(()) => {},
            Err(err) => {
                return Err(err);
            },
        }
        let ghost m1 = *tile_map;
        let index = self.unit_spawn_pool.spawn(target_cell, config);
        tile_map.set_game_state_handle(target_cell, TileMapLayerKind::Objects, GameStateHandle::new(index, UNIT_GAME_STATE_KIND));
        proof {
            assert(tile_map.terrain@ == m1.terrain@);
        }
        Ok(index)
    }

    /// Spawns a unit of the configuration named `unit_config_name` at
    /// `target_cell`, with that configuration's tile from the units category
    /// of `tile_sets`.
    pub fn try_spawn_unit_with_config(&mut self, tile_map: &mut TileMap, tile_sets: &TileSets, target_cell: Cell, unit_config_name: &String) -> (r: Result<usize, String>)
        requires
            old(self).wf(),
            old(tile_map).wf(),
            forall|i: int| 0 <= i < tile_sets.defs@.len() ==> (#[trigger] tile_sets.defs@[i]).wf(),
        ensures
            final(self).wf(),
            final(tile_map).wf(),
            final(tile_map).same_shape(*old(tile_map)),
            r.is_err() ==> *final(self) == *old(self) && final(tile_map).terrain@ == old(tile_map).terrain@
                && final(tile_map).objects@ == old(tile_map).objects@,
            r matches Ok(index) ==> unit_spawned_at(*final(self), *final(tile_map), target_cell, index)
                && final(self).same_but_pool(*old(self)),
            (forall|i: int| 0 <= i < old(self).unit_configs.configs@.len() ==> old(self).unit_configs.configs@[i].name@ != unit_config_name@)
                ==> r.is_err(),
            forall|i: int| #[trigger] old(self).unit_configs.is_first_named(unit_config_name@, i) ==> {
                let tile_name = old(self).unit_configs.configs@[i].tile_def_name@;
                &&& (forall|j: int| 0 <= j < tile_sets.defs@.len() ==> !TileSets::def_matches(#[trigger] tile_sets.defs@[j], TileMapLayerKind::Objects, "units"@, tile_name))
                    ==> r.is_err()
                &&& forall|j: int| #[trigger] tile_sets.is_first_match(TileMapLayerKind::Objects, "units"@, tile_name, j) ==> {
                    let d = tile_sets.defs@[j];
                    r.is_ok() == (d.kind.bits & TILE_UNIT != 0 && d.kind.bits & TILE_BUILDING == 0 && d.kind.bits & TILE_TERRAIN == 0
                        && old(tile_map).in_bounds(target_cell) && has_unit_config_for(old(self).unit_configs, d.name@)
                        && objects_free(*old(tile_map), target_cell) && old(self).unit_spawn_pool.len() < MAX_POOL_LEN)
                }
            },
    {
        let config = match self.unit_configs.find_config_by_name(unit_config_name) {
            Some(config) => config,
            None => {
                return Err("Failed to spawn Unit: unknown unit configuration!".to_owned());
            },
        };
        let ghost ci = choose|i: int| self.unit_configs.is_first_named(unit_config_name@, i) && self.unit_configs.configs@[i] == *config;
        proof {
            assert forall|i: int| #[trigger] self.unit_configs.is_first_named(unit_config_name@, i) implies i == ci by {
                if i < ci {
                } else if ci < i {
                }
            }
        }
        let category = "units".to_owned();
        proof {
            reveal_strlit("units");
        }
        let tile_def = match tile_sets.find_tile_def_by_name(TileMapLayerKind::Objects, &category, &config.tile_def_name) {
            Some(tile_def) => tile_def,
            None => {
                return Err("Failed to spawn Unit: cannot find the unit's TileDef!".to_owned());
            },
        };
        let ghost dj = choose|j: int| tile_sets.is_first_match(TileMapLayerKind::Objects, category@, config.tile_def_name@, j) && tile_sets.defs@[j] == *tile_def;
        proof {
            assert forall|j: int| #[trigger] tile_sets.is_first_match(TileMapLayerKind::Objects, category@, config.tile_def_name@, j) implies j == dj by {
                if j < dj {
                } else if dj < j {
                }
            }
        }
        if tile_def.is_unit() {
            self.try_spawn_unit_with_tile_def(tile_map, target_cell, tile_def)
        } else {
            Err("Failed to spawn Unit: the TileDef is not a unit!".to_owned())
        }
    }

    /// Despawns the unit whose tile stands at `tile_base_cell`: the tile is
    /// cleared first, then the unit's slot is released. Fails, changing
    /// nothing, when no unit tile with a unit handle naming a pool slot is there.
    pub fn despawn_unit_at_cell(&mut self, tile_map: &mut TileMap, tile_base_cell: Cell) -> (r: Result<(), String>)
        requires
            old(self).wf(),
            old(tile_map).wf(),
        ensures
            final(self).wf(),
            final(tile_map).wf(),
            final(tile_map).same_shape(*old(tile_map)),
            ({
                let t = old(tile_map).tile_at(TileMapLayerKind::Objects, tile_base_cell);
                let found = old(tile_map).in_bounds(tile_base_cell) && t.kind.bits & TILE_UNIT != 0 && names_unit(t.game_state)
                    && t.game_state.index < old(self).unit_spawn_pool.len();
                &&& r.is_ok() == found
                &&& !found ==> *final(self) == *old(self) && final(tile_map).terrain@ == old(tile_map).terrain@
                    && final(tile_map).objects@ == old(tile_map).objects@
                &&& found ==> {
                    &&& !final(self).unit_spawn_pool.is_live(t.game_state.index as int)
                    &&& final(self).unit_spawn_pool.len() == old(self).unit_spawn_pool.len()
                    &&& forall|j: int| 0 <= j < old(self).unit_spawn_pool.len() && j != t.game_state.index ==> #[trigger] final(self).unit_spawn_pool.pool@[j] == old(self).unit_spawn_pool.pool@[j]
                        && final(self).unit_spawn_pool.flags()[j] == old(self).unit_spawn_pool.flags()[j]
                    &&& final(self).same_but_pool(*old(self))
                    &&& empty_tile_spec(final(tile_map).tile_at(TileMapLayerKind::Objects, tile_base_cell))
                    &&& final(tile_map).terrain@ == old(tile_map).terrain@
                }
            }),
    {
        let game_state = match tile_map.find_tile(tile_base_cell, TileMapLayerKind::Objects, TileKind::unit()) {
            Some(tile) => tile.game_state_handle(),
            None => {
                return Err("Unit should have an associated Tile in the TileMap!".to_owned());
            },
        };
        if !game_state.is_valid() || game_state.kind() != UNIT_GAME_STATE_KIND {
            return Err("Unit tile should have a valid game state!".to_owned());
        }
        let spawn_pool_index = game_state.index();
        if spawn_pool_index >= self.unit_spawn_pool.num_slots() {
            return Err("Unit tile names no pool slot!".to_owned());
        }
        proof {
            let b = old(tile_map).tile_at(TileMapLayerKind::Objects, tile_base_cell).kind.bits;
            assert(b & TILE_UNIT != 0 ==> b != 0) by (bit_vector);
        }
        match tile_map.try_clear_tile_from_layer(tile_base_cell, TileMapLayerKind::Objects) {
            Ok(()) => {},
            Err(err) => {
                return Err(err);
            },
        }
        self.unit_spawn_pool.despawn_index(spawn_pool_index);
        Ok(())
    }

    /// Despawns `unit` through the tile at its cell.
    pub fn despawn_unit(&mut self, tile_map: &mut TileMap, unit: &crate::unit::Unit) -> (r: Result<(), String>)
        requires
            old(self).wf(),
            old(tile_map).wf(),
        ensures
            final(self).wf(),
            final(tile_map).wf(),
            final(tile_map).same_shape(*old(tile_map)),
            ({
                let t = old(tile_map).tile_at(TileMapLayerKind::Objects, unit.cell);
                let found = old(tile_map).in_bounds(unit.cell) && t.kind.bits & TILE_UNIT != 0 && names_unit(t.game_state)
                    && t.game_state.index < old(self).unit_spawn_pool.len();
                &&& r.is_ok() == found
                &&& !found ==> *final(self) == *old(self)
                &&& found ==> !final(self).unit_spawn_pool.is_live(t.game_state.index as int)
                    && empty_tile_spec(final(tile_map).tile_at(TileMapLayerKind::Objects, unit.cell))
            }),
    {
        self.despawn_unit_at_cell(tile_map, unit.cell())
    }

    /// The spawned unit a tile's handle names, if any.
    pub fn find_unit_for_tile(&self, tile: &Tile) -> (r: Option<&crate::unit::Unit>)
        requires
            self.wf(),
        ensures
            names_unit(tile.game_state) && self.unit_spawn_pool.is_live(tile.game_state.index as int)
                ==> r == Some(&self.unit_spawn_pool.pool@[tile.game_state.index as int]),
            !(names_unit(tile.game_state) && self.unit_spawn_pool.is_live(tile.game_state.index as int)) ==> r.is_none(),
    {
        let game_state = tile.game_state_handle();
        if game_state.is_valid() && game_state.kind() == UNIT_GAME_STATE_KIND {
            return self.unit_spawn_pool.try_get(game_state.index());
        }
        None
    }

    /// The spawned unit whose tile stands at `cell`, if any.
    pub fn find_unit_for_cell(&self, cell: Cell, tile_map: &TileMap) -> (r: Option<&crate::unit::Unit>)
        requires
            self.wf(),
            tile_map.wf(),
        ensures
            ({
                let t = tile_map.tile_at(TileMapLayerKind::Objects, cell);
                let found = tile_map.in_bounds(cell) && t.kind.bits & TILE_UNIT != 0 && names_unit(t.game_state)
                    && self.unit_spawn_pool.is_live(t.game_state.index as int);
                &&& found ==> r == Some(&self.unit_spawn_pool.pool@[t.game_state.index as int])
                &&& !found ==> r.is_none()
            }),
    {
        match tile_map.find_tile(cell, TileMapLayerKind::Objects, TileKind::unit()) {
            Some(tile) => self.find_unit_for_tile(tile),
            None => None,
        }
    }

    /// The spawned unit in the lowest slot named `name`, if any.
    pub fn find_unit_by_name(&self, name: &String) -> (r: Option<&crate::unit::Unit>)
        requires
            self.wf(),
        ensures
            match r {
                Some(u) => u.name@ == name@ && exists|i: int| #[trigger] self.unit_spawn_pool.is_live(i) && self.unit_spawn_pool.pool@[i] == *u,
                None => forall|i: int| #[trigger] self.unit_spawn_pool.is_live(i) ==> self.unit_spawn_pool.pool@[i].name@ != name@,
            },
    {
        let live = self.unit_spawn_pool.live_indices();
        let mut k: usize = 0;
        while k < live.len()
            invariant
                self.wf(),
                k <= live@.len(),
                forall|a: int| 0 <= a < live@.len() ==> self.unit_spawn_pool.is_live(live@[a] as int),
                forall|i: usize| self.unit_spawn_pool.is_live(i as int) ==> live@.contains(i),
                forall|a: int| 0 <= a < k ==> self.unit_spawn_pool.pool@[live@[a] as int].name@ != name@,
            decreases live@.len() - k,
        {
            let i = live[k];
            let unit = &self.unit_spawn_pool.pool[i];
            if unit.name == *name {
                assert(self.unit_spawn_pool.is_live(i as int));
                return Some(unit);
            }
            k = k + 1;
        }
        proof {
            assert forall|i: int| #[trigger] self.unit_spawn_pool.is_live(i) implies self.unit_spawn_pool.pool@[i].name@ != name@ by {
                let iu = i as usize;
                assert(self.unit_spawn_pool.is_live(iu as int));
                assert(live@.contains(iu));
                let a = choose|a: int| 0 <= a < live@.len() && live@[a] == iu;
            }
        }
        None
    }
}



impl World {
    /// The building a tile's handle names, to change in place.
    pub fn find_building_for_tile_mut(&mut self, tile: &Tile) -> (r: Option<&mut Building>)
        ensures
            ({
                let h = tile.game_state;
                let a = archetype_of(h.kind);
                let found = names_building(h) && old(self).list_of(a).entries().contains_key(h.index);
                &&& r.is_some() == found
                &&& r matches Some(b) ==> *b == old(self).list_of(a).entries()[h.index]
                    && final(self).list_of(a).entries() == old(self).list_of(a).entries().insert(h.index, *final(b))
                    && final(self).list_of(a).archetype_kind == old(self).list_of(a).archetype_kind
                    && final(self).same_but_list(*old(self), a)
                &&& r.is_none() ==> final(self).list_of(a).entries() == old(self).list_of(a).entries()
                    && final(self).list_of(a).archetype_kind == old(self).list_of(a).archetype_kind
                    && final(self).same_but_list(*old(self), a)
            }),
    {
        let game_state = tile.game_state_handle();
        if game_state.is_valid() {
            let building_kind = BuildingKind::from_game_state_handle(game_state);
            if building_kind.is_concrete() {
                let archetype_kind = building_kind.archetype_kind();
                let r = match archetype_kind {
                    BuildingArchetypeKind::Producer => self.producers.try_get_mut(game_state.index()),
                    BuildingArchetypeKind::Storage => self.storages.try_get_mut(game_state.index()),
                    BuildingArchetypeKind::Service => self.services.try_get_mut(game_state.index()),
                    BuildingArchetypeKind::House => self.houses.try_get_mut(game_state.index()),
                };
                return r;
            }
        }
        None
    }

    /// The building whose tile stands at `cell`, to change in place.
    pub fn find_building_for_cell_mut(&mut self, cell: Cell, tile_map: &TileMap) -> (r: Option<&mut Building>)
        requires
            tile_map.wf(),
        ensures
            ({
                let t = tile_map.tile_at(TileMapLayerKind::Objects, cell);
                let h = t.game_state;
                let a = archetype_of(h.kind);
                let found = tile_map.in_bounds(cell) && t.kind.bits & TILE_BUILDING != 0 && names_building(h)
                    && old(self).list_of(a).entries().contains_key(h.index);
                &&& r.is_some() == found
                &&& r matches Some(b) ==> *b == old(self).list_of(a).entries()[h.index]
                    && final(self).list_of(a).entries() == old(self).list_of(a).entries().insert(h.index, *final(b))
                    && final(self).same_but_list(*old(self), a)
                &&& r.is_none() ==> final(self).list_of(a).entries() == old(self).list_of(a).entries()
                    && final(self).same_but_list(*old(self), a)
            }),
    {
        match tile_map.find_tile(cell, TileMapLayerKind::Objects, TileKind::building()) {
            Some(tile) => self.find_building_for_tile_mut(tile),
            None => None,
        }
    }

    /// The spawned unit a tile's handle names, to change in place.
    pub fn find_unit_for_tile_mut(&mut self, tile: &Tile) -> (r: Option<&mut crate::unit::Unit>)
        requires
            old(self).wf(),
        ensures
            ({
                let h = tile.game_state;
                let found = names_unit(h) && old(self).unit_spawn_pool.is_live(h.index as int);
                &&& r.is_some() == found
                &&& r matches Some(u) ==> *u == old(self).unit_spawn_pool.pool@[h.index as int]
                    && final(self).unit_spawn_pool.pool@ == old(self).unit_spawn_pool.pool@.update(h.index as int, *final(u))
                    && final(self).unit_spawn_pool.flags() == old(self).unit_spawn_pool.flags()
                    && final(self).same_but_pool(*old(self))
                &&& r.is_none() ==> *final(self) == *old(self)
            }),
    {
        let game_state = tile.game_state_handle();
        if game_state.is_valid() && game_state.kind() == UNIT_GAME_STATE_KIND {
            return self.unit_spawn_pool.try_get_mut(game_state.index());
        }
        None
    }

    /// The spawned unit whose tile stands at `cell`, to change in place.
    pub fn find_unit_for_cell_mut(&mut self, cell: Cell, tile_map: &TileMap) -> (r: Option<&mut crate::unit::Unit>)
        requires
            old(self).wf(),
            tile_map.wf(),
        ensures
            ({
                let t = tile_map.tile_at(TileMapLayerKind::Objects, cell);
                let found = tile_map.in_bounds(cell) && t.kind.bits & TILE_UNIT != 0 && names_unit(t.game_state)
                    && old(self).unit_spawn_pool.is_live(t.game_state.index as int);
                &&& r.is_some() == found
                &&& r matches Some(u) ==> *u == old(self).unit_spawn_pool.pool@[t.game_state.index as int]
                    && final(self).unit_spawn_pool.pool@ == old(self).unit_spawn_pool.pool@.update(t.game_state.index as int, *final(u))
                    && final(self).same_but_pool(*old(self))
                &&& r.is_none() ==> *final(self) == *old(self)
            }),
    {
        match tile_map.find_tile(cell, TileMapLayerKind::Objects, TileKind::unit()) {
            Some(tile) => self.find_unit_for_tile_mut(tile),
            None => None,
        }
    }
}


impl World {
    /// The key of the first building of archetype `a`, by ascending key, named `name`.
    pub fn find_building_key_by_name(&self, name: &String, a: BuildingArchetypeKind) -> (r: Option<usize>)
        ensures
            match r {
                Some(k) => self.list_of(a).entries().contains_key(k) && self.list_of(a).entries()[k].name_spec() == name@,
                None => forall|k: usize| #[trigger] self.list_of(a).entries().contains_key(k) ==> self.list_of(a).entries()[k].name_spec() != name@,
            },
    {
        let list = self.buildings_list(a);
        let keys = list.keys();
        let mut i: usize = 0;
        while i < keys.len()
            invariant
                *list == self.list_of(a),
                forall|k: usize| list.entries().contains_key(k) <==> keys@.contains(k),
                i <= keys@.len(),
                forall|j: int| 0 <= j < i ==> list.entries()[keys@[j]].name_spec() != name@,
            decreases keys@.len() - i,
        {
            let k = keys[i];
            assert(keys@.contains(k));
            match list.try_get(k) {
                Some(b) => {
                    if *b.name() == *name {
                        return Some(k);
                    }
                },
                None => {},
            }
            i = i + 1;
        }
        proof {
            assert forall|k: usize| #[trigger] list.entries().contains_key(k) implies list.entries()[k].name_spec() != name@ by {
                assert(keys@.contains(k));
                let j = choose|j: int| 0 <= j < keys@.len() && keys@[j] == k;
            }
        }
        None
    }

    /// The first building of archetype `a`, by ascending key, named `name`,
    /// to change in place.
    pub fn find_building_by_name_mut(&mut self, name: &String, a: BuildingArchetypeKind) -> (r: Option<&mut Building>)
        ensures
            r matches Some(b) ==> exists|k: usize| {
                &&& #[trigger] old(self).list_of(a).entries().contains_key(k)
                &&& old(self).list_of(a).entries()[k].name_spec() == name@
                &&& *b == old(self).list_of(a).entries()[k]
                &&& final(self).list_of(a).entries() == old(self).list_of(a).entries().insert(k, *final(b))
            },
            r.is_none() ==> forall|k: usize| #[trigger] old(self).list_of(a).entries().contains_key(k)
                ==> old(self).list_of(a).entries()[k].name_spec() != name@,
            final(self).same_but_list(*old(self), a),
            final(self).list_of(a).archetype_kind == old(self).list_of(a).archetype_kind,
    {
        match self.find_building_key_by_name(name, a) {
            Some(k) => {
                let list = self.buildings_list_mut(a);
                list.try_get_mut(k)
            },
            None => None,
        }
    }

    /// The spawned unit in the lowest slot named `name`, to change in place.
    pub fn find_unit_by_name_mut(&mut self, name: &String) -> (r: Option<&mut crate::unit::Unit>)
        requires
            old(self).wf(),
        ensures
            r matches Some(u) ==> exists|i: int| {
                &&& #[trigger] old(self).unit_spawn_pool.is_live(i)
                &&& old(self).unit_spawn_pool.pool@[i].name@ == name@
                &&& *u == old(self).unit_spawn_pool.pool@[i]
                &&& final(self).unit_spawn_pool.pool@ == old(self).unit_spawn_pool.pool@.update(i, *final(u))
            },
            r.is_none() ==> forall|i: int| #[trigger] old(self).unit_spawn_pool.is_live(i)
                ==> old(self).unit_spawn_pool.pool@[i].name@ != name@,
            final(self).same_but_pool(*old(self)),
            final(self).unit_spawn_pool.flags() == old(self).unit_spawn_pool.flags(),
    {
        let live = self.unit_spawn_pool.live_indices();
        let mut k: usize = 0;
        while k < live.len()
            invariant
                self.wf(),
                *self == *old(self),
                k <= live@.len(),
                forall|a: int| 0 <= a < live@.len() ==> self.unit_spawn_pool.is_live(live@[a] as int),
                forall|i: usize| self.unit_spawn_pool.is_live(i as int) ==> live@.contains(i),
                forall|a: int| 0 <= a < k ==> self.unit_spawn_pool.pool@[live@[a] as int].name@ != name@,
            decreases live@.len() - k,
        {
            let i = live[k];
            if self.unit_spawn_pool.pool[i].name == *name {
                assert(self.unit_spawn_pool.is_live(i as int));
                return self.unit_spawn_pool.try_get_mut(i);
            }
            k = k + 1;
        }
        proof {
            assert forall|i: int| #[trigger] self.unit_spawn_pool.is_live(i) implies self.unit_spawn_pool.pool@[i].name@ != name@ by {
                let iu = i as usize;
                assert(self.unit_spawn_pool.is_live(iu as int));
                assert(live@.contains(iu));
                let a = choose|a: int| 0 <= a < live@.len() && live@[a] == iu;
            }
        }
        None
    }
}


/// An entity of the world: a unit by pool slot, or a building by archetype
/// and key.
#[derive(Clone, Copy, Debug, PartialEq, Eq, Structural)]
pub enum EntityRef {
    Unit(usize),
    Building(BuildingArchetypeKind, usize),
}

/// `keys` are the keys of `m`, each once, ascending.
pub open spec fn ascending_keys(keys: Seq<usize>, m: Map<usize, Building>) -> bool {
    &&& forall|i: int, j: int| 0 <= i < j < keys.len() ==> keys[i] < keys[j]
    &&& forall|k: usize| m.contains_key(k) <==> keys.contains(k)
}

/// `slots` are the live slots of `p`, each once, ascending.
pub open spec fn ascending_live(slots: Seq<usize>, p: UnitSpawnPool) -> bool {
    &&& forall|i: int, j: int| 0 <= i < j < slots.len() ==> slots[i] < slots[j]
    &&& forall|k: int| 0 <= k < slots.len() ==> p.is_live(slots[k] as int)
    &&& forall|i: usize| p.is_live(i as int) ==> slots.contains(i)
}

/// The buildings of archetype `a` under `keys`, in that order.
pub open spec fn buildings_of(a: BuildingArchetypeKind, keys: Seq<usize>) -> Seq<EntityRef> {
    keys.map_values(|k: usize| EntityRef::Building(a, k))
}

/// `order` visits the live units of `w` by ascending slot, then the buildings
/// of the producer, storage, service and house lists, each by ascending key.
pub open spec fn visit_order_parts(w: World, order: Seq<EntityRef>, us: Seq<usize>, ps: Seq<usize>, ss: Seq<usize>, vs: Seq<usize>, hs: Seq<usize>) -> bool {
    &&& ascending_live(us, w.unit_spawn_pool)
    &&& ascending_keys(ps, w.producers.entries())
    &&& ascending_keys(ss, w.storages.entries())
    &&& ascending_keys(vs, w.services.entries())
    &&& ascending_keys(hs, w.houses.entries())
    &&& order == us.map_values(|i: usize| EntityRef::Unit(i)) + buildings_of(BuildingArchetypeKind::Producer, ps)
        + buildings_of(BuildingArchetypeKind::Storage, ss) + buildings_of(BuildingArchetypeKind::Service, vs)
        + buildings_of(BuildingArchetypeKind::House, hs)
}

impl World {
    /// Appends the buildings of list `a`, by ascending key, to `order`.
    fn push_buildings(&self, a: BuildingArchetypeKind, order: &mut Vec<EntityRef>) -> (keys: Ghost<Seq<usize>>)
        ensures
            ascending_keys(keys@, self.list_of(a).entries()),
            final(order)@ == old(order)@ + buildings_of(a, keys@),
    {
        let keys = self.buildings_list(a).keys();
        let ghost o0 = order@;
        let mut i: usize = 0;
        while i < keys.len()
            invariant
                i <= keys@.len(),
                order@ == o0 + buildings_of(a, keys@.subrange(0, i as int)),
            decreases keys@.len() - i,
        {
            order.push(EntityRef::Building(a, keys[i]));
            i = i + 1;
            assert(buildings_of(a, keys@.subrange(0, i as int)) =~= buildings_of(a, keys@.subrange(0, i - 1)).push(EntityRef::Building(a, keys@[i - 1])));
        }
        assert(keys@.subrange(0, keys@.len() as int) =~= keys@);
        Ghost(keys@)
    }

    /// One world tick: units are visited before buildings, live units by
    /// ascending slot, then the producer, storage, service and house lists,
    /// each by ascending key. No behaviour of a unit or a building changes
    /// the world here; the returned order is the one the tick's behaviour
    /// runs in.
    pub fn update(&self, _delta_time_ms: u64) -> (r: Vec<EntityRef>)
        requires
            self.wf(),
        ensures
            exists|us: Seq<usize>, ps: Seq<usize>, ss: Seq<usize>, vs: Seq<usize>, hs: Seq<usize>|
                #[trigger] visit_order_parts(*self, r@, us, ps, ss, vs, hs),
    {
        let live = self.unit_spawn_pool.live_indices();
        let mut order: Vec<EntityRef> = Vec::new();
        let mut i: usize = 0;
        while i < live.len()
            invariant
                i <= live@.len(),
                order@ == live@.subrange(0, i as int).map_values(|j: usize| EntityRef::Unit(j)),
            decreases live@.len() - i,
        {
            order.push(EntityRef::Unit(live[i]));
            i = i + 1;
            assert(live@.subrange(0, i as int).map_values(|j: usize| EntityRef::Unit(j)) =~= live@.subrange(0, i - 1).map_values(|j: usize| EntityRef::Unit(j)).push(EntityRef::Unit(live@[i - 1])));
        }
        assert(live@.subrange(0, live@.len() as int) =~= live@);
        let ps = self.push_buildings(BuildingArchetypeKind::Producer, &mut order);
        let ss = self.push_buildings(BuildingArchetypeKind::Storage, &mut order);
        let vs = self.push_buildings(BuildingArchetypeKind::Service, &mut order);
        let hs = self.push_buildings(BuildingArchetypeKind::House, &mut order);
        assert(visit_order_parts(*self, order@, live@, ps@, ss@, vs@, hs@));
        order
    }
}

/// Archetype partitioning: every building in the list of archetype `a` has
/// archetype `a`, so no building can stand in two lists.
pub proof fn lemma_archetype_partition(w: World)
    requires
        w.wf(),
    ensures
        forall|a: BuildingArchetypeKind, k: usize| #[trigger] w.list_of(a).entries().contains_key(k)
            ==> w.list_of(a).entries()[k].archetype_kind_spec() == a && w.list_of(a).archetype_kind == a,
        forall|a1: BuildingArchetypeKind, a2: BuildingArchetypeKind, k1: usize, k2: usize|
            a1 != a2 && #[trigger] w.list_of(a1).entries().contains_key(k1) && #[trigger] w.list_of(a2).entries().contains_key(k2)
            ==> w.list_of(a1).entries()[k1] != w.list_of(a2).entries()[k2],
{
    assert forall|a: BuildingArchetypeKind, k: usize| #[trigger] w.list_of(a).entries().contains_key(k)
        implies w.list_of(a).entries()[k].archetype_kind_spec() == a && w.list_of(a).archetype_kind == a by {
        assert(w.list_of(a).wf());
    }
}

/// Handle round trip: once a building of kind `bits` is spawned at `cell`,
/// the tile's handle reads back as that kind and leads to that building.
pub proof fn lemma_handle_round_trip(w: World, m: TileMap, cell: Cell, index: usize, bits: u32)
    requires
        w.wf(),
        building_spawned_at(w, m, cell, index, bits),
    ensures
        m.tile_at(TileMapLayerKind::Objects, cell).game_state.kind == bits,
        names_building(m.tile_at(TileMapLayerKind::Objects, cell).game_state),
        w.list_of(archetype_of(m.tile_at(TileMapLayerKind::Objects, cell).game_state.kind)).entries()[
            m.tile_at(TileMapLayerKind::Objects, cell).game_state.index
        ].kind.bits == bits,
{
    let a = archetype_of(bits);
    assert(w.list_of(a).wf());
    assert(w.list_of(a).entries()[index].wf());
}

/// A cleared tile, as despawning leaves it, carries no valid handle.
pub proof fn lemma_cleared_tile_has_no_handle(t: Tile)
    requires
        empty_tile_spec(t),
    ensures
        t.game_state.index == INVALID_HANDLE_INDEX,
        !names_building(t.game_state),
        !names_unit(t.game_state),
{
}

} // verus!
