use vstd::prelude::*;

use crate::building::archetype_of;
use crate::map::TileMap;
use crate::placement::{TileSets, try_place_tile_in_layer};
use crate::tiles::{Cell, TileDef, TileMapLayerKind, TILE_BLOCKER, TILE_BUILDING, TILE_TERRAIN, TILE_UNIT};
use crate::world::{World, names_building};

verus! {

/// Terrain tile ids of a preset.
pub const GRASS: i32 = 0;
pub const DIRT: i32 = 1;
pub const ROAD: i32 = 2;

/// Building tile ids of a preset; `EMPTY` leaves the cell empty.
pub const EMPTY: i32 = -1;
pub const HOUSE: i32 = 0;
pub const WELL_SMALL: i32 = 1;
pub const WELL_BIG: i32 = 2;
pub const MARKET: i32 = 3;
pub const FARM: i32 = 4;
pub const GRANARY: i32 = 5;

/// Number of terrain and of building tile ids.
pub const TERRAIN_TILE_COUNT: i32 = 3;
pub const BUILDING_TILE_COUNT: i32 = 6;

/// A built-in test map: a terrain id and a building id for every cell, row
/// by row.
#[derive(Clone, Debug)]
pub struct PresetTiles {
    pub width: i32,
    pub height: i32,
    pub terrain_tiles: Vec<i32>,
    pub building_tiles: Vec<i32>,
}

impl PresetTiles {
    pub open spec fn wf(&self) -> bool {
        &&& 0 < self.width
        &&& 0 < self.height
        &&& self.width * self.height <= i32::MAX
        &&& self.terrain_tiles@.len() == self.width * self.height
        &&& self.building_tiles@.len() == self.width * self.height
        &&& forall|i: int| 0 <= i < self.terrain_tiles@.len() ==> #[trigger] self.terrain_tiles@[i] < TERRAIN_TILE_COUNT
        &&& forall|i: int| 0 <= i < self.building_tiles@.len() ==> #[trigger] self.building_tiles@[i] < BUILDING_TILE_COUNT
    }
}

/// The name of the building tile with `tile_id`.
pub open spec fn building_tile_name(tile_id: i32) -> Seq<char> {
    if tile_id == HOUSE {
        "house0"@
    } else if tile_id == WELL_SMALL {
        "well_small"@
    } else if tile_id == WELL_BIG {
        "well_big"@
    } else if tile_id == MARKET {
        "market"@
    } else if tile_id == FARM {
        "rice_farm"@
    } else {
        "granary"@
    }
}

/// The catalog has the building tile with `tile_id`.
pub open spec fn building_def_found(tile_sets: TileSets, tile_id: i32) -> bool {
    exists|i: int| 0 <= i < tile_sets.defs@.len() && TileSets::def_matches(#[trigger] tile_sets.defs@[i], TileMapLayerKind::Objects, "buildings"@, building_tile_name(tile_id))
}

/// The name and category of the tile with `tile_id` in `layer`.
fn tile_name_and_category(layer: TileMapLayerKind, tile_id: i32) -> (r: (String, String))
    requires
        0 <= tile_id,
        layer == TileMapLayerKind::Terrain ==> tile_id < TERRAIN_TILE_COUNT,
        layer == TileMapLayerKind::Objects ==> tile_id < BUILDING_TILE_COUNT,
    ensures
        layer == TileMapLayerKind::Objects ==> r.0@ == building_tile_name(tile_id) && r.1@ == "buildings"@,
{
    match layer {
        TileMapLayerKind::Terrain => {
            let name = if tile_id == GRASS {
                "grass"
            } else if tile_id == DIRT {
                "dirt"
            } else {
                "stone_path"
            };
            (name.to_owned(), "ground".to_owned())
        },
        TileMapLayerKind::Objects => {
            let name = if tile_id == HOUSE {
                "house0"
            } else if tile_id == WELL_SMALL {
                "well_small"
            } else if tile_id == WELL_BIG {
                "well_big"
            } else if tile_id == MARKET {
                "market"
            } else if tile_id == FARM {
                "rice_farm"
            } else {
                "granary"
            };
            (name.to_owned(), "buildings".to_owned())
        },
    }
}

/// The tile definition a preset id stands for in `layer`; none for a negative id.
pub fn find_tile(tile_sets: &TileSets, layer: TileMapLayerKind, tile_id: i32) -> (r: Option<&TileDef>)
    requires
        layer == TileMapLayerKind::Terrain ==> tile_id < TERRAIN_TILE_COUNT,
        layer == TileMapLayerKind::Objects ==> tile_id < BUILDING_TILE_COUNT,
    ensures
        tile_id < 0 ==> r.is_none(),
        r matches Some(d) ==> exists|i: int| 0 <= i < tile_sets.defs@.len() && tile_sets.defs@[i] == *d
            && TileSets::def_matches(*d, layer, d.category@, d.name@),
        layer == TileMapLayerKind::Objects && tile_id >= 0 ==> r.is_some() == building_def_found(*tile_sets, tile_id),
        layer == TileMapLayerKind::Objects && tile_id >= 0 ==> (r matches Some(d) ==> exists|i: int|
            #[trigger] tile_sets.is_first_match(TileMapLayerKind::Objects, "buildings"@, building_tile_name(tile_id), i)
                && tile_sets.defs@[i] == *d),
{
    if tile_id < 0 {
        return None;
    }
    let (name, category) = tile_name_and_category(layer, tile_id);
    tile_sets.find_tile_def_by_name(layer, &category, &name)
}

/// Every objects tile of `m` is empty, a blocker, or a building tile whose
/// handle names a building of `w`.
pub open spec fn objects_sound(m: TileMap, w: World) -> bool {
    forall|c: Cell| #![trigger m.tile_at(TileMapLayerKind::Objects, c)]
        m.in_bounds(c) ==> {
            let t = m.tile_at(TileMapLayerKind::Objects, c);
            ||| t.kind.bits == 0
            ||| t.kind.bits == TILE_BLOCKER
            ||| (t.kind.bits & TILE_BUILDING != 0 && names_building(t.game_state)
                && w.list_of(archetype_of(t.game_state.kind)).entries().contains_key(t.game_state.index))
        }
}

/// A building or a blocker occupies the objects tile of `m` at `c`.
pub open spec fn occupied_by_building(m: TileMap, c: Cell) -> bool {
    m.tile_at(TileMapLayerKind::Objects, c).kind.bits == TILE_BLOCKER
        || m.tile_at(TileMapLayerKind::Objects, c).kind.bits & TILE_BUILDING != 0
}

/// The preset asks for a building at `c` whose tile the catalog has, as a
/// one-cell building tile that a configuration of `w` names.
pub open spec fn placeable_cell(preset: PresetTiles, tile_sets: TileSets, w: World, c: Cell) -> bool {
    let id = preset.building_tiles@[c.y * preset.width + c.x];
    &&& id >= 0
    &&& building_def_found(tile_sets, id)
    &&& forall|i: int| #[trigger] tile_sets.is_first_match(TileMapLayerKind::Objects, "buildings"@, building_tile_name(id), i) ==> {
        let d = tile_sets.defs@[i];
        &&& d.kind.bits & TILE_BUILDING != 0
        &&& d.kind.bits & TILE_TERRAIN == 0
        &&& d.size_w == 1
        &&& d.size_h == 1
        &&& w.building_configs.kind_for_tile_name(d.name@).is_some()
    }
}

/// Among the first `n` cells of `preset`, row by row, every placeable cell is
/// occupied by a building or a blocker.
pub open spec fn placed_up_to(preset: PresetTiles, tile_sets: TileSets, m: TileMap, w: World, n: int) -> bool {
    forall|c: Cell| #![trigger m.tile_at(TileMapLayerKind::Objects, c)]
        m.in_bounds(c) && c.y * preset.width + c.x < n && placeable_cell(preset, tile_sets, w, c)
            ==> occupied_by_building(m, c)
}

/// A cell at the same row-major position of a `w`-wide grid as `(x, y)` is `(x, y)`.
proof fn lemma_position_is_cell(w: int, c: Cell, x: i32, y: i32)
    requires
        0 <= c.x < w,
        0 <= x < w,
        0 <= c.y,
        0 <= y,
        c.y * w + c.x == y * w + x,
    ensures
        c == (Cell { x, y }),
{
    crate::map::lemma_grid_index_injective(w, c.x as int, c.y as int, x as int, y as int);
}

/// An occupied tile is not free.
proof fn lemma_occupied_not_free(m: TileMap, c: Cell)
    requires
        occupied_by_building(m, c),
    ensures
        !crate::placement::objects_free(m, c),
{
    let b = m.tile_at(TileMapLayerKind::Objects, c).kind.bits;
    assert(b == TILE_BLOCKER || b & TILE_BUILDING != 0 ==> b & (TILE_BUILDING | TILE_BLOCKER | TILE_UNIT) != 0) by (bit_vector);
}

/// In a sound map, a tile that is not free is occupied by a building or a blocker.
proof fn lemma_not_free_occupied(m: TileMap, w: World, c: Cell)
    requires
        objects_sound(m, w),
        m.in_bounds(c),
        !crate::placement::objects_free(m, c),
    ensures
        occupied_by_building(m, c),
{
    let b = m.tile_at(TileMapLayerKind::Objects, c).kind.bits;
    assert(b == 0 ==> b & (TILE_BUILDING | TILE_BLOCKER | TILE_UNIT) == 0) by (bit_vector);
}

/// Passing a cell with nothing placed keeps the record.
proof fn lemma_placed_extends(preset: PresetTiles, tile_sets: TileSets, m: TileMap, w: World, x: i32, y: i32)
    requires
        preset.wf(),
        m.wf(),
        m.width == preset.width,
        0 <= x < preset.width,
        0 <= y < preset.height,
        placed_up_to(preset, tile_sets, m, w, y * preset.width + x),
        placeable_cell(preset, tile_sets, w, Cell { x, y }) ==> occupied_by_building(m, Cell { x, y }),
    ensures
        placed_up_to(preset, tile_sets, m, w, y * preset.width + x + 1),
{
    assert forall|c: Cell| #![trigger m.tile_at(TileMapLayerKind::Objects, c)]
        m.in_bounds(c) && c.y * preset.width + c.x < y * preset.width + x + 1 && placeable_cell(preset, tile_sets, w, c)
        implies occupied_by_building(m, c) by {
        if c.y * preset.width + c.x == y * preset.width + x {
            lemma_position_is_cell(preset.width as int, c, x, y);
        }
    }
}

/// Spawning at `(x, y)` keeps the map sound and the earlier cells occupied,
/// and occupies `(x, y)`.
proof fn lemma_spawn_step(preset: PresetTiles, tile_sets: TileSets, m0: TileMap, m1: TileMap, w0: World, w1: World, x: i32, y: i32, index: usize, bits: u32, kind_bits: u32)
    requires
        preset.wf(),
        m0.wf(),
        m1.wf(),
        w0.wf(),
        w1.wf(),
        m0.width == preset.width,
        m0.height == preset.height,
        m1.same_shape(m0),
        0 <= x < preset.width,
        0 <= y < preset.height,
        kind_bits & TILE_BUILDING != 0,
        objects_sound(m0, w0),
        placed_up_to(preset, tile_sets, m0, w0, y * preset.width + x),
        w1.building_configs == w0.building_configs,
        crate::world::building_spawned_at(w1, m1, Cell { x, y }, index, bits),
        w1.list_of(archetype_of(bits)).entries().remove(index) == w0.list_of(archetype_of(bits)).entries(),
        w1.same_but_list(w0, archetype_of(bits)),
        m1.tile_at(TileMapLayerKind::Objects, Cell { x, y }).kind.bits == kind_bits,
        forall|c: Cell| m1.in_bounds(c) && c != (Cell { x, y }) && !crate::placement::objects_free(m0, c)
            ==> #[trigger] m1.tile_at(TileMapLayerKind::Objects, c) == m0.tile_at(TileMapLayerKind::Objects, c),
        forall|c: Cell| m1.in_bounds(c) && c != (Cell { x, y })
            ==> #[trigger] m1.tile_at(TileMapLayerKind::Objects, c) == m0.tile_at(TileMapLayerKind::Objects, c)
                || m1.tile_at(TileMapLayerKind::Objects, c).kind.bits == TILE_BLOCKER,
    ensures
        objects_sound(m1, w1),
        placed_up_to(preset, tile_sets, m1, w1, y * preset.width + x + 1),
{
    let a = archetype_of(bits);
    assert(w1.list_of(a).wf());
    assert(w1.list_of(a).entries()[index].wf());
    assert forall|c: Cell| #![trigger m1.tile_at(TileMapLayerKind::Objects, c)]
        m1.in_bounds(c) && m1.tile_at(TileMapLayerKind::Objects, c) == m0.tile_at(TileMapLayerKind::Objects, c)
            && m0.tile_at(TileMapLayerKind::Objects, c).kind.bits & TILE_BUILDING != 0
            && names_building(m0.tile_at(TileMapLayerKind::Objects, c).game_state)
            && w0.list_of(archetype_of(m0.tile_at(TileMapLayerKind::Objects, c).game_state.kind)).entries().contains_key(m0.tile_at(TileMapLayerKind::Objects, c).game_state.index)
        implies w1.list_of(archetype_of(m1.tile_at(TileMapLayerKind::Objects, c).game_state.kind)).entries().contains_key(m1.tile_at(TileMapLayerKind::Objects, c).game_state.index) by {
        let t0 = m0.tile_at(TileMapLayerKind::Objects, c);
        let a2 = archetype_of(t0.game_state.kind);
        if a2 == a {
            assert(w1.list_of(a).entries().remove(index).contains_key(t0.game_state.index));
        }
    }
    assert forall|c: Cell| #![trigger m1.tile_at(TileMapLayerKind::Objects, c)] m1.in_bounds(c) implies {
        let t = m1.tile_at(TileMapLayerKind::Objects, c);
        ||| t.kind.bits == 0
        ||| t.kind.bits == TILE_BLOCKER
        ||| (t.kind.bits & TILE_BUILDING != 0 && names_building(t.game_state)
            && w1.list_of(archetype_of(t.game_state.kind)).entries().contains_key(t.game_state.index))
    } by {
        if c == (Cell { x, y }) {
        } else {
            assert(m0.tile_at(TileMapLayerKind::Objects, c) == m0.tile_at(TileMapLayerKind::Objects, c));
        }
    }
    assert forall|c: Cell| #![trigger m1.tile_at(TileMapLayerKind::Objects, c)]
        m1.in_bounds(c) && c.y * preset.width + c.x < y * preset.width + x + 1 && placeable_cell(preset, tile_sets, w1, c)
        implies occupied_by_building(m1, c) by {
        if c.y * preset.width + c.x == y * preset.width + x {
            lemma_position_is_cell(preset.width as int, c, x, y);
        } else {
            assert(m0.tile_at(TileMapLayerKind::Objects, c) == m0.tile_at(TileMapLayerKind::Objects, c));
            assert(occupied_by_building(m0, c));
            lemma_occupied_not_free(m0, c);
        }
    }
}

/// Builds the map of `preset`: its terrain, then its buildings, each spawned
/// through `world`. A tile missing from `tile_sets`, of the wrong kind for its
/// layer, or that cannot be placed is skipped, and building goes on.
pub fn build_tile_map(preset: &PresetTiles, world: &mut World, tile_sets: &TileSets) -> (m: TileMap)
    requires
        preset.wf(),
        old(world).wf(),
        forall|i: int| 0 <= i < tile_sets.defs@.len() ==> (#[trigger] tile_sets.defs@[i]).wf(),
    ensures
        final(world).wf(),
        final(world).building_configs == old(world).building_configs,
        m.wf(),
        m.width == preset.width,
        m.height == preset.height,
        objects_sound(m, *final(world)),
        forall|c: Cell| #![trigger m.tile_at(TileMapLayerKind::Objects, c)]
            m.in_bounds(c) && placeable_cell(*preset, *tile_sets, *old(world), c) ==> occupied_by_building(m, c),
{
    let width = preset.width;
    let height = preset.height;
    let mut tile_map = TileMap::new(width, height);
    let mut y: i32 = 0;
    while y < height
        invariant
            preset.wf(),
            width == preset.width,
            height == preset.height,
            tile_map.wf(),
            tile_map.width == width,
            tile_map.height == height,
            world.wf(),
            *world == *old(world),
            objects_sound(tile_map, *world),
            0 <= y <= height,
            forall|i: int| 0 <= i < tile_sets.defs@.len() ==> (#[trigger] tile_sets.defs@[i]).wf(),
        decreases height - y,
    {
        let mut x: i32 = 0;
        while x < width
            invariant
                preset.wf(),
                width == preset.width,
                height == preset.height,
                tile_map.wf(),
                tile_map.width == width,
                tile_map.height == height,
                world.wf(),
                *world == *old(world),
                objects_sound(tile_map, *world),
                0 <= y < height,
                0 <= x <= width,
                forall|i: int| 0 <= i < tile_sets.defs@.len() ==> (#[trigger] tile_sets.defs@[i]).wf(),
            decreases width - x,
        {
            proof {
                assert(y * width + x < width * height) by (nonlinear_arith)
                    requires 0 <= x < width, 0 <= y < height;
                assert(0 <= y * width) by (nonlinear_arith)
                    requires 0 <= y, 0 < width;
            }
            let tile_id = preset.terrain_tiles[(x + y * width) as usize];
            match find_tile(tile_sets, TileMapLayerKind::Terrain, tile_id) {
                Some(tile_def) => {
                    if tile_def.kind.bits != 0 && !tile_def.is_building() && !tile_def.is_unit() {
                        proof {
                            assert(tile_def.wf());
                        }
                        let ghost m0 = tile_map;
                        try_place_tile_in_layer(&mut tile_map, TileMapLayerKind::Terrain, Cell::new(x, y), tile_def);
                        proof {
                            assert(tile_map.objects@ == m0.objects@);
                            assert forall|c: Cell| #![trigger tile_map.tile_at(TileMapLayerKind::Objects, c)] tile_map.in_bounds(c)
                                implies tile_map.tile_at(TileMapLayerKind::Objects, c) == m0.tile_at(TileMapLayerKind::Objects, c) by {}
                        }
                    }
                },
                None => {},
            }
            x = x + 1;
        }
        y = y + 1;
    }
    let mut y: i32 = 0;
    while y < height
        invariant
            preset.wf(),
            width == preset.width,
            height == preset.height,
            tile_map.wf(),
            tile_map.width == width,
            tile_map.height == height,
            world.wf(),
            world.building_configs == old(world).building_configs,
            objects_sound(tile_map, *world),
            placed_up_to(*preset, *tile_sets, tile_map, *old(world), y * width),
            0 <= y <= height,
            forall|i: int| 0 <= i < tile_sets.defs@.len() ==> (#[trigger] tile_sets.defs@[i]).wf(),
        decreases height - y,
    {
        let mut x: i32 = 0;
        while x < width
            invariant
                preset.wf(),
                width == preset.width,
                height == preset.height,
                tile_map.wf(),
                tile_map.width == width,
                tile_map.height == height,
                world.wf(),
                world.building_configs == old(world).building_configs,
                objects_sound(tile_map, *world),
                placed_up_to(*preset, *tile_sets, tile_map, *old(world), y * width + x),
                0 <= y < height,
                0 <= x <= width,
                forall|i: int| 0 <= i < tile_sets.defs@.len() ==> (#[trigger] tile_sets.defs@[i]).wf(),
            decreases width - x,
        {
            proof {
                assert(y * width + x < width * height) by (nonlinear_arith)
                    requires 0 <= x < width, 0 <= y < height;
                assert(0 <= y * width) by (nonlinear_arith)
                    requires 0 <= y, 0 < width;
            }
            let tile_id = preset.building_tiles[(x + y * width) as usize];
            let ghost c = Cell { x, y };
            let ghost ow = *old(world);
            match find_tile(tile_sets, TileMapLayerKind::Objects, tile_id) {
                Some(tile_def) => {
                    let ghost di = choose|i: int| tile_sets.is_first_match(TileMapLayerKind::Objects, "buildings"@, building_tile_name(tile_id), i)
                        && tile_sets.defs@[i] == *tile_def;
                    if tile_def.is_building() {
                        proof {
                            assert(tile_def.wf());
                        }
                        let ghost m0 = tile_map;
                        let ghost w0 = *world;
                        match world.try_spawn_building_with_tile_def(&mut tile_map, Cell::new(x, y), tile_def) {
                            Ok(index) => {
                                proof {
                                    let bits = w0.building_configs.kind_for_tile_name(tile_def.name@).unwrap();
                                    lemma_spawn_step(*preset, *tile_sets, m0, tile_map, w0, *world, x, y, index, bits, tile_def.kind.bits);
                                }
                            },
                            Err(_) => {
                                proof {
                                    assert forall|c2: Cell| #![trigger tile_map.tile_at(TileMapLayerKind::Objects, c2)] tile_map.in_bounds(c2)
                                        implies tile_map.tile_at(TileMapLayerKind::Objects, c2) == m0.tile_at(TileMapLayerKind::Objects, c2) by {}
                                    if placeable_cell(*preset, *tile_sets, ow, c) {
                                        assert(tile_sets.is_first_match(TileMapLayerKind::Objects, "buildings"@, building_tile_name(tile_id), di));
                                        assert(!crate::placement::footprint_clear(m0, c, 1, 1));
                                        if crate::placement::objects_free(m0, c) {
                                            assert forall|d: Cell| #[trigger] crate::placement::in_footprint(d, c, 1, 1)
                                                implies crate::placement::objects_free(m0, d) by {
                                                assert(d == c);
                                            }
                                        }
                                        lemma_not_free_occupied(m0, w0, c);
                                    }
                                    lemma_placed_extends(*preset, *tile_sets, tile_map, ow, x, y);
                                }
                            },
                        }
                    } else {
                        proof {
                            if placeable_cell(*preset, *tile_sets, ow, c) {
                                assert(tile_sets.is_first_match(TileMapLayerKind::Objects, "buildings"@, building_tile_name(tile_id), di));
                            }
                            lemma_placed_extends(*preset, *tile_sets, tile_map, ow, x, y);
                        }
                    }
                },
                None => {
                    proof {
                        lemma_placed_extends(*preset, *tile_sets, tile_map, ow, x, y);
                    }
                },
            }
            x = x + 1;
        }
        proof {
            assert((y + 1) * width == y * width + width) by (nonlinear_arith);
        }
        y = y + 1;
    }
    proof {
        assert(height * width == width * height) by (nonlinear_arith);
        assert forall|c: Cell| #![trigger tile_map.tile_at(TileMapLayerKind::Objects, c)]
            tile_map.in_bounds(c) && placeable_cell(*preset, *tile_sets, *old(world), c)
            implies occupied_by_building(tile_map, c) by {
            assert(c.y * width + c.x < width * height) by (nonlinear_arith)
                requires 0 <= c.x < width, 0 <= c.y < height;
        }
    }
    tile_map
}

/// One house, two wells, a market, a farm and a granary.
pub fn preset_tiles_0() -> (r: PresetTiles)
    ensures
        r.wf(),
        r.width == 9,
        r.height == 9,
{
    let g = GRASS;
    let rd = ROAD;
    let x = EMPTY;
    let terrain_tiles = vec![
        rd, rd, rd, rd, rd, rd, rd, rd, rd,
        rd, g, g, g, g, g, g, g, rd,
        rd, g, g, g, g, g, g, g, rd,
        rd, rd, g, g, g, g, g, g, rd,
        rd, g, g, g, g, rd, rd, rd, rd,
        rd, g, g, g, g, g, g, g, rd,
        rd, g, g, g, g, g, g, g, rd,
        rd, g, g, g, g, g, g, g, rd,
        rd, rd, rd, rd, rd, rd, rd, rd, rd,
    ];
    let h = HOUSE;
    let w = WELL_SMALL;
    let b = WELL_BIG;
    let m = MARKET;
    let f = FARM;
    let s = GRANARY;
    let building_tiles = vec![
        x, x, x, x, x, x, x, x, x,
        x, h, x, b, x, m, x, x, x,
        x, x, x, x, x, x, x, x, x,
        x, x, w, x, x, x, x, x, x,
        x, f, x, x, x, x, x, x, x,
        x, x, x, x, x, s, x, x, x,
        x, x, x, x, x, x, x, x, x,
        x, x, x, x, x, x, x, x, x,
        x, x, x, x, x, x, x, x, x,
    ];
    PresetTiles { width: 9, height: 9, terrain_tiles, building_tiles }
}

} // verus!
