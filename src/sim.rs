use vstd::prelude::*;
use rand::SeedableRng;
use rand_pcg::Lcg128Xsl64;

use crate::building::{Building, BuildingKind, archetype_of};
use crate::map::TileMap;
use crate::placement::TileSets;
use crate::tiles::{
    Cell, CellRange, Tile, TileDef, TileKind, TileMapLayerKind, INVALID_HANDLE_INDEX,
    TILE_BUILDING,
};
use crate::world::{World, names_building};

verus! {

#[verifier::external_type_specification]
#[verifier::external_body]
pub struct ExLcg128Xsl64(Lcg128Xsl64);

/// Seed of the simulation's random generator.
pub const DEFAULT_RANDOM_SEED: u64 = 0xCAFE0CAFE0CAFE03;

/// Time between two world updates, in milliseconds.
pub const DEFAULT_SIM_UPDATE_FREQUENCY_MS: u64 = 500;

/// Relies on `SeedableRng::seed_from_u64` for `rand_pcg::Pcg64`: a generator
/// seeded from `seed`.
#[verifier::external_body]
fn seeded_generator(seed: u64) -> (r: Lcg128Xsl64) {
    Lcg128Xsl64::seed_from_u64(seed)
}

/// Whether a tick of the fixed-step timer calls for a world update.
#[derive(Clone, Copy, Debug, PartialEq, Eq, Structural)]
pub enum UpdateTimerResult {
    DoNotUpdate,
    ShouldUpdate,
}

impl UpdateTimerResult {
    pub fn should_update(self) -> (r: bool)
        ensures
            r == (self == UpdateTimerResult::ShouldUpdate),
    {
        self == UpdateTimerResult::ShouldUpdate
    }
}

/// A fixed-step timer: it accumulates elapsed time and fires once the
/// accumulated time reaches the update frequency.
#[derive(Clone, Copy, Debug, PartialEq, Eq, Structural)]
pub struct UpdateTimer {
    pub update_frequency_ms: u64,
    pub time_since_last_update_ms: u64,
}

/// The accumulator after adding `delta` to `acc`, saturating at the maximum.
pub open spec fn accumulate(acc: u64, delta: u64) -> u64 {
    if acc + delta > u64::MAX {
        u64::MAX
    } else {
        (acc + delta) as u64
    }
}

/// One tick of `delta` took the timer from `before` to `after` with result `r`.
pub open spec fn ticked(before: UpdateTimer, delta: u64, after: UpdateTimer, r: UpdateTimerResult) -> bool {
    let acc = accumulate(before.time_since_last_update_ms, delta);
    &&& after.update_frequency_ms == before.update_frequency_ms
    &&& r.should_update_spec() == (acc >= before.update_frequency_ms)
    &&& after.time_since_last_update_ms == if acc >= before.update_frequency_ms {
        0
    } else {
        acc
    }
}

impl UpdateTimer {
    pub fn new(update_frequency_ms: u64) -> (r: UpdateTimer)
        ensures
            r.update_frequency_ms == update_frequency_ms,
            r.time_since_last_update_ms == 0,
    {
        UpdateTimer { update_frequency_ms, time_since_last_update_ms: 0 }
    }

    /// Adds `delta_time_ms` to the accumulated time. When the total reaches
    /// the frequency, the timer resets to zero and says to update; one tick
    /// fires at most one update.
    pub fn tick(&mut self, delta_time_ms: u64) -> (r: UpdateTimerResult)
        ensures
            ticked(*old(self), delta_time_ms, *final(self), r),
    {
        self.time_since_last_update_ms = self.time_since_last_update_ms.saturating_add(delta_time_ms);
        if self.time_since_last_update_ms >= self.update_frequency_ms {
            self.time_since_last_update_ms = 0;
            UpdateTimerResult::ShouldUpdate
        } else {
            UpdateTimerResult::DoNotUpdate
        }
    }

    pub fn frequency_ms(&self) -> (r: u64)
        ensures
            r == self.update_frequency_ms,
    {
        self.update_frequency_ms
    }

    pub fn time_since_last_ms(&self) -> (r: u64)
        ensures
            r == self.time_since_last_update_ms,
    {
        self.time_since_last_update_ms
    }
}

impl UpdateTimerResult {
    pub open spec fn should_update_spec(self) -> bool {
        self == UpdateTimerResult::ShouldUpdate
    }
}

/// The fixed-step scheduler and the random generator of the simulation.
pub struct Simulation {
    pub update_timer: UpdateTimer,
    pub rng: Lcg128Xsl64,
}

impl Simulation {
    pub fn new() -> (r: Simulation)
        ensures
            r.update_timer.update_frequency_ms == DEFAULT_SIM_UPDATE_FREQUENCY_MS,
            r.update_timer.time_since_last_update_ms == 0,
    {
        Simulation {
            update_timer: UpdateTimer::new(DEFAULT_SIM_UPDATE_FREQUENCY_MS),
            rng: seeded_generator(DEFAULT_RANDOM_SEED),
        }
    }

    /// Advances the scheduler by one frame of `delta_time_ms`. Returns the
    /// time step of the world update to perform, which is all the time
    /// accumulated since the last one, or `None` when no update is due.
    pub fn update(&mut self, delta_time_ms: u64) -> (r: Option<u64>)
        ensures
            final(self).update_timer.update_frequency_ms == old(self).update_timer.update_frequency_ms,
            ({
                let acc = accumulate(old(self).update_timer.time_since_last_update_ms, delta_time_ms);
                &&& acc >= old(self).update_timer.update_frequency_ms ==> r == Some(acc)
                    && final(self).update_timer.time_since_last_update_ms == 0
                &&& acc < old(self).update_timer.update_frequency_ms ==> r.is_none()
                    && final(self).update_timer.time_since_last_update_ms == acc
            }),
    {
        let world_update_delta_time_ms = self.update_timer.time_since_last_ms().saturating_add(delta_time_ms);
        if self.update_timer.tick(delta_time_ms).should_update() {
            Some(world_update_delta_time_ms)
        } else {
            None
        }
    }
}

/// A tile of kind `kind`'s building stands at `c`: a building tile whose
/// valid handle carries that kind.
pub open spec fn building_of_kind_at(m: TileMap, c: Cell, kind: BuildingKind) -> bool {
    &&& m.in_bounds(c)
    &&& m.tile_at(TileMapLayerKind::Objects, c).kind.bits & TILE_BUILDING != 0
    &&& m.tile_at(TileMapLayerKind::Objects, c).game_state.index != INVALID_HANDLE_INDEX
    &&& m.tile_at(TileMapLayerKind::Objects, c).game_state.kind == kind.bits
}

/// `a` comes before `b` in row-major order.
pub open spec fn scan_before(a: Cell, b: Cell) -> bool {
    a.y < b.y || (a.y == b.y && a.x < b.x)
}

/// `c` is the first cell of `range`, in row-major order, with a building of `kind`.
pub open spec fn first_building_in(m: TileMap, range: CellRange, kind: BuildingKind, c: Cell) -> bool {
    &&& range.contains_cell(c)
    &&& building_of_kind_at(m, c, kind)
    &&& forall|d: Cell| #[trigger] range.contains_cell(d) && scan_before(d, c) ==> !building_of_kind_at(m, d, kind)
}

/// The search window of `start_cells` widened by `radius` on every side.
pub open spec fn search_range(start_cells: CellRange, radius: i32) -> CellRange {
    CellRange {
        start: Cell { x: (start_cells.start.x - radius) as i32, y: (start_cells.start.y - radius) as i32 },
        end: Cell { x: (start_cells.end.x + radius) as i32, y: (start_cells.end.y + radius) as i32 },
    }
}

/// A search that `Query` can make: a valid start range, a positive radius and
/// a window whose last row and column are below the `i32` maximum.
pub open spec fn search_ok(start_cells: CellRange, radius: i32) -> bool {
    &&& 0 <= start_cells.start.x <= start_cells.end.x
    &&& 0 <= start_cells.start.y <= start_cells.end.y
    &&& radius > 0
    &&& start_cells.end.x + radius < i32::MAX
    &&& start_cells.end.y + radius < i32::MAX
}

/// What building code may look at during a tick: the grid, the tile sets and
/// the world.
pub struct Query<'a> {
    pub tile_map: &'a TileMap,
    pub tile_sets: &'a TileSets,
    pub world: &'a World,
}

impl<'a> Query<'a> {
    pub fn new(tile_map: &'a TileMap, tile_sets: &'a TileSets, world: &'a World) -> (r: Query<'a>)
        ensures
            r.tile_map == tile_map,
            r.tile_sets == tile_sets,
            r.world == world,
    {
        Query { tile_map, tile_sets, world }
    }

    /// The first tile definition filed under `layer` and `category` named `name`.
    pub fn find_tile_def(&self, layer: TileMapLayerKind, category: &String, name: &String) -> (r: Option<&TileDef>)
        ensures
            match r {
                Some(d) => TileSets::def_matches(*d, layer, category@, name@),
                None => forall|i: int| 0 <= i < self.tile_sets.defs@.len() ==> !TileSets::def_matches(#[trigger] self.tile_sets.defs@[i], layer, category@, name@),
            },
    {
        self.tile_sets.find_tile_def_by_name(layer, category, name)
    }

    pub fn find_tile(&self, cell: Cell, layer: TileMapLayerKind, tile_kinds: TileKind) -> (r: Option<&Tile>)
        requires
            self.tile_map.wf(),
        ensures
            match r {
                Some(t) => self.tile_map.in_bounds(cell) && *t == self.tile_map.tile_at(layer, cell) && t.kind.bits & tile_kinds.bits != 0,
                None => !(self.tile_map.in_bounds(cell) && self.tile_map.tile_at(layer, cell).kind.bits & tile_kinds.bits != 0),
            },
    {
        self.tile_map.find_tile(cell, layer, tile_kinds)
    }

    /// `start_cells` widened by `radius` cells on every side: a square window.
    pub fn calc_search_range(start_cells: CellRange, radius_in_cells: i32) -> (r: CellRange)
        requires
            search_ok(start_cells, radius_in_cells),
        ensures
            r == search_range(start_cells, radius_in_cells),
    {
        let start_x = start_cells.start.x - radius_in_cells;
        let start_y = start_cells.start.y - radius_in_cells;
        let end_x = start_cells.end.x + radius_in_cells;
        let end_y = start_cells.end.y + radius_in_cells;
        CellRange::new(Cell::new(start_x, start_y), Cell::new(end_x, end_y))
    }

    /// The first cell of the window, in row-major order, with a building of
    /// `kind`, if any.
    pub fn find_building_cell(&self, start_cells: CellRange, kind: BuildingKind, radius_in_cells: i32) -> (r: Option<Cell>)
        requires
            self.tile_map.wf(),
            search_ok(start_cells, radius_in_cells),
        ensures
            match r {
                Some(c) => first_building_in(*self.tile_map, search_range(start_cells, radius_in_cells), kind, c),
                None => forall|d: Cell| #[trigger] search_range(start_cells, radius_in_cells).contains_cell(d)
                    ==> !building_of_kind_at(*self.tile_map, d, kind),
            },
    {
        let range = Self::calc_search_range(start_cells, radius_in_cells);
        let building = TileKind::building();
        let mut y: i32 = range.start.y;
        while y <= range.end.y
            invariant
                self.tile_map.wf(),
                range == search_range(start_cells, radius_in_cells),
                range.start.x <= range.end.x < i32::MAX,
                range.start.y <= y <= range.end.y + 1,
                range.end.y < i32::MAX,
                building.bits == TILE_BUILDING,
                forall|d: Cell| #[trigger] range.contains_cell(d) && d.y < y ==> !building_of_kind_at(*self.tile_map, d, kind),
            decreases range.end.y + 1 - y,
        {
            let mut x: i32 = range.start.x;
            while x <= range.end.x
                invariant
                    self.tile_map.wf(),
                    range == search_range(start_cells, radius_in_cells),
                    range.start.x <= x <= range.end.x + 1,
                    range.end.x < i32::MAX,
                    range.start.y <= y <= range.end.y,
                    building.bits == TILE_BUILDING,
                    forall|d: Cell| #[trigger] range.contains_cell(d) && (d.y < y || (d.y == y && d.x < x)) ==> !building_of_kind_at(*self.tile_map, d, kind),
                decreases range.end.x + 1 - x,
            {
                let cell = Cell { x, y };
                match self.tile_map.find_tile(cell, TileMapLayerKind::Objects, building) {
                    Some(tile) => {
                        let game_state = tile.game_state_handle();
                        if game_state.is_valid() && BuildingKind::from_game_state_handle(game_state) == kind {
                            assert(range.contains_cell(cell));
                            return Some(cell);
                        }
                    },
                    None => {},
                }
                x = x + 1;
            }
            y = y + 1;
        }
        None
    }

    /// True when a building of `kind` stands in the window.
    pub fn is_near_building(&self, start_cells: CellRange, kind: BuildingKind, radius_in_cells: i32) -> (r: bool)
        requires
            self.tile_map.wf(),
            search_ok(start_cells, radius_in_cells),
        ensures
            r == exists|d: Cell| #[trigger] search_range(start_cells, radius_in_cells).contains_cell(d)
                && building_of_kind_at(*self.tile_map, d, kind),
    {
        match self.find_building_cell(start_cells, kind, radius_in_cells) {
            Some(c) => {
                assert(search_range(start_cells, radius_in_cells).contains_cell(c));
                true
            },
            None => false,
        }
    }

    /// The building of `kind` found first in the window, in row-major order
    /// (not necessarily the geometrically nearest), if the world holds it.
    pub fn find_nearest_building(&self, start_cells: CellRange, kind: BuildingKind, radius_in_cells: i32) -> (r: Option<&Building>)
        requires
            self.tile_map.wf(),
            search_ok(start_cells, radius_in_cells),
        ensures
            forall|c: Cell| #[trigger] first_building_in(*self.tile_map, search_range(start_cells, radius_in_cells), kind, c) ==> {
                let h = self.tile_map.tile_at(TileMapLayerKind::Objects, c).game_state;
                let found = names_building(h) && self.world.list_of(archetype_of(h.kind)).entries().contains_key(h.index);
                &&& found ==> r == Some(&self.world.list_of(archetype_of(h.kind)).entries()[h.index])
                &&& !found ==> r.is_none()
            },
            (forall|d: Cell| #[trigger] search_range(start_cells, radius_in_cells).contains_cell(d)
                ==> !building_of_kind_at(*self.tile_map, d, kind)) ==> r.is_none(),
    {
        match self.find_building_cell(start_cells, kind, radius_in_cells) {
            Some(c) => {
                proof {
                    assert forall|c2: Cell| #[trigger] first_building_in(*self.tile_map, search_range(start_cells, radius_in_cells), kind, c2) implies c2 == c by {
                        if c2 != c {
                            if scan_before(c2, c) {
                                assert(search_range(start_cells, radius_in_cells).contains_cell(c2));
                            } else {
                                assert(scan_before(c, c2));
                                assert(search_range(start_cells, radius_in_cells).contains_cell(c));
                            }
                        }
                    }
                }
                match self.tile_map.find_tile(c, TileMapLayerKind::Objects, TileKind::building()) {
                    Some(tile) => self.world.find_building_for_tile(tile),
                    None => None,
                }
            },
            None => None,
        }
    }
}

/// Fixed-step law: from a fresh accumulator, ticks whose running total stays
/// below the frequency do not fire; the tick that brings it to the frequency
/// fires exactly once and leaves the accumulator at zero.
pub proof fn lemma_fixed_step(
    t0: UpdateTimer,
    t1: UpdateTimer,
    t2: UpdateTimer,
    t3: UpdateTimer,
    d1: u64,
    d2: u64,
    d3: u64,
    r1: UpdateTimerResult,
    r2: UpdateTimerResult,
    r3: UpdateTimerResult,
)
    requires
        t0.time_since_last_update_ms == 0,
        d1 + d2 < t0.update_frequency_ms,
        d1 + d2 + d3 >= t0.update_frequency_ms,
        ticked(t0, d1, t1, r1),
        ticked(t1, d2, t2, r2),
        ticked(t2, d3, t3, r3),
    ensures
        !r1.should_update_spec(),
        !r2.should_update_spec(),
        r3.should_update_spec(),
        t3.time_since_last_update_ms == 0,
{
}

} // verus!
