use vstd::prelude::*;

verus! {

/// A grid coordinate.
#[derive(Clone, Copy, Debug, PartialEq, Eq, Structural)]
pub struct Cell {
    pub x: i32,
    pub y: i32,
}

impl Cell {
    pub fn new(x: i32, y: i32) -> (r: Cell)
        ensures
            r.x == x,
            r.y == y,
    {
        Cell { x, y }
    }

    pub fn invalid() -> (r: Cell)
        ensures
            r.x == -1,
            r.y == -1,
    {
        Cell { x: -1, y: -1 }
    }

    pub fn is_valid(&self) -> (r: bool)
        ensures
            r == (self.x >= 0 && self.y >= 0),
    {
        self.x >= 0 && self.y >= 0
    }
}

/// An inclusive rectangle of cells, from `start` to `end`.
#[derive(Clone, Copy, Debug, PartialEq, Eq, Structural)]
pub struct CellRange {
    pub start: Cell,
    pub end: Cell,
}

impl CellRange {
    pub fn new(start: Cell, end: Cell) -> (r: CellRange)
        ensures
            r.start == start,
            r.end == end,
    {
        CellRange { start, end }
    }

    pub open spec fn contains_cell(&self, c: Cell) -> bool {
        self.start.x <= c.x <= self.end.x && self.start.y <= c.y <= self.end.y
    }

    pub fn is_valid(&self) -> (r: bool)
        ensures
            r == (self.start.x >= 0 && self.start.y >= 0 && self.start.x <= self.end.x
                && self.start.y <= self.end.y),
    {
        self.start.x >= 0 && self.start.y >= 0 && self.start.x <= self.end.x && self.start.y
            <= self.end.y
    }
}

/// Bit of each kind of tile.
pub const TILE_TERRAIN: u32 = 1;
pub const TILE_BUILDING: u32 = 2;
pub const TILE_UNIT: u32 = 4;
pub const TILE_BLOCKER: u32 = 8;
pub const TILE_PROP: u32 = 16;
pub const TILE_VEGETATION: u32 = 32;

/// Kinds of tile, as a bitmask; a filter may hold several bits.
#[derive(Clone, Copy, Debug, PartialEq, Eq, Structural)]
pub struct TileKind {
    pub bits: u32,
}

impl TileKind {
    pub fn empty() -> (r: TileKind)
        ensures
            r.bits == 0,
    {
        TileKind { bits: 0 }
    }

    pub fn terrain() -> (r: TileKind)
        ensures
            r.bits == TILE_TERRAIN,
    {
        TileKind { bits: TILE_TERRAIN }
    }

    pub fn building() -> (r: TileKind)
        ensures
            r.bits == TILE_BUILDING,
    {
        TileKind { bits: TILE_BUILDING }
    }

    pub fn unit() -> (r: TileKind)
        ensures
            r.bits == TILE_UNIT,
    {
        TileKind { bits: TILE_UNIT }
    }

    pub fn blocker() -> (r: TileKind)
        ensures
            r.bits == TILE_BLOCKER,
    {
        TileKind { bits: TILE_BLOCKER }
    }

    pub fn building_or_blocker() -> (r: TileKind)
        ensures
            r.bits == TILE_BUILDING | TILE_BLOCKER,
    {
        TileKind { bits: TILE_BUILDING | TILE_BLOCKER }
    }

    /// True when `self` shares a bit with `kinds`.
    pub fn intersects(&self, kinds: TileKind) -> (r: bool)
        ensures
            r == (self.bits & kinds.bits != 0),
    {
        self.bits & kinds.bits != 0
    }
}

/// The two layers of the grid.
#[derive(Clone, Copy, Debug, PartialEq, Eq, Structural)]
pub enum TileMapLayerKind {
    Terrain,
    Objects,
}

/// The layer a tile of kind `k` goes to.
pub open spec fn layer_of(k: TileKind) -> TileMapLayerKind {
    if k.bits & TILE_TERRAIN != 0 {
        TileMapLayerKind::Terrain
    } else {
        TileMapLayerKind::Objects
    }
}

impl TileMapLayerKind {
    pub fn from_tile_kind(kind: TileKind) -> (r: TileMapLayerKind)
        ensures
            r == layer_of(kind),
    {
        if kind.bits & TILE_TERRAIN != 0 {
            TileMapLayerKind::Terrain
        } else {
            TileMapLayerKind::Objects
        }
    }
}

/// An entry of the tile-set catalog: a named tile and its footprint in cells.
#[derive(Clone, Debug)]
pub struct TileDef {
    pub name: String,
    pub category: String,
    pub kind: TileKind,
    pub size_w: i32,
    pub size_h: i32,
}

impl TileDef {
    pub open spec fn wf(&self) -> bool {
        self.size_w >= 1 && self.size_h >= 1
    }

    pub fn is_empty(&self) -> (r: bool)
        ensures
            r == (self.kind.bits == 0),
    {
        self.kind.bits == 0
    }

    pub fn is_building(&self) -> (r: bool)
        ensures
            r == (self.kind.bits & TILE_BUILDING != 0),
    {
        self.kind.bits & TILE_BUILDING != 0
    }

    pub fn is_unit(&self) -> (r: bool)
        ensures
            r == (self.kind.bits & TILE_UNIT != 0),
    {
        self.kind.bits & TILE_UNIT != 0
    }

    pub open spec fn has_multi_cell_footprint_spec(&self) -> bool {
        self.size_w > 1 || self.size_h > 1
    }

    pub fn has_multi_cell_footprint(&self) -> (r: bool)
        ensures
            r == self.has_multi_cell_footprint_spec(),
    {
        self.size_w > 1 || self.size_h > 1
    }
}

/// Marks an invalid handle index.
pub const INVALID_HANDLE_INDEX: usize = usize::MAX;

/// What a tile carries to find the entity on it: an index into a building
/// list or the unit pool, and a tag telling which.
#[derive(Clone, Copy, Debug, PartialEq, Eq, Structural)]
pub struct GameStateHandle {
    pub index: usize,
    pub kind: u32,
}

impl GameStateHandle {
    pub fn new(index: usize, kind: u32) -> (r: GameStateHandle)
        ensures
            r.index == index,
            r.kind == kind,
    {
        GameStateHandle { index, kind }
    }

    pub fn invalid() -> (r: GameStateHandle)
        ensures
            r.index == INVALID_HANDLE_INDEX,
            r.kind == 0,
    {
        GameStateHandle { index: INVALID_HANDLE_INDEX, kind: 0 }
    }

    pub fn is_valid(&self) -> (r: bool)
        ensures
            r == (self.index != INVALID_HANDLE_INDEX),
    {
        self.index != INVALID_HANDLE_INDEX
    }

    pub fn index(&self) -> (r: usize)
        ensures
            r == self.index,
    {
        self.index
    }

    pub fn kind(&self) -> (r: u32)
        ensures
            r == self.kind,
    {
        self.kind
    }
}

/// One cell of one layer. An empty tile has no kind bits. A blocker stands on
/// the extra cells of a multi-cell building and names its owner's base cell.
#[derive(Debug)]
pub struct Tile {
    pub name: String,
    pub kind: TileKind,
    /// Base cell of the tile, or of its owner for a blocker.
    pub base_cell: Cell,
    /// Footprint of the tile, or of its owner for a blocker.
    pub size_w: i32,
    pub size_h: i32,
    pub game_state: GameStateHandle,
}

impl Tile {
    pub open spec fn is_empty_spec(&self) -> bool {
        self.kind.bits == 0
    }

    pub fn is_empty(&self) -> (r: bool)
        ensures
            r == self.is_empty_spec(),
    {
        self.kind.bits == 0
    }

    /// True when the tile has one of the kinds of `kinds`.
    pub fn is(&self, kinds: TileKind) -> (r: bool)
        ensures
            r == (self.kind.bits & kinds.bits != 0),
    {
        self.kind.bits & kinds.bits != 0
    }

    pub fn name(&self) -> (r: &String)
        ensures
            r == &self.name,
    {
        &self.name
    }

    pub fn base_cell(&self) -> (r: Cell)
        ensures
            r == self.base_cell,
    {
        self.base_cell
    }

    pub fn game_state_handle(&self) -> (r: GameStateHandle)
        ensures
            r == self.game_state,
    {
        self.game_state
    }

    /// The cells the tile covers, or its owner covers for a blocker.
    pub fn cell_range(&self) -> (r: CellRange)
        requires
            self.size_w >= 1,
            self.size_h >= 1,
            self.base_cell.x + self.size_w - 1 <= i32::MAX,
            self.base_cell.y + self.size_h - 1 <= i32::MAX,
        ensures
            r.start == self.base_cell,
            r.end.x == self.base_cell.x + self.size_w - 1,
            r.end.y == self.base_cell.y + self.size_h - 1,
    {
        CellRange {
            start: self.base_cell,
            end: Cell { x: self.base_cell.x + (self.size_w - 1), y: self.base_cell.y + (self.size_h - 1) },
        }
    }
}

/// An empty tile: no kind, no handle, no name, one cell.
pub open spec fn empty_tile_spec(t: Tile) -> bool {
    t.kind.bits == 0 && t.size_w == 1 && t.size_h == 1 && t.game_state.index
        == INVALID_HANDLE_INDEX && t.name@.len() == 0
}

/// The tile that placing `def` at `c` puts there.
pub open spec fn placed_tile_spec(t: Tile, def: TileDef, c: Cell) -> bool {
    t.kind == def.kind && t.base_cell == c && t.size_w == def.size_w && t.size_h == def.size_h
        && t.game_state.index == INVALID_HANDLE_INDEX && t.name@ == def.name@
}

/// The blocker that a building of `def` based at `owner` puts on its other cells.
pub open spec fn blocker_tile_spec(t: Tile, def: TileDef, owner: Cell) -> bool {
    t.kind.bits == TILE_BLOCKER && t.base_cell == owner && t.size_w == def.size_w && t.size_h
        == def.size_h && t.game_state.index == INVALID_HANDLE_INDEX && t.name@ == def.name@
}

pub fn empty_tile(c: Cell) -> (r: Tile)
    ensures
        empty_tile_spec(r),
        r.base_cell == c,
{
    Tile {
        name: String::new(),
        kind: TileKind { bits: 0 },
        base_cell: c,
        size_w: 1,
        size_h: 1,
        game_state: GameStateHandle::invalid(),
    }
}

pub(crate) fn placed_tile(def: &TileDef, c: Cell) -> (r: Tile)
    ensures
        placed_tile_spec(r, *def, c),
{
    Tile {
        name: def.name.clone(),
        kind: def.kind,
        base_cell: c,
        size_w: def.size_w,
        size_h: def.size_h,
        game_state: GameStateHandle::invalid(),
    }
}

pub(crate) fn blocker_tile(def: &TileDef, owner: Cell) -> (r: Tile)
    ensures
        blocker_tile_spec(r, *def, owner),
{
    Tile {
        name: def.name.clone(),
        kind: TileKind { bits: TILE_BLOCKER },
        base_cell: owner,
        size_w: def.size_w,
        size_h: def.size_h,
        game_state: GameStateHandle::invalid(),
    }
}

} // verus!
