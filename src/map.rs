use vstd::prelude::*;

use crate::tiles::{
    Cell, GameStateHandle, Tile, TileKind, TileMapLayerKind, empty_tile, empty_tile_spec,
};

verus! {

/// The position of `(x, y)` in a row-major grid of width `w`.
pub open spec fn grid_index(w: int, x: int, y: int) -> int {
    y * w + x
}

/// Grid positions of in-bounds cells are in range.
pub proof fn lemma_grid_index_bounds(w: int, h: int, x: int, y: int)
    requires
        0 <= x < w,
        0 <= y < h,
    ensures
        0 <= grid_index(w, x, y) < w * h,
{
    assert(0 <= y * w) by (nonlinear_arith)
        requires
            0 <= y,
            0 < w,
    ;
    assert((y + 1) * w <= h * w) by (nonlinear_arith)
        requires
            y + 1 <= h,
            0 < w,
    ;
    assert((y + 1) * w == y * w + w) by (nonlinear_arith);
    assert(h * w == w * h) by (nonlinear_arith);
}

/// Distinct in-bounds cells have distinct grid positions.
pub proof fn lemma_grid_index_injective(w: int, x1: int, y1: int, x2: int, y2: int)
    requires
        0 <= x1 < w,
        0 <= x2 < w,
        0 <= y1,
        0 <= y2,
        grid_index(w, x1, y1) == grid_index(w, x2, y2),
    ensures
        x1 == x2,
        y1 == y2,
{
    if y1 < y2 {
        assert((y1 + 1) * w <= y2 * w) by (nonlinear_arith)
            requires
                y1 + 1 <= y2,
                0 < w,
        ;
        assert((y1 + 1) * w == y1 * w + w) by (nonlinear_arith);
    } else if y2 < y1 {
        assert((y2 + 1) * w <= y1 * w) by (nonlinear_arith)
            requires
                y2 + 1 <= y1,
                0 < w,
        ;
        assert((y2 + 1) * w == y2 * w + w) by (nonlinear_arith);
    }
}

/// The grid: a terrain layer and an objects layer of `width * height` tiles,
/// row by row.
#[derive(Debug)]
pub struct TileMap {
    pub width: i32,
    pub height: i32,
    pub terrain: Vec<Tile>,
    pub objects: Vec<Tile>,
}

impl TileMap {
    pub open spec fn wf(&self) -> bool {
        &&& 0 < self.width
        &&& 0 < self.height
        &&& self.width * self.height <= usize::MAX
        &&& self.terrain@.len() == self.width * self.height
        &&& self.objects@.len() == self.width * self.height
    }

    pub open spec fn in_bounds(&self, c: Cell) -> bool {
        0 <= c.x < self.width && 0 <= c.y < self.height
    }

    pub open spec fn idx(&self, c: Cell) -> int {
        grid_index(self.width as int, c.x as int, c.y as int)
    }

    pub open spec fn layer(&self, l: TileMapLayerKind) -> Seq<Tile> {
        match l {
            TileMapLayerKind::Terrain => self.terrain@,
            TileMapLayerKind::Objects => self.objects@,
        }
    }

    /// The tile of layer `l` at cell `c`.
    pub open spec fn tile_at(&self, l: TileMapLayerKind, c: Cell) -> Tile {
        self.layer(l)[self.idx(c)]
    }

    /// `self` and `other` have the same size.
    pub open spec fn same_shape(&self, other: TileMap) -> bool {
        self.width == other.width && self.height == other.height
    }

    /// A map of `width` by `height` empty tiles in both layers.
    pub fn new(width: i32, height: i32) -> (r: TileMap)
        requires
            0 < width,
            0 < height,
            width * height <= usize::MAX,
        ensures
            r.wf(),
            r.width == width,
            r.height == height,
            forall|l: TileMapLayerKind, c: Cell| r.in_bounds(c) ==> empty_tile_spec(#[trigger] r.tile_at(l, c)),
    {
        let n: usize = (width as usize) * (height as usize);
        let mut terrain: Vec<Tile> = Vec::new();
        let mut objects: Vec<Tile> = Vec::new();
        let mut i: usize = 0;
        while i < n
            invariant
                i <= n,
                terrain@.len() == i,
                objects@.len() == i,
                forall|j: int| 0 <= j < i ==> empty_tile_spec(#[trigger] terrain@[j]),
                forall|j: int| 0 <= j < i ==> empty_tile_spec(#[trigger] objects@[j]),
            decreases n - i,
        {
            terrain.push(empty_tile(Cell { x: -1, y: -1 }));
            objects.push(empty_tile(Cell { x: -1, y: -1 }));
            i = i + 1;
        }
        let r = TileMap { width, height, terrain, objects };
        proof {
            assert forall|l: TileMapLayerKind, c: Cell| r.in_bounds(c) implies empty_tile_spec(#[trigger] r.tile_at(l, c)) by {
                lemma_grid_index_bounds(width as int, height as int, c.x as int, c.y as int);
            }
        }
        r
    }

    pub fn is_cell_within_bounds(&self, c: Cell) -> (r: bool)
        ensures
            r == self.in_bounds(c),
    {
        0 <= c.x && c.x < self.width && 0 <= c.y && c.y < self.height
    }

    pub fn cell_index(&self, c: Cell) -> (r: usize)
        requires
            self.wf(),
            self.in_bounds(c),
        ensures
            r == self.idx(c),
            r < self.terrain@.len(),
    {
        proof {
            lemma_grid_index_bounds(self.width as int, self.height as int, c.x as int, c.y as int);
        }
        (c.y as usize) * (self.width as usize) + (c.x as usize)
    }

    /// The tile of layer `l` at `c`, when `c` is on the map.
    pub fn try_tile_from_layer(&self, c: Cell, l: TileMapLayerKind) -> (r: Option<&Tile>)
        requires
            self.wf(),
        ensures
            match r {
                Some(t) => self.in_bounds(c) && *t == self.tile_at(l, c),
                None => !self.in_bounds(c),
            },
    {
        if !self.is_cell_within_bounds(c) {
            return None;
        }
        let i = self.cell_index(c);
        match l {
            TileMapLayerKind::Terrain => Some(&self.terrain[i]),
            TileMapLayerKind::Objects => Some(&self.objects[i]),
        }
    }

    /// True when `c` is on the map and its tile of layer `l` has one of `kinds`.
    pub fn has_tile(&self, c: Cell, l: TileMapLayerKind, kinds: TileKind) -> (r: bool)
        requires
            self.wf(),
        ensures
            r == (self.in_bounds(c) && self.tile_at(l, c).kind.bits & kinds.bits != 0),
    {
        match self.try_tile_from_layer(c, l) {
            Some(t) => t.is(kinds),
            None => false,
        }
    }

    /// The tile of layer `l` at `c`, when `c` is on the map and the tile has
    /// one of `kinds`.
    pub fn find_tile(&self, c: Cell, l: TileMapLayerKind, kinds: TileKind) -> (r: Option<&Tile>)
        requires
            self.wf(),
        ensures
            match r {
                Some(t) => self.in_bounds(c) && *t == self.tile_at(l, c) && t.kind.bits & kinds.bits != 0,
                None => !(self.in_bounds(c) && self.tile_at(l, c).kind.bits & kinds.bits != 0),
            },
    {
        match self.try_tile_from_layer(c, l) {
            Some(t) => if t.is(kinds) {
                Some(t)
            } else {
                None
            },
            None => None,
        }
    }

    /// Replaces the tile of layer `l` at `c`.
    pub fn set_tile(&mut self, c: Cell, l: TileMapLayerKind, t: Tile)
        requires
            old(self).wf(),
            old(self).in_bounds(c),
        ensures
            final(self).wf(),
            final(self).same_shape(*old(self)),
            final(self).layer(l) == old(self).layer(l).update(old(self).idx(c), t),
            forall|o: TileMapLayerKind| o != l ==> final(self).layer(o) == old(self).layer(o),
            l == TileMapLayerKind::Terrain ==> final(self).objects@ == old(self).objects@,
            l == TileMapLayerKind::Objects ==> final(self).terrain@ == old(self).terrain@,
            final(self).tile_at(l, c) == t,
            forall|o: Cell|
                final(self).in_bounds(o) && o != c ==> #[trigger] final(self).tile_at(l, o) == old(
                    self,
                ).tile_at(l, o),
    {
        let ghost m0 = *self;
        let i = self.cell_index(c);
        match l {
            TileMapLayerKind::Terrain => self.terrain.set(i, t),
            TileMapLayerKind::Objects => self.objects.set(i, t),
        }
        proof {
            assert forall|o: Cell| self.in_bounds(o) && o != c implies #[trigger] self.tile_at(l, o) == m0.tile_at(l, o) by {
                lemma_cells_distinct(m0, o, c);
            }
        }
    }

    /// Sets the handle of the tile of layer `l` at `c`.
    pub fn set_game_state_handle(&mut self, c: Cell, l: TileMapLayerKind, handle: GameStateHandle)
        requires
            old(self).wf(),
            old(self).in_bounds(c),
        ensures
            final(self).wf(),
            final(self).same_shape(*old(self)),
            final(self).layer(l) == old(self).layer(l).update(old(self).idx(c), Tile { game_state: handle, ..old(self).tile_at(l, c) }),
            forall|o: TileMapLayerKind| o != l ==> final(self).layer(o) == old(self).layer(o),
            l == TileMapLayerKind::Terrain ==> final(self).objects@ == old(self).objects@,
            l == TileMapLayerKind::Objects ==> final(self).terrain@ == old(self).terrain@,
            final(self).tile_at(l, c) == (Tile { game_state: handle, ..old(self).tile_at(l, c) }),
            forall|o: Cell|
                final(self).in_bounds(o) && o != c ==> #[trigger] final(self).tile_at(l, o) == old(
                    self,
                ).tile_at(l, o),
    {
        let ghost m0 = *self;
        let i = self.cell_index(c);
        match l {
            TileMapLayerKind::Terrain => {
                let t = &mut self.terrain[i];
                t.game_state = handle;
            },
            TileMapLayerKind::Objects => {
                let t = &mut self.objects[i];
                t.game_state = handle;
            },
        }
        proof {
            assert forall|o: Cell| self.in_bounds(o) && o != c implies #[trigger] self.tile_at(l, o) == m0.tile_at(l, o) by {
                lemma_cells_distinct(m0, o, c);
            }
        }
    }
}

/// Under `m.wf()`, distinct on-map cells hold distinct tiles.
pub proof fn lemma_cells_distinct(m: TileMap, a: Cell, b: Cell)
    requires
        m.wf(),
        m.in_bounds(a),
        m.in_bounds(b),
        a != b,
    ensures
        m.idx(a) != m.idx(b),
        0 <= m.idx(a) < m.width * m.height,
{
    lemma_grid_index_bounds(m.width as int, m.height as int, a.x as int, a.y as int);
    if m.idx(a) == m.idx(b) {
        lemma_grid_index_injective(m.width as int, a.x as int, a.y as int, b.x as int, b.y as int);
    }
}

} // verus!
