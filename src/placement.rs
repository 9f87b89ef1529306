use vstd::prelude::*;

use crate::tiles::{
    Cell, TileDef, TileKind, TileMapLayerKind, blocker_tile, blocker_tile_spec, empty_tile,
    empty_tile_spec, layer_of, placed_tile, placed_tile_spec, TILE_BLOCKER, TILE_BUILDING,
    TILE_UNIT, TILE_TERRAIN,
};
use crate::map::{TileMap, lemma_cells_distinct};

verus! {

/// Tile kinds that occupy a cell of the objects layer.
pub const OCCUPYING_KINDS: u32 = TILE_BUILDING | TILE_BLOCKER | TILE_UNIT;

/// `c` lies in the `w` by `h` rectangle whose first cell is `base`.
pub open spec fn in_footprint(c: Cell, base: Cell, w: int, h: int) -> bool {
    base.x <= c.x < base.x + w && base.y <= c.y < base.y + h
}

/// Nothing occupies the objects layer at `c`.
pub open spec fn objects_free(m: TileMap, c: Cell) -> bool {
    m.tile_at(TileMapLayerKind::Objects, c).kind.bits & OCCUPYING_KINDS == 0
}

/// The `w` by `h` rectangle at `base` lies on the map and nothing occupies it.
pub open spec fn footprint_clear(m: TileMap, base: Cell, w: int, h: int) -> bool {
    &&& base.x + w <= m.width
    &&& base.y + h <= m.height
    &&& forall|c: Cell| #[trigger] in_footprint(c, base, w, h) ==> objects_free(m, c)
}

/// Whether a tile of `def` may be placed at `c`: a building needs its whole
/// footprint on the map and unoccupied, a unit needs its cell unoccupied, and
/// terrain can always be placed.
pub open spec fn placement_allowed(m: TileMap, c: Cell, def: TileDef) -> bool {
    if def.kind.bits & TILE_BUILDING != 0 {
        footprint_clear(m, c, def.size_w as int, def.size_h as int)
    } else if def.kind.bits & TILE_UNIT != 0 {
        objects_free(m, c)
    } else {
        true
    }
}

/// True when some cell is in both lists.
pub fn cells_overlap(lhs_cells: &Vec<Cell>, rhs_cells: &Vec<Cell>) -> (r: bool)
    ensures
        r == exists|i: int, j: int|
            0 <= i < lhs_cells@.len() && 0 <= j < rhs_cells@.len() && lhs_cells@[i]
                == rhs_cells@[j],
{
    let mut i: usize = 0;
    while i < lhs_cells.len()
        invariant
            i <= lhs_cells@.len(),
            forall|a: int, b: int|
                0 <= a < i && 0 <= b < rhs_cells@.len() ==> lhs_cells@[a] != rhs_cells@[b],
        decreases lhs_cells@.len() - i,
    {
        let mut j: usize = 0;
        while j < rhs_cells.len()
            invariant
                i < lhs_cells@.len(),
                j <= rhs_cells@.len(),
                forall|a: int, b: int|
                    0 <= a < i && 0 <= b < rhs_cells@.len() ==> lhs_cells@[a] != rhs_cells@[b],
                forall|b: int| 0 <= b < j ==> lhs_cells@[i as int] != rhs_cells@[b],
            decreases rhs_cells@.len() - j,
        {
            if lhs_cells[i] == rhs_cells[j] {
                return true;
            }
            j = j + 1;
        }
        i = i + 1;
    }
    false
}

/// Whether the `w` by `h` rectangle at `base` lies on the map with nothing
/// occupying it.
pub fn footprint_is_clear(m: &TileMap, base: Cell, w: i32, h: i32) -> (r: bool)
    requires
        m.wf(),
        m.in_bounds(base),
        w >= 1,
        h >= 1,
    ensures
        r == footprint_clear(*m, base, w as int, h as int),
{
    if w > m.width - base.x || h > m.height - base.y {
        return false;
    }
    let occupying = TileKind { bits: OCCUPYING_KINDS };
    let mut dy: i32 = 0;
    while dy < h
        invariant
            m.wf(),
            m.in_bounds(base),
            1 <= w,
            1 <= h,
            base.x + w <= m.width,
            base.y + h <= m.height,
            0 <= dy <= h,
            occupying.bits == OCCUPYING_KINDS,
            forall|c: Cell|
                #[trigger] in_footprint(c, base, w as int, h as int) && c.y < base.y + dy
                    ==> objects_free(*m, c),
        decreases h - dy,
    {
        let mut dx: i32 = 0;
        while dx < w
            invariant
                m.wf(),
                m.in_bounds(base),
                1 <= w,
                1 <= h,
                base.x + w <= m.width,
                base.y + h <= m.height,
                0 <= dy < h,
                0 <= dx <= w,
                occupying.bits == OCCUPYING_KINDS,
                forall|c: Cell|
                    #[trigger] in_footprint(c, base, w as int, h as int) && (c.y < base.y + dy || (
                    c.y == base.y + dy && c.x < base.x + dx)) ==> objects_free(*m, c),
            decreases w - dx,
        {
            let c = Cell { x: base.x + dx, y: base.y + dy };
            if m.has_tile(c, TileMapLayerKind::Objects, occupying) {
                assert(in_footprint(c, base, w as int, h as int));
                return false;
            }
            dx = dx + 1;
        }
        dy = dy + 1;
    }
    true
}

/// Puts a blocker owned by the building of `def` at `base` on every cell of
/// its footprint but `base`.
fn set_footprint_blockers(m: &mut TileMap, def: &TileDef, base: Cell)
    requires
        old(m).wf(),
        old(m).in_bounds(base),
        def.wf(),
        base.x + def.size_w <= old(m).width,
        base.y + def.size_h <= old(m).height,
    ensures
        final(m).wf(),
        final(m).same_shape(*old(m)),
        final(m).terrain@ == old(m).terrain@,
        forall|c: Cell|
            final(m).in_bounds(c) ==> if in_footprint(c, base, def.size_w as int, def.size_h as int)
                && c != base {
                blocker_tile_spec(#[trigger] final(m).tile_at(TileMapLayerKind::Objects, c), *def, base)
            } else {
                final(m).tile_at(TileMapLayerKind::Objects, c) == old(m).tile_at(
                    TileMapLayerKind::Objects,
                    c,
                )
            },
{
    let w = def.size_w;
    let h = def.size_h;
    let ghost m0 = *m;
    let mut dy: i32 = 0;
    while dy < h
        invariant
            m.wf(),
            m.same_shape(m0),
            m0.wf(),
            m0.in_bounds(base),
            m.terrain@ == m0.terrain@,
            w == def.size_w,
            h == def.size_h,
            def.wf(),
            base.x + w <= m.width,
            base.y + h <= m.height,
            0 <= dy <= h,
            forall|c: Cell|
                m.in_bounds(c) ==> if in_footprint(c, base, w as int, h as int) && c != base && c.y
                    < base.y + dy {
                    blocker_tile_spec(#[trigger] m.tile_at(TileMapLayerKind::Objects, c), *def, base)
                } else {
                    m.tile_at(TileMapLayerKind::Objects, c) == m0.tile_at(
                        TileMapLayerKind::Objects,
                        c,
                    )
                },
        decreases h - dy,
    {
        let mut dx: i32 = 0;
        while dx < w
            invariant
                m.wf(),
                m.same_shape(m0),
                m0.wf(),
                m0.in_bounds(base),
                m.terrain@ == m0.terrain@,
                w == def.size_w,
                h == def.size_h,
                def.wf(),
                base.x + w <= m.width,
                base.y + h <= m.height,
                0 <= dy < h,
                0 <= dx <= w,
                forall|c: Cell|
                    m.in_bounds(c) ==> if in_footprint(c, base, w as int, h as int) && c != base && (
                    c.y < base.y + dy || (c.y == base.y + dy && c.x < base.x + dx)) {
                        blocker_tile_spec(#[trigger] m.tile_at(TileMapLayerKind::Objects, c), *def, base)
                    } else {
                        m.tile_at(TileMapLayerKind::Objects, c) == m0.tile_at(
                            TileMapLayerKind::Objects,
                            c,
                        )
                    },
            decreases w - dx,
        {
            let c = Cell { x: base.x + dx, y: base.y + dy };
            if c != base {
                let ghost m1 = *m;
                m.set_tile(c, TileMapLayerKind::Objects, blocker_tile(def, base));
                proof {
                    assert forall|o: Cell| m.in_bounds(o) && o != c implies #[trigger] m.tile_at(
                        TileMapLayerKind::Objects,
                        o,
                    ) == m1.tile_at(TileMapLayerKind::Objects, o) by {
                        lemma_cells_distinct(m1, o, c);
                    }
                }
            }
            dx = dx + 1;
        }
        dy = dy + 1;
    }
}

/// Empties every on-map cell of layer `l` in the `w` by `h` rectangle at
/// `base`, except `keep`.
fn clear_footprint(m: &mut TileMap, l: TileMapLayerKind, base: Cell, w: i32, h: i32, keep: Cell)
    requires
        old(m).wf(),
    ensures
        final(m).wf(),
        final(m).same_shape(*old(m)),
        forall|o: TileMapLayerKind| o != l ==> final(m).layer(o) == old(m).layer(o),
        l == TileMapLayerKind::Terrain ==> final(m).objects@ == old(m).objects@,
        l == TileMapLayerKind::Objects ==> final(m).terrain@ == old(m).terrain@,
        forall|c: Cell|
            final(m).in_bounds(c) ==> if in_footprint(c, base, w as int, h as int) && c != keep {
                empty_tile_spec(#[trigger] final(m).tile_at(l, c))
            } else {
                final(m).tile_at(l, c) == old(m).tile_at(l, c)
            },
{
    let ghost m0 = *m;
    let mut dy: i32 = 0;
    while dy < h
        invariant
            m.wf(),
            m.same_shape(m0),
            m0.wf(),
            forall|o: TileMapLayerKind| o != l ==> m.layer(o) == m0.layer(o),
            l == TileMapLayerKind::Terrain ==> m.objects@ == m0.objects@,
            l == TileMapLayerKind::Objects ==> m.terrain@ == m0.terrain@,
            0 <= dy,
            dy <= h || h < 0,
            forall|c: Cell|
                m.in_bounds(c) ==> if in_footprint(c, base, w as int, h as int) && c != keep && c.y
                    < base.y + dy {
                    empty_tile_spec(#[trigger] m.tile_at(l, c))
                } else {
                    m.tile_at(l, c) == m0.tile_at(l, c)
                },
        decreases h - dy,
    {
        let mut dx: i32 = 0;
        while dx < w
            invariant
                m.wf(),
                m.same_shape(m0),
                m0.wf(),
                forall|o: TileMapLayerKind| o != l ==> m.layer(o) == m0.layer(o),
                l == TileMapLayerKind::Terrain ==> m.objects@ == m0.objects@,
                l == TileMapLayerKind::Objects ==> m.terrain@ == m0.terrain@,
                0 <= dy < h,
                0 <= dx,
                dx <= w || w < 0,
                forall|c: Cell|
                    m.in_bounds(c) ==> if in_footprint(c, base, w as int, h as int) && c != keep && (
                    c.y < base.y + dy || (c.y == base.y + dy && c.x < base.x + dx)) {
                        empty_tile_spec(#[trigger] m.tile_at(l, c))
                    } else {
                        m.tile_at(l, c) == m0.tile_at(l, c)
                    },
            decreases w - dx,
        {
            let x: i64 = base.x as i64 + dx as i64;
            let y: i64 = base.y as i64 + dy as i64;
            if 0 <= x && x < m.width as i64 && 0 <= y && y < m.height as i64 {
                let c = Cell { x: x as i32, y: y as i32 };
                if c != keep {
                    let ghost m1 = *m;
                    m.set_tile(c, l, empty_tile(c));
                    proof {
                        assert forall|o: Cell| m.in_bounds(o) && o != c implies #[trigger] m.tile_at(
                            l,
                            o,
                        ) == m1.tile_at(l, o) by {
                            lemma_cells_distinct(m1, o, c);
                        }
                    }
                }
            }
            dx = dx + 1;
        }
        dy = dy + 1;
    }
}

/// Places a tile of `tile_to_place` at `target_cell` in layer `kind` when
/// `placement_allowed` holds; a multi-cell building also puts blockers on
/// the rest of its footprint. Returns whether it placed.
pub fn try_place_tile_in_layer(
    tile_map: &mut TileMap,
    kind: TileMapLayerKind,
    target_cell: Cell,
    tile_to_place: &TileDef,
) -> (r: bool)
    requires
        old(tile_map).wf(),
        old(tile_map).in_bounds(target_cell),
        tile_to_place.wf(),
        tile_to_place.kind.bits != 0,
        layer_of(tile_to_place.kind) == kind,
        tile_to_place.kind.bits & TILE_BUILDING != 0 || tile_to_place.kind.bits & TILE_UNIT != 0
            ==> kind == TileMapLayerKind::Objects,
    ensures
        final(tile_map).wf(),
        final(tile_map).same_shape(*old(tile_map)),
        r == placement_allowed(*old(tile_map), target_cell, *tile_to_place),
        !r ==> final(tile_map).terrain@ == old(tile_map).terrain@ && final(tile_map).objects@
            == old(tile_map).objects@,
        r ==> placed_tile_spec(final(tile_map).tile_at(kind, target_cell), *tile_to_place, target_cell),
        r && kind == TileMapLayerKind::Terrain ==> final(tile_map).objects@ == old(tile_map).objects@,
        r && kind == TileMapLayerKind::Objects ==> final(tile_map).terrain@ == old(tile_map).terrain@,
        r ==> forall|c: Cell|
            final(tile_map).in_bounds(c) && c != target_cell ==> if tile_to_place.kind.bits
                & TILE_BUILDING != 0 && in_footprint(
                c,
                target_cell,
                tile_to_place.size_w as int,
                tile_to_place.size_h as int,
            ) {
                blocker_tile_spec(#[trigger] final(tile_map).tile_at(kind, c), *tile_to_place, target_cell)
            } else {
                final(tile_map).tile_at(kind, c) == old(tile_map).tile_at(kind, c)
            },
{
    let ghost m0 = *tile_map;
    if tile_to_place.is_building() {
        if !footprint_is_clear(tile_map, target_cell, tile_to_place.size_w, tile_to_place.size_h) {
            return false;
        }
        if tile_to_place.has_multi_cell_footprint() {
            set_footprint_blockers(tile_map, tile_to_place, target_cell);
        }
    } else if tile_to_place.is_unit() {
        let occupying = TileKind { bits: OCCUPYING_KINDS };
        if tile_map.has_tile(target_cell, TileMapLayerKind::Objects, occupying) {
            return false;
        }
    }
    let ghost m1 = *tile_map;
    tile_map.set_tile(target_cell, kind, placed_tile(tile_to_place, target_cell));
    proof {
        assert forall|c: Cell| tile_map.in_bounds(c) && c != target_cell implies #[trigger] tile_map.tile_at(kind, c) == m1.tile_at(kind, c) by {
            lemma_cells_distinct(m1, c, target_cell);
        }
        if !(tile_to_place.kind.bits & TILE_BUILDING != 0 && tile_to_place.has_multi_cell_footprint_spec()) {
            assert(m1.terrain@ == m0.terrain@ && m1.objects@ == m0.objects@);
        }
        if tile_to_place.kind.bits & TILE_BUILDING != 0 {
            assert forall|c: Cell| tile_map.in_bounds(c) && c != target_cell && in_footprint(c, target_cell, tile_to_place.size_w as int, tile_to_place.size_h as int)
                implies blocker_tile_spec(#[trigger] tile_map.tile_at(kind, c), *tile_to_place, target_cell) by {
                if !tile_to_place.has_multi_cell_footprint_spec() {
                    assert(c.x == target_cell.x && c.y == target_cell.y);
                } else {
                    assert(tile_map.tile_at(kind, c) == m1.tile_at(kind, c));
                }
            }
        }
    }
    true
}

/// Empties the tile of layer `kind` at `target_cell`; when it is a building
/// or a blocker, every on-map cell of its footprint is emptied too.
pub fn try_clear_tile_from_layer(tile_map: &mut TileMap, kind: TileMapLayerKind, target_cell: Cell) -> (r: bool)
    requires
        old(tile_map).wf(),
        old(tile_map).in_bounds(target_cell),
    ensures
        r,
        final(tile_map).wf(),
        final(tile_map).same_shape(*old(tile_map)),
        empty_tile_spec(final(tile_map).tile_at(kind, target_cell)),
        forall|o: TileMapLayerKind| o != kind ==> final(tile_map).layer(o) == old(tile_map).layer(o),
        kind == TileMapLayerKind::Terrain ==> final(tile_map).objects@ == old(tile_map).objects@,
        kind == TileMapLayerKind::Objects ==> final(tile_map).terrain@ == old(tile_map).terrain@,
        forall|c: Cell|
            final(tile_map).in_bounds(c) && c != target_cell ==> if old(tile_map).tile_at(kind, target_cell).kind.bits
                & (TILE_BUILDING | TILE_BLOCKER) != 0 && in_footprint(
                c,
                old(tile_map).tile_at(kind, target_cell).base_cell,
                old(tile_map).tile_at(kind, target_cell).size_w as int,
                old(tile_map).tile_at(kind, target_cell).size_h as int,
            ) {
                empty_tile_spec(#[trigger] final(tile_map).tile_at(kind, c))
            } else {
                final(tile_map).tile_at(kind, c) == old(tile_map).tile_at(kind, c)
            },
{
    let building_or_blocker = TileKind { bits: TILE_BUILDING | TILE_BLOCKER };
    if tile_map.has_tile(target_cell, kind, building_or_blocker) {
        let (base, w, h) = match tile_map.try_tile_from_layer(target_cell, kind) {
            Some(t) => (t.base_cell, t.size_w, t.size_h),
            None => (target_cell, 1, 1),
        };
        clear_footprint(tile_map, kind, base, w, h, target_cell);
    }
    let ghost m1 = *tile_map;
    tile_map.set_tile(target_cell, kind, empty_tile(target_cell));
    proof {
        assert forall|c: Cell| tile_map.in_bounds(c) && c != target_cell implies #[trigger] tile_map.tile_at(kind, c) == m1.tile_at(kind, c) by {
            lemma_cells_distinct(m1, c, target_cell);
        }
    }
    true
}

/// Places `tile_to_place` at the cell under the cursor, found by the caller
/// in the tile's own layer; nothing happens off the map.
pub fn try_place_tile_at_cursor(tile_map: &mut TileMap, cursor_cell: Cell, tile_to_place: &TileDef) -> (r: bool)
    requires
        old(tile_map).wf(),
        tile_to_place.wf(),
        tile_to_place.kind.bits != 0,
        tile_to_place.kind.bits & TILE_TERRAIN != 0 ==> tile_to_place.kind.bits & TILE_BUILDING
            == 0 && tile_to_place.kind.bits & TILE_UNIT == 0,
    ensures
        final(tile_map).wf(),
        final(tile_map).same_shape(*old(tile_map)),
        r == (old(tile_map).in_bounds(cursor_cell) && placement_allowed(*old(tile_map), cursor_cell, *tile_to_place)),
        !r ==> final(tile_map).terrain@ == old(tile_map).terrain@ && final(tile_map).objects@
            == old(tile_map).objects@,
        r ==> placed_tile_spec(final(tile_map).tile_at(layer_of(tile_to_place.kind), cursor_cell), *tile_to_place, cursor_cell),
{
    let layer_kind = TileMapLayerKind::from_tile_kind(tile_to_place.kind);
    if tile_map.is_cell_within_bounds(cursor_cell) {
        return try_place_tile_in_layer(tile_map, layer_kind, cursor_cell, tile_to_place);
    }
    false
}

/// Clears the topmost non-empty tile under the cursor: the objects layer at
/// `objects_cell` first, then the terrain layer at `terrain_cell`. Each cell
/// is the one the caller found under the cursor in that layer.
pub fn try_clear_tile_at_cursor(tile_map: &mut TileMap, objects_cell: Cell, terrain_cell: Cell) -> (r: bool)
    requires
        old(tile_map).wf(),
    ensures
        final(tile_map).wf(),
        final(tile_map).same_shape(*old(tile_map)),
        r == ((old(tile_map).in_bounds(objects_cell) && old(tile_map).tile_at(TileMapLayerKind::Objects, objects_cell).kind.bits != 0)
            || (old(tile_map).in_bounds(terrain_cell) && old(tile_map).tile_at(TileMapLayerKind::Terrain, terrain_cell).kind.bits != 0)),
        old(tile_map).in_bounds(objects_cell) && old(tile_map).tile_at(TileMapLayerKind::Objects, objects_cell).kind.bits != 0 ==> {
            &&& empty_tile_spec(final(tile_map).tile_at(TileMapLayerKind::Objects, objects_cell))
            &&& final(tile_map).terrain@ == old(tile_map).terrain@
        },
        !(old(tile_map).in_bounds(objects_cell) && old(tile_map).tile_at(TileMapLayerKind::Objects, objects_cell).kind.bits != 0)
            && old(tile_map).in_bounds(terrain_cell) && old(tile_map).tile_at(TileMapLayerKind::Terrain, terrain_cell).kind.bits != 0 ==> {
            &&& empty_tile_spec(final(tile_map).tile_at(TileMapLayerKind::Terrain, terrain_cell))
            &&& final(tile_map).objects@ == old(tile_map).objects@
        },
        !r ==> final(tile_map).terrain@ == old(tile_map).terrain@ && final(tile_map).objects@
            == old(tile_map).objects@,
{
    match tile_map.try_tile_from_layer(objects_cell, TileMapLayerKind::Objects) {
        Some(t) => {
            if !t.is_empty() {
                return try_clear_tile_from_layer(tile_map, TileMapLayerKind::Objects, objects_cell);
            }
        },
        None => {},
    }
    match tile_map.try_tile_from_layer(terrain_cell, TileMapLayerKind::Terrain) {
        Some(t) => {
            if !t.is_empty() {
                return try_clear_tile_from_layer(tile_map, TileMapLayerKind::Terrain, terrain_cell);
            }
        },
        None => {},
    }
    false
}


impl TileMap {
    /// Places a tile of `tile_def` at `cell` in the layer its kind goes to;
    /// an error when `cell` is off the map or placement is not allowed.
    pub fn try_place_tile(&mut self, cell: Cell, tile_def: &TileDef) -> (r: Result<(), String>)
        requires
            old(self).wf(),
            tile_def.wf(),
            tile_def.kind.bits != 0,
            tile_def.kind.bits & TILE_TERRAIN != 0 ==> tile_def.kind.bits & TILE_BUILDING == 0
                && tile_def.kind.bits & TILE_UNIT == 0,
        ensures
            final(self).wf(),
            final(self).same_shape(*old(self)),
            r.is_ok() == (old(self).in_bounds(cell) && placement_allowed(*old(self), cell, *tile_def)),
            r.is_err() ==> final(self).terrain@ == old(self).terrain@ && final(self).objects@ == old(self).objects@,
            r.is_ok() ==> placed_tile_spec(final(self).tile_at(layer_of(tile_def.kind), cell), *tile_def, cell),
            r.is_ok() && layer_of(tile_def.kind) == TileMapLayerKind::Objects ==> final(self).terrain@ == old(self).terrain@,
            r.is_ok() ==> forall|c: Cell|
                final(self).in_bounds(c) && c != cell ==> if tile_def.kind.bits & TILE_BUILDING != 0
                    && in_footprint(c, cell, tile_def.size_w as int, tile_def.size_h as int) {
                    blocker_tile_spec(#[trigger] final(self).tile_at(layer_of(tile_def.kind), c), *tile_def, cell)
                } else {
                    final(self).tile_at(layer_of(tile_def.kind), c) == old(self).tile_at(layer_of(tile_def.kind), c)
                },
    {
        if !self.is_cell_within_bounds(cell) {
            return Err("Cell is outside the map!".to_owned());
        }
        let layer = TileMapLayerKind::from_tile_kind(tile_def.kind);
        if try_place_tile_in_layer(self, layer, cell, tile_def) {
            Ok(())
        } else {
            Err("Cannot place a tile over an occupied cell!".to_owned())
        }
    }

    /// Empties the tile of `layer` at `cell` (and the rest of a building's
    /// footprint); an error when `cell` is off the map or its tile is empty.
    pub fn try_clear_tile_from_layer(&mut self, cell: Cell, layer: TileMapLayerKind) -> (r: Result<(), String>)
        requires
            old(self).wf(),
        ensures
            final(self).wf(),
            final(self).same_shape(*old(self)),
            r.is_ok() == (old(self).in_bounds(cell) && old(self).tile_at(layer, cell).kind.bits != 0),
            r.is_err() ==> final(self).terrain@ == old(self).terrain@ && final(self).objects@ == old(self).objects@,
            r.is_ok() ==> empty_tile_spec(final(self).tile_at(layer, cell)),
            r.is_ok() && layer == TileMapLayerKind::Objects ==> final(self).terrain@ == old(self).terrain@,
            r.is_ok() && layer == TileMapLayerKind::Terrain ==> final(self).objects@ == old(self).objects@,
            r.is_ok() ==> forall|c: Cell|
                final(self).in_bounds(c) && c != cell ==> if old(self).tile_at(layer, cell).kind.bits
                    & (TILE_BUILDING | TILE_BLOCKER) != 0 && in_footprint(
                    c,
                    old(self).tile_at(layer, cell).base_cell,
                    old(self).tile_at(layer, cell).size_w as int,
                    old(self).tile_at(layer, cell).size_h as int,
                ) {
                    empty_tile_spec(#[trigger] final(self).tile_at(layer, c))
                } else {
                    final(self).tile_at(layer, c) == old(self).tile_at(layer, c)
                },
    {
        match self.try_tile_from_layer(cell, layer) {
            Some(t) => {
                if t.is_empty() {
                    return Err("No tile to clear!".to_owned());
                }
            },
            None => {
                return Err("Cell is outside the map!".to_owned());
            },
        }
        try_clear_tile_from_layer(self, layer, cell);
        Ok(())
    }
}

/// The catalog of tile definitions.
#[derive(Debug)]
pub struct TileSets {
    pub defs: Vec<TileDef>,
}

impl TileSets {
    pub fn new(defs: Vec<TileDef>) -> (r: TileSets)
        ensures
            r.defs@ == defs@,
    {
        TileSets { defs }
    }

    /// `d` is filed under `layer` and `category` with the name `name`.
    pub open spec fn def_matches(d: TileDef, layer: TileMapLayerKind, category: Seq<char>, name: Seq<char>) -> bool {
        layer_of(d.kind) == layer && d.category@ == category && d.name@ == name
    }

    /// `i` is the first definition filed under `layer` and `category` with the name `name`.
    pub open spec fn is_first_match(&self, layer: TileMapLayerKind, category: Seq<char>, name: Seq<char>, i: int) -> bool {
        &&& 0 <= i < self.defs@.len()
        &&& Self::def_matches(self.defs@[i], layer, category, name)
        &&& forall|j: int| 0 <= j < i ==> !Self::def_matches(#[trigger] self.defs@[j], layer, category, name)
    }

    /// The first definition filed under `layer` and `category` with the name `name`.
    pub fn find_tile_def_by_name(&self, layer: TileMapLayerKind, category: &String, name: &String) -> (r: Option<&TileDef>)
        ensures
            match r {
                Some(d) => exists|i: int| #[trigger] self.is_first_match(layer, category@, name@, i) && self.defs@[i] == *d,
                None => forall|i: int| 0 <= i < self.defs@.len() ==> !Self::def_matches(#[trigger] self.defs@[i], layer, category@, name@),
            },
    {
        let mut i: usize = 0;
        while i < self.defs.len()
            invariant
                i <= self.defs@.len(),
                forall|j: int| 0 <= j < i ==> !Self::def_matches(#[trigger] self.defs@[j], layer, category@, name@),
            decreases self.defs@.len() - i,
        {
            let d = &self.defs[i];
            if TileMapLayerKind::from_tile_kind(d.kind) == layer && d.category == *category && d.name == *name {
                assert(self.is_first_match(layer, category@, name@, i as int));
                return Some(d);
            }
            i = i + 1;
        }
        None
    }
}

} // verus!
