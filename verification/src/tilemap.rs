//! The tile-entity placement engine: a dense grid of cells, catalogs of
//! ground and entity drawables, and a pool of placed entities addressed by
//! stable nonzero handles.
//!
//! A placement covers a rectangle of cells: x grows from the anchor, y
//! shrinks from it (the anchor is the rectangle's maximum-y, minimum-x
//! corner).  Placement is atomic: it either stamps every covered cell with a
//! fresh handle, or fails with a result value and changes nothing.

use vstd::prelude::*;

use crate::drawable::DrawableTileData;
use crate::geometry::Tile;
use crate::pool::{pool_contents, pool_get, pool_insert, pool_new_with, EntityPool};

verus! {

/// One grid cell: its ground variant and the handle of the entity covering
/// it (0 means none).
#[derive(PartialEq, Eq, Structural, Clone, Copy, Debug)]
pub struct MapData {
    pub ground: MapDataGround,
    pub entity_id: usize,
}

/// The ground state of a cell: an index into the ground catalog.
#[derive(PartialEq, Eq, Structural, Clone, Copy, Debug)]
pub struct MapDataGround {
    pub render_id: usize,
}

/// Extra per-instance state of a placed entity.
#[derive(PartialEq, Eq, Structural, Clone, Copy, Debug)]
pub struct EntityInfo {
    pub height: usize,
}

/// One placed entity: its anchor cell, its type (an index into the entity
/// catalog), and optional per-instance info.
#[derive(PartialEq, Clone, Copy, Debug)]
pub struct Entity {
    pub x0: usize,
    pub y0: usize,
    pub entity_type_id: usize,
    pub entity_info: Option<EntityInfo>,
}

/// Why a placement failed.  Both are ordinary result values: the caller is
/// expected to probe placements and react to "no".
#[derive(PartialEq, Eq, Structural, Clone, Copy, Debug)]
pub enum PlaceError {
    /// Some covered cell lies outside the grid (or the footprint is not
    /// positive).
    OutOfBounds,
    /// Some covered cell is already occupied, or no further handle can be
    /// allocated.
    Collision,
}

/// Whether the footprint `size` anchored at `(x0, y0)` covers cell
/// `(x, y)`: x extends toward increasing x, y toward decreasing y.
pub open spec fn covers(x0: int, y0: int, size: Tile, x: int, y: int) -> bool {
    &&& x0 <= x <= x0 + (size.x - 1)
    &&& y0 - (size.y - 1) <= y <= y0
}

/// The grid with its catalogs and entity pool.
pub struct TileMap {
    data: Vec<Vec<MapData>>,
    ground_drawables: Vec<DrawableTileData>,
    entity_drawables: Vec<DrawableTileData>,
    entities: EntityPool,
    entity_count: u32,
}

impl TileMap {
    /// Number of columns.
    pub closed spec fn width(self) -> int {
        self.data@.len() as int
    }

    /// Number of rows.
    pub closed spec fn height(self) -> int {
        if self.data@.len() == 0 {
            0
        } else {
            self.data@[0]@.len() as int
        }
    }

    /// Length of column `x` (equal to `height()` in a well-formed map).
    pub closed spec fn row_len(self, x: int) -> int {
        self.data@[x]@.len() as int
    }

    /// The cell at `(x, y)`.
    pub closed spec fn cell(self, x: int, y: int) -> MapData {
        self.data@[x]@[y]
    }

    /// The ground catalog.
    pub closed spec fn grounds(self) -> Seq<DrawableTileData> {
        self.ground_drawables@
    }

    /// The entity-type catalog.
    pub closed spec fn entity_types(self) -> Seq<DrawableTileData> {
        self.entity_drawables@
    }

    /// The pool contents: entity at each live handle.
    pub closed spec fn entity_map(self) -> Map<u32, Entity> {
        pool_contents(self.entities)
    }

    /// How many handles (sentinel included) have been allocated.
    pub closed spec fn handle_count(self) -> u32 {
        self.entity_count
    }

    /// Well-formedness of one cell: its ground index is 0 or in the catalog,
    /// and a nonzero entity handle is live, of a valid type, whose footprint
    /// is positive, lies inside the grid, and covers this cell.
    pub open spec fn cell_wf(self, x: int, y: int) -> bool {
        let md = self.cell(x, y);
        &&& (md.ground.render_id == 0 || md.ground.render_id < self.grounds().len())
        &&& (md.entity_id != 0 ==> {
            &&& md.entity_id < 0xFFFF_FFFF
            &&& self.entity_map().dom().contains(md.entity_id as u32)
            &&& {
                let e = self.entity_map()[md.entity_id as u32];
                &&& e.entity_type_id < self.entity_types().len()
                &&& {
                    let s = self.entity_types()[e.entity_type_id as int].size;
                    &&& s.x >= 1
                    &&& s.y >= 1
                    &&& e.x0 + (s.x - 1) < self.width()
                    &&& e.y0 - (s.y - 1) >= 0
                    &&& e.y0 < self.height()
                    &&& covers(e.x0 as int, e.y0 as int, s, x, y)
                }
            }
        })
    }

    /// The engine's invariant: a rectangular grid, well-formed cells, a
    /// finite pool with the sentinel burned at handle 0, and an accurate
    /// handle counter.
    pub open spec fn wf(self) -> bool {
        &&& forall|x: int| 0 <= x < self.width() ==> #[trigger] self.row_len(x) == self.height()
        &&& forall|x: int, y: int|
            0 <= x < self.width() && 0 <= y < self.height() ==> #[trigger] self.cell_wf(x, y)
        &&& self.entity_map().dom().finite()
        &&& self.entity_map().dom().contains(0u32)
        &&& self.entity_map().len() == self.handle_count()
        &&& self.handle_count() >= 1
    }

    /// A fresh map: `size_x` by `size_y` cells, all ground variant 0 and no
    /// entity; empty catalogs; handle 0 burned by a sentinel entity.
    pub fn new(size_x: usize, size_y: usize) -> (r: TileMap)
        ensures
            r.wf(),
            r.width() == size_x,
            size_x > 0 ==> r.height() == size_y,
            r.grounds().len() == 0,
            r.entity_types().len() == 0,
            r.handle_count() == 1,
            forall|x: int, y: int|
                0 <= x < size_x && 0 <= y < size_y ==> #[trigger] r.cell(x, y) == (MapData {
                    ground: MapDataGround { render_id: 0 },
                    entity_id: 0,
                }),
    {
        let mut data: Vec<Vec<MapData>> = Vec::new();
        let mut x: usize = 0;
        while x < size_x
            invariant
                0 <= x <= size_x,
                data@.len() == x,
                forall|a: int| 0 <= a < x ==> (#[trigger] data@[a])@.len() == size_y,
                forall|a: int, b: int|
                    0 <= a < x && 0 <= b < size_y ==> #[trigger] data@[a]@[b] == (MapData {
                        ground: MapDataGround { render_id: 0 },
                        entity_id: 0,
                    }),
            decreases size_x - x,
        {
            let mut row: Vec<MapData> = Vec::new();
            let mut y: usize = 0;
            while y < size_y
                invariant
                    0 <= y <= size_y,
                    row@.len() == y,
                    forall|b: int|
                        0 <= b < y ==> #[trigger] row@[b] == (MapData {
                            ground: MapDataGround { render_id: 0 },
                            entity_id: 0,
                        }),
                decreases size_y - y,
            {
                row.push(MapData { ground: MapDataGround { render_id: 0 }, entity_id: 0 });
                y = y + 1;
            }
            data.push(row);
            x = x + 1;
        }
        let sentinel = Entity { x0: 0, y0: 0, entity_type_id: 0, entity_info: None };
        let entities = pool_new_with(sentinel);
        let r = TileMap {
            data,
            ground_drawables: Vec::new(),
            entity_drawables: Vec::new(),
            entities,
            entity_count: 1,
        };
        proof {
            assert(r.entity_map().dom() =~= Set::<u32>::empty().insert(0u32));
            assert(r.entity_map().len() == 1);
        }
        r
    }

    /// The cell at `(x, y)`.
    fn get(&self, x: usize, y: usize) -> (r: MapData)
        requires
            self.wf(),
            x < self.width(),
            y < self.height(),
        ensures
            r == self.cell(x as int, y as int),
    {
        proof {
            assert(self.row_len(x as int) == self.height());
        }
        self.data[x][y]
    }

    /// The ground drawable of cell `(x, y)`.  In-bounds lookups always
    /// succeed once at least one ground type is registered (cells default to
    /// ground variant 0).
    pub fn get_ground(&self, x: usize, y: usize) -> (r: &DrawableTileData)
        requires
            self.wf(),
            x < self.width(),
            y < self.height(),
            self.grounds().len() >= 1,
        ensures
            *r == self.grounds()[self.cell(x as int, y as int).ground.render_id as int],
    {
        proof {
            assert(self.cell_wf(x as int, y as int));
        }
        let idx = self.get(x, y).ground.render_id;
        &self.ground_drawables[idx]
    }

    /// The entity covering cell `(x, y)`, with its drawable and the cell's
    /// offset within the footprint: `(x - anchor.x, anchor.y - y)`, never
    /// negative.
    pub fn get_entity(&self, x: usize, y: usize) -> (r: Option<
        (&Entity, &DrawableTileData, Tile),
    >)
        requires
            self.wf(),
            x < self.width(),
            y < self.height(),
        ensures
            match r {
                None => self.cell(x as int, y as int).entity_id == 0,
                Some(t) => {
                    let id = self.cell(x as int, y as int).entity_id;
                    &&& id != 0
                    &&& self.entity_map().dom().contains(id as u32)
                    &&& *t.0 == self.entity_map()[id as u32]
                    &&& t.0.entity_type_id < self.entity_types().len()
                    &&& *t.1 == self.entity_types()[t.0.entity_type_id as int]
                    &&& t.2.x == x - t.0.x0
                    &&& t.2.y == t.0.y0 - y
                    &&& t.2.z == 0
                    &&& t.2.x >= 0
                    &&& t.2.y >= 0
                },
            },
    {
        proof {
            assert(self.cell_wf(x as int, y as int));
        }
        let id = self.get(x, y).entity_id;
        if id > 0 {
            let entity = match pool_get(&self.entities, id as u32) {
                Some(e) => e,
                None => {
                    proof {
                        assert(false);
                    }
                    return None;
                },
            };
            let offset = Tile {
                x: (x - entity.x0) as i32,
                y: (entity.y0 - y) as i32,
                z: 0,
            };
            Some((entity, &self.entity_drawables[entity.entity_type_id], offset))
        } else {
            None
        }
    }

    /// How many entity types are registered.
    pub fn entity_type_count(&self) -> (n: usize)
        ensures
            n == self.entity_types().len(),
    {
        self.entity_drawables.len()
    }

    /// Registers one ground type; returns its stable index.
    pub fn create_ground_type(&mut self, drawable: DrawableTileData) -> (idx: usize)
        requires
            old(self).wf(),
        ensures
            final(self).wf(),
            final(self).grounds() == old(self).grounds().push(drawable),
            idx == old(self).grounds().len(),
            final(self).entity_types() == old(self).entity_types(),
            final(self).entity_map() == old(self).entity_map(),
            final(self).handle_count() == old(self).handle_count(),
            final(self).width() == old(self).width(),
            final(self).height() == old(self).height(),
            forall|x: int, y: int|
                0 <= x < old(self).width() && 0 <= y < old(self).height()
                    ==> #[trigger] final(self).cell(x, y) == old(self).cell(x, y),
    {
        let idx = self.ground_drawables.len();
        self.ground_drawables.push(drawable);
        proof {
            assert forall|x: int| 0 <= x < self.width() implies #[trigger] self.row_len(x)
                == self.height() by {
                assert(old(self).row_len(x) == old(self).height());
            };
            assert forall|x: int, y: int|
                0 <= x < self.width() && 0 <= y < self.height() implies #[trigger] self.cell_wf(
                x,
                y,
            ) by {
                assert(old(self).cell_wf(x, y));
            };
        }
        idx
    }

    /// Sets the ground variant of cell `(x, y)`; refuses an unregistered
    /// ground index and reports whether it changed anything.
    pub fn set_ground(&mut self, x: usize, y: usize, ground_id: usize) -> (r: bool)
        requires
            old(self).wf(),
            x < old(self).width(),
            y < old(self).height(),
        ensures
            final(self).wf(),
            r == (ground_id < old(self).grounds().len()),
            final(self).grounds() == old(self).grounds(),
            final(self).entity_types() == old(self).entity_types(),
            final(self).entity_map() == old(self).entity_map(),
            final(self).handle_count() == old(self).handle_count(),
            final(self).width() == old(self).width(),
            final(self).height() == old(self).height(),
            r ==> final(self).cell(x as int, y as int) == (MapData {
                ground: MapDataGround { render_id: ground_id },
                entity_id: old(self).cell(x as int, y as int).entity_id,
            }),
            forall|a: int, b: int|
                0 <= a < old(self).width() && 0 <= b < old(self).height() && !(a == x && b == y)
                    ==> #[trigger] final(self).cell(a, b) == old(self).cell(a, b),
            !r ==> final(self).cell(x as int, y as int) == old(self).cell(x as int, y as int),
    {
        if ground_id < self.ground_drawables.len() {
            proof {
                assert(self.row_len(x as int) == self.height());
            }
            let entity_id = self.data[x][y].entity_id;
            self.data[x][y] = MapData { ground: MapDataGround { render_id: ground_id }, entity_id };
            proof {
                assert(self.row_len(x as int) == old(self).row_len(x as int));
                assert forall|a: int|
                    0 <= a < self.width() implies #[trigger] self.row_len(a) == self.height() by {
                    assert(old(self).row_len(a) == old(self).height());
                };
                assert forall|a: int, b: int|
                    0 <= a < self.width() && 0 <= b < self.height() && !(a == x && b == y)
                        implies #[trigger] self.cell(a, b) == old(self).cell(a, b) by {};
                assert forall|a: int, b: int|
                    0 <= a < self.width() && 0 <= b < self.height() implies #[trigger] self.cell_wf(
                    a,
                    b,
                ) by {
                    assert(old(self).cell_wf(a, b));
                };
            }
            true
        } else {
            false
        }
    }

    /// Appends entity types to the catalog, draining `drawables` as the
    /// append does; previously registered indices keep their meaning.
    pub fn create_entity_types(&mut self, drawables: &mut Vec<DrawableTileData>)
        requires
            old(self).wf(),
        ensures
            final(self).wf(),
            final(self).entity_types() == old(self).entity_types() + old(drawables)@,
            final(drawables)@.len() == 0,
            final(self).grounds() == old(self).grounds(),
            final(self).entity_map() == old(self).entity_map(),
            final(self).handle_count() == old(self).handle_count(),
            final(self).width() == old(self).width(),
            final(self).height() == old(self).height(),
            forall|x: int, y: int|
                0 <= x < old(self).width() && 0 <= y < old(self).height()
                    ==> #[trigger] final(self).cell(x, y) == old(self).cell(x, y),
    {
        self.entity_drawables.append(drawables);
        proof {
            assert forall|x: int| 0 <= x < self.width() implies #[trigger] self.row_len(x)
                == self.height() by {
                assert(old(self).row_len(x) == old(self).height());
            };
            assert forall|x: int, y: int|
                0 <= x < self.width() && 0 <= y < self.height() implies #[trigger] self.cell_wf(
                x,
                y,
            ) by {
                assert(old(self).cell_wf(x, y));
            };
        }
    }

    /// Whether placing entity type `entity_type` at `(x0, y0)` would reach
    /// outside the grid (or the type's footprint is not positive).
    pub open spec fn place_oob(self, x0: int, y0: int, entity_type: int) -> bool {
        let s = self.entity_types()[entity_type].size;
        ||| s.x <= 0
        ||| s.y <= 0
        ||| x0 + (s.x - 1) >= self.width()
        ||| y0 - (s.y - 1) < 0
        ||| y0 >= self.height()
    }

    /// Whether some cell covered by that placement is already occupied.
    pub open spec fn place_collides(self, x0: int, y0: int, entity_type: int) -> bool {
        let s = self.entity_types()[entity_type].size;
        exists|x: int, y: int|
            0 <= x < self.width() && 0 <= y < self.height() && covers(x0, y0, s, x, y) && (
            #[trigger] self.cell(x, y)).entity_id != 0
    }

    /// Writes the entity handle of one cell, leaving its ground alone.
    fn set_cell_entity(&mut self, x: usize, y: usize, h: usize)
        requires
            x < old(self).width(),
            y < old(self).row_len(x as int),
        ensures
            final(self).width() == old(self).width(),
            final(self).height() == old(self).height(),
            forall|a: int| 0 <= a < old(self).width() ==> #[trigger] final(self).row_len(a) == old(
                self,
            ).row_len(a),
            final(self).grounds() == old(self).grounds(),
            final(self).entity_types() == old(self).entity_types(),
            final(self).entity_map() == old(self).entity_map(),
            final(self).handle_count() == old(self).handle_count(),
            final(self).cell(x as int, y as int) == (MapData {
                ground: old(self).cell(x as int, y as int).ground,
                entity_id: h,
            }),
            forall|a: int, b: int|
                0 <= a < old(self).width() && 0 <= b < old(self).row_len(a) && !(a == x && b == y)
                    ==> #[trigger] final(self).cell(a, b) == old(self).cell(a, b),
    {
        let ground = self.data[x][y].ground;
        self.data[x][y] = MapData { ground, entity_id: h };
    }

    /// Places an entity of type `entity_type` anchored at `(x0, y0)`.
    ///
    /// On success every covered cell, all previously empty, is stamped with
    /// one fresh nonzero handle, and the handle is returned.  On failure
    /// (out of bounds, collision, or no allocatable handle) the map is left
    /// exactly as it was.
    pub fn set_entity(
        &mut self,
        x0: usize,
        y0: usize,
        entity_type: usize,
        entity_info: Option<EntityInfo>,
    ) -> (r: Result<usize, PlaceError>)
        requires
            old(self).wf(),
            entity_type < old(self).entity_types().len(),
        ensures
            final(self).wf(),
            final(self).grounds() == old(self).grounds(),
            final(self).entity_types() == old(self).entity_types(),
            final(self).width() == old(self).width(),
            final(self).height() == old(self).height(),
            match r {
                Err(e) => {
                    &&& *final(self) == *old(self)
                    &&& (old(self).place_oob(x0 as int, y0 as int, entity_type as int) || old(
                        self,
                    ).place_collides(x0 as int, y0 as int, entity_type as int) || old(
                        self,
                    ).handle_count() == 0xFFFF_FFFFu32)
                    &&& e == (if old(self).place_oob(x0 as int, y0 as int, entity_type as int) {
                        PlaceError::OutOfBounds
                    } else {
                        PlaceError::Collision
                    })
                },
                Ok(h) => {
                    let s = old(self).entity_types()[entity_type as int].size;
                    &&& !old(self).place_oob(x0 as int, y0 as int, entity_type as int)
                    &&& !old(self).place_collides(x0 as int, y0 as int, entity_type as int)
                    &&& old(self).handle_count() < 0xFFFF_FFFFu32
                    &&& 1 <= h < 0xFFFF_FFFF
                    &&& !old(self).entity_map().dom().contains(h as u32)
                    &&& final(self).entity_map() == old(self).entity_map().insert(
                        h as u32,
                        (Entity { x0, y0, entity_type_id: entity_type, entity_info }),
                    )
                    &&& final(self).handle_count() == old(self).handle_count() + 1
                    &&& forall|x: int, y: int|
                        0 <= x < old(self).width() && 0 <= y < old(self).height() ==> (
                        #[trigger] final(self).cell(x, y)) == (MapData {
                            ground: old(self).cell(x, y).ground,
                            entity_id: if covers(x0 as int, y0 as int, s, x, y) {
                                h
                            } else {
                                old(self).cell(x, y).entity_id
                            },
                        })
                },
            },
    {
        let grid_w = self.data.len();
        let s: Tile = self.entity_drawables[entity_type].size;
        if s.x <= 0 || s.y <= 0 {
            return Err(PlaceError::OutOfBounds);
        }
        let sx1: usize = (s.x - 1) as usize;
        let sy1: usize = (s.y - 1) as usize;
        let x1 = match x0.checked_add(sx1) {
            Some(v) => v,
            None => {
                return Err(PlaceError::OutOfBounds);
            },
        };
        let y1 = match y0.checked_sub(sy1) {
            Some(v) => v,
            None => {
                return Err(PlaceError::OutOfBounds);
            },
        };
        if x1 >= grid_w {
            return Err(PlaceError::OutOfBounds);
        }
        proof {
            assert(self.row_len(0) == self.height());
        }
        if y0 >= self.data[0].len() {
            return Err(PlaceError::OutOfBounds);
        }
        let ghost oob = self.place_oob(x0 as int, y0 as int, entity_type as int);
        proof {
            assert(!oob);
            assert(self.width() == grid_w);
            assert(x1 < usize::MAX);
            assert(y0 < usize::MAX);
        }
        // Collision check: every covered cell must be empty.
        let mut x = x0;
        while x <= x1
            invariant
                old(self).wf(),
                *self == *old(self),
                entity_type < self.entity_types().len(),
                s == self.entity_types()[entity_type as int].size,
                s.x >= 1 && s.y >= 1,
                x0 <= x <= x1 + 1,
                x1 == x0 + (s.x - 1),
                y1 == y0 - (s.y - 1),
                x1 < self.width(),
                y0 < self.height(),
                x1 < usize::MAX,
                y0 < usize::MAX,
                forall|a: int, b: int|
                    x0 <= a < x && y1 <= b <= y0 ==> (#[trigger] self.cell(a, b)).entity_id == 0,
            decreases x1 + 1 - x,
        {
            let mut y = y1;
            while y <= y0
                invariant
                    old(self).wf(),
                    *self == *old(self),
                    entity_type < self.entity_types().len(),
                    s == self.entity_types()[entity_type as int].size,
                    s.x >= 1 && s.y >= 1,
                    x0 <= x <= x1,
                    y1 <= y <= y0 + 1,
                    x1 == x0 + (s.x - 1),
                    y1 == y0 - (s.y - 1),
                    x1 < self.width(),
                    y0 < self.height(),
                    x1 < usize::MAX,
                    y0 < usize::MAX,
                    forall|a: int, b: int|
                        x0 <= a < x && y1 <= b <= y0 ==> (#[trigger] self.cell(a, b)).entity_id
                            == 0,
                    forall|b: int|
                        y1 <= b < y ==> (#[trigger] self.cell(x as int, b)).entity_id == 0,
                decreases y0 + 1 - y,
            {
                proof {
                    assert(self.row_len(x as int) == self.height());
                }
                if self.data[x][y].entity_id != 0 {
                    proof {
                        assert((#[trigger] self.cell(x as int, y as int)).entity_id != 0);
                        assert(covers(x0 as int, y0 as int, s, x as int, y as int));
                        assert(self.place_collides(x0 as int, y0 as int, entity_type as int));
                    }
                    return Err(PlaceError::Collision);
                }
                y = y + 1;
            }
            x = x + 1;
        }
        let ghost collides = self.place_collides(x0 as int, y0 as int, entity_type as int);
        proof {
            if collides {
                let (cx, cy) = choose|cx: int, cy: int|
                    0 <= cx < self.width() && 0 <= cy < self.height() && covers(
                        x0 as int,
                        y0 as int,
                        s,
                        cx,
                        cy,
                    ) && (#[trigger] self.cell(cx, cy)).entity_id != 0;
                assert(self.cell(cx, cy).entity_id == 0);
            }
            assert(!collides);
        }
        // Allocate the handle.
        if self.entity_count == 0xFFFF_FFFF {
            return Err(PlaceError::Collision);
        }
        let entity = Entity { x0, y0, entity_type_id: entity_type, entity_info };
        let h32 = pool_insert(&mut self.entities, entity);
        proof {
            assert(h32 != 0) by {
                assert(pool_contents(old(self).entities).dom().contains(0u32));
            };
            vstd::map::axiom_map_insert_domain(
                pool_contents(old(self).entities),
                h32,
                entity,
            );
        }
        self.entity_count = self.entity_count + 1;
        let h = h32 as usize;
        // Stamp the covered cells.
        let ghost mid = *self;
        proof {
            assert forall|a: int| 0 <= a < self.width() implies #[trigger] self.row_len(a)
                == self.height() by {
                assert(old(self).row_len(a) == old(self).height());
            };
            assert forall|a: int, b: int|
                0 <= a < self.width() && 0 <= b < self.height() implies #[trigger] self.cell(a, b)
                == old(self).cell(a, b) by {};
        }
        let mut x = x0;
        while x <= x1
            invariant
                old(self).wf(),
                entity_type < old(self).entity_types().len(),
                s == old(self).entity_types()[entity_type as int].size,
                s.x >= 1 && s.y >= 1,
                x0 <= x <= x1 + 1,
                x1 == x0 + (s.x - 1),
                y1 == y0 - (s.y - 1),
                x1 < old(self).width(),
                y0 < old(self).height(),
                x1 < usize::MAX,
                y0 < usize::MAX,
                h == h32 as usize,
                0 < h32 < 0xFFFF_FFFFu32,
                self.width() == old(self).width(),
                self.height() == old(self).height(),
                forall|a: int| 0 <= a < self.width() ==> #[trigger] self.row_len(a)
                    == self.height(),
                self.grounds() == old(self).grounds(),
                self.entity_types() == old(self).entity_types(),
                self.entity_map() == mid.entity_map(),
                self.handle_count() == mid.handle_count(),
                mid.entity_map() == old(self).entity_map().insert(h32, entity),
                !old(self).entity_map().dom().contains(h32),
                entity == (Entity { x0, y0, entity_type_id: entity_type, entity_info }),
                forall|a: int, b: int|
                    0 <= a < self.width() && 0 <= b < self.height() ==> (#[trigger] self.cell(
                        a,
                        b,
                    )) == (MapData {
                        ground: old(self).cell(a, b).ground,
                        entity_id: if a < x && covers(x0 as int, y0 as int, s, a, b) {
                            h
                        } else {
                            old(self).cell(a, b).entity_id
                        },
                    }),
                forall|a: int, b: int|
                    x0 <= a <= x1 && y1 <= b <= y0 ==> (#[trigger] old(self).cell(
                        a,
                        b,
                    )).entity_id == 0,
            decreases x1 + 1 - x,
        {
            let mut y = y1;
            while y <= y0
                invariant
                    old(self).wf(),
                    entity_type < old(self).entity_types().len(),
                    s == old(self).entity_types()[entity_type as int].size,
                    s.x >= 1 && s.y >= 1,
                    x0 <= x <= x1,
                    y1 <= y <= y0 + 1,
                    x1 == x0 + (s.x - 1),
                    y1 == y0 - (s.y - 1),
                    x1 < old(self).width(),
                    y0 < old(self).height(),
                    x1 < usize::MAX,
                    y0 < usize::MAX,
                    h == h32 as usize,
                    0 < h32 < 0xFFFF_FFFFu32,
                    self.width() == old(self).width(),
                    self.height() == old(self).height(),
                    forall|a: int| 0 <= a < self.width() ==> #[trigger] self.row_len(a)
                        == self.height(),
                    self.grounds() == old(self).grounds(),
                    self.entity_types() == old(self).entity_types(),
                    self.entity_map() == mid.entity_map(),
                    self.handle_count() == mid.handle_count(),
                    mid.entity_map() == old(self).entity_map().insert(h32, entity),
                    !old(self).entity_map().dom().contains(h32),
                    entity == (Entity { x0, y0, entity_type_id: entity_type, entity_info }),
                    forall|a: int, b: int|
                        0 <= a < self.width() && 0 <= b < self.height() ==> (#[trigger] self.cell(
                            a,
                            b,
                        )) == (MapData {
                            ground: old(self).cell(a, b).ground,
                            entity_id: if (a < x && covers(x0 as int, y0 as int, s, a, b)) || (a
                                == x && y1 <= b < y) {
                                h
                            } else {
                                old(self).cell(a, b).entity_id
                            },
                        }),
                    forall|a: int, b: int|
                        x0 <= a <= x1 && y1 <= b <= y0 ==> (#[trigger] old(self).cell(
                            a,
                            b,
                        )).entity_id == 0,
                decreases y0 + 1 - y,
            {
                self.set_cell_entity(x, y, h);
                y = y + 1;
            }
            x = x + 1;
        }
        proof {
            assert(self.entity_map().len() == old(self).entity_map().len() + 1) by {
                vstd::map::axiom_map_insert_domain(
                    pool_contents(old(self).entities),
                    h32,
                    entity,
                );
                assert(self.entity_map().dom() =~= old(self).entity_map().dom().insert(h32));
                vstd::set::axiom_set_insert_len(old(self).entity_map().dom(), h32);
            };
            assert forall|a: int, b: int|
                0 <= a < self.width() && 0 <= b < self.height() implies #[trigger] self.cell_wf(
                a,
                b,
            ) by {
                assert(old(self).cell_wf(a, b));
                let md = self.cell(a, b);
                if covers(x0 as int, y0 as int, s, a, b) {
                    assert(md.entity_id == h);
                    assert(self.entity_map()[h32] == entity);
                } else {
                    assert(md.entity_id == old(self).cell(a, b).entity_id);
                    if md.entity_id != 0 {
                        assert(old(self).entity_map().dom().contains(md.entity_id as u32));
                        assert(md.entity_id as u32 != h32);
                        assert(self.entity_map()[md.entity_id as u32] == old(
                            self,
                        ).entity_map()[md.entity_id as u32]);
                    }
                }
            };
        }
        Ok(h)
    }
}


/// Law: placement and query agree on tile offsets.  A cell stamped with
/// handle `h` is covered by the footprint of the entity `h` names, so the
/// offset `get_entity` reports there — `(x - x0, y0 - y)` — is never
/// negative, and is `(0, 0)` exactly at the anchor.  `set_entity` stamps
/// every covered cell with the fresh handle, so this holds at each of them
/// right after a successful placement.
pub proof fn lemma_place_then_entity_at(
    post: TileMap,
    x0: usize,
    y0: usize,
    entity_type: usize,
    entity_info: Option<EntityInfo>,
    h: usize,
    x: usize,
    y: usize,
)
    requires
        post.wf(),
        entity_type < post.entity_types().len(),
        1 <= h < 0xFFFF_FFFF,
        post.entity_map().dom().contains(h as u32),
        post.entity_map()[h as u32] == (Entity { x0, y0, entity_type_id: entity_type, entity_info }),
        x < post.width(),
        y < post.height(),
        post.cell(x as int, y as int).entity_id == h,
    ensures
        covers(
            x0 as int,
            y0 as int,
            post.entity_types()[entity_type as int].size,
            x as int,
            y as int,
        ),
        x - x0 >= 0,
        y0 - y >= 0,
        x == x0 && y == y0 ==> x - x0 == 0 && y0 - y == 0,
{
    assert(post.cell_wf(x as int, y as int));
}

/// Law: a failed placement leaves the grid unchanged.  `set_entity` ensures
/// `*final(self) == *old(self)` on every error; spelled out per cell, every
/// cell's occupancy before and after the failed call is identical.
pub proof fn lemma_failed_place_leaves_cells(pre: TileMap, post: TileMap, x: int, y: int)
    requires
        post == pre,
        0 <= x < pre.width(),
        0 <= y < pre.height(),
    ensures
        post.cell(x, y).entity_id == pre.cell(x, y).entity_id,
        post.cell(x, y).ground == pre.cell(x, y).ground,
{
}

} // verus!
