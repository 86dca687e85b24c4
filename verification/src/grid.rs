//! Terrain representation: three same-shaped byte grids (pathing,
//! placement, terrain height) plus a bounding rectangle, and the per-tile
//! derived record.
//!
//! Coordinates are integer tile indices. World distances are expressed as
//! integers scaled by [`DIST_SCALE`]: one tile of straight movement is
//! `DIST_SCALE` world units, one tile of diagonal movement is
//! [`DIAG_DIST`] (the nearest integer below `DIST_SCALE`·√2).

use vstd::prelude::*;

verus! {

use crate::chokes::Choke;
use crate::path::PathFind;
use crate::vision::VisionUnit;

/// Scaled world units per tile of straight movement.
pub const DIST_SCALE: u64 = 8;

/// Scaled world units per tile of diagonal movement (under `8 * sqrt(2)`,
/// so the octile heuristic stays admissible for these edge costs).
pub const DIAG_DIST: u64 = 11;

/// Largest accepted grid dimension; keeps every coordinate sum and cost
/// sum the engine forms comfortably inside the machine integer types.
pub const MAX_DIM: usize = 16384;

/// A grid is well formed when it has `w` rows of `h` cells each.
pub open spec fn grid_wf(g: Seq<Vec<u8>>, w: int, h: int) -> bool {
    g.len() == w && forall|i: int| 0 <= i < w ==> (#[trigger] g[i])@.len() == h
}

/// The tile `(x, y)` exists in `g` and is walkable (pathing value > 0).
pub open spec fn walk_at(g: Seq<Vec<u8>>, x: int, y: int) -> bool {
    0 <= x < g.len() && 0 <= y < g[x]@.len() && g[x]@[y] > 0
}

/// Per-tile derived record, computed once from the grids and read-only
/// thereafter.
#[derive(Debug, Clone, Copy, PartialEq, Eq, Structural)]
pub struct MapPoint {
    pub height: u8,
    pub walkable: bool,
}

/// Why a [`GameMap`] could not be constructed.
#[derive(Debug, Clone, Copy, PartialEq, Eq, Structural)]
pub enum MapError {
    /// The three grids do not share identical dimensions.
    DimensionMismatch,
    /// The bounding rectangle does not fit inside the grids.
    InvalidBounds,
}

/// The three input grids share the shape `w` x `h`, where `w` and `h` are
/// taken from the pathing grid itself.
pub open spec fn dims_ok(p: Seq<Vec<u8>>, pl: Seq<Vec<u8>>, hm: Seq<Vec<u8>>) -> bool {
    let w = p.len() as int;
    let h = if w == 0 { 0int } else { p[0]@.len() as int };
    grid_wf(p, w, h) && grid_wf(pl, w, h) && grid_wf(hm, w, h)
}

/// The bounding rectangle lies inside a `w` x `h` grid.
pub open spec fn bounds_ok(w: int, h: int, xs: int, ys: int, xe: int, ye: int) -> bool {
    xs <= xe <= w && ys <= ye <= h
}

/// Immutable terrain map plus the derived caches the engine fills on
/// demand (zones, chokes) or per query cycle (visibility).
pub struct GameMap {
    /// Ground pathing grid wrapped with its influence overlay.
    pub ground_pathing: PathFind,
    /// Placement legality grid (same shape as the pathing grid).
    pub placement: Vec<Vec<u8>>,
    /// Terrain height grid (same shape as the pathing grid).
    pub height_map: Vec<Vec<u8>>,
    /// Per-tile derived records.
    pub points: Vec<Vec<MapPoint>>,
    /// Number of columns of the grids.
    pub width: usize,
    /// Number of rows of the grids.
    pub height: usize,
    /// Declared playable rectangle: `x_start <= x < x_end`.
    pub x_start: usize,
    pub y_start: usize,
    pub x_end: usize,
    pub y_end: usize,
    /// Zone label per tile; 0 is the sentinel for "no zone".
    pub zones: Vec<Vec<usize>>,
    /// Number of zone ids assigned by the last zone computation.
    pub zone_count: usize,
    /// Detected chokes.
    pub chokes: Vec<Choke>,
    /// Observers accumulated in the current visibility cycle.
    pub vision_units: Vec<VisionUnit>,
    /// Per-tile visibility level: 0 unseen, 1 seen, 2 detected.
    pub vision: Vec<Vec<u8>>,
}

impl GameMap {
    /// Structural well-formedness: every grid shares the same shape, the
    /// declared rectangle fits, the derived records mirror the grids, and
    /// the dimensions respect [`MAX_DIM`].
    pub open spec fn wf(self) -> bool {
        let w = self.width as int;
        let h = self.height as int;
        &&& w <= MAX_DIM
        &&& h <= MAX_DIM
        &&& self.ground_pathing.wf()
        &&& self.ground_pathing.map@.len() == w
        &&& grid_wf(self.ground_pathing.map@, w, h)
        &&& grid_wf(self.placement@, w, h)
        &&& grid_wf(self.height_map@, w, h)
        &&& self.points@.len() == w
        &&& forall|x: int| 0 <= x < w ==> (#[trigger] self.points@[x])@.len() == h
        &&& forall|x: int, y: int|
            0 <= x < w && 0 <= y < h ==> #[trigger] self.points@[x]@[y] == (MapPoint {
                height: self.height_map@[x]@[y],
                walkable: self.ground_pathing.map@[x]@[y] > 0,
            })
        &&& bounds_ok(
            w,
            h,
            self.x_start as int,
            self.y_start as int,
            self.x_end as int,
            self.y_end as int,
        )
        &&& self.zones@.len() == w
        &&& forall|x: int| 0 <= x < w ==> (#[trigger] self.zones@[x])@.len() == h
        &&& self.vision@.len() == w
        &&& forall|x: int| 0 <= x < w ==> (#[trigger] self.vision@[x])@.len() == h
        &&& forall|k: int|
            0 <= k < self.vision_units@.len() ==> (#[trigger] self.vision_units@[k]).position.0
                <= MAX_DIM && self.vision_units@[k].position.1 <= MAX_DIM
        &&& forall|k: int|
            0 <= k < self.chokes@.len() ==> (#[trigger] self.chokes@[k]).a.0 < self.width
                && self.chokes@[k].a.1 < self.height && self.chokes@[k].b.0 < self.width
                && self.chokes@[k].b.1 < self.height
    }

    /// The tile lies inside the declared playable rectangle.
    pub open spec fn spec_in_bounds(self, x: int, y: int) -> bool {
        self.x_start <= x < self.x_end && self.y_start <= y < self.y_end
    }

    /// The tile exists and its pathing value marks it walkable.
    pub open spec fn spec_walkable(self, x: int, y: int) -> bool {
        walk_at(self.ground_pathing.map@, x, y)
    }

    /// Everything except the visibility state agrees between two maps.
    pub open spec fn same_terrain(self, other: GameMap) -> bool {
        &&& self.ground_pathing.map@ == other.ground_pathing.map@
        &&& self.ground_pathing.influence@ == other.ground_pathing.influence@
        &&& self.placement@ == other.placement@
        &&& self.height_map@ == other.height_map@
        &&& self.points@ == other.points@
        &&& self.width == other.width
        &&& self.height == other.height
        &&& self.x_start == other.x_start
        &&& self.y_start == other.y_start
        &&& self.x_end == other.x_end
        &&& self.y_end == other.y_end
        &&& self.zones@ == other.zones@
        &&& self.zone_count == other.zone_count
        &&& self.chokes@ == other.chokes@
    }

    /// Constructs a map from three equal-dimension grids plus a bounding
    /// rectangle. Rejects mismatched grid dimensions and a rectangle that
    /// does not fit, rather than propagating corrupt state into search.
    pub fn new(
        pathing: Vec<Vec<u8>>,
        placement: Vec<Vec<u8>>,
        height_map: Vec<Vec<u8>>,
        x_start: usize,
        y_start: usize,
        x_end: usize,
        y_end: usize,
    ) -> (r: Result<GameMap, MapError>)
        requires
            pathing@.len() <= MAX_DIM,
            pathing@.len() > 0 ==> pathing@[0]@.len() <= MAX_DIM,
        ensures
            r is Ok <==> dims_ok(pathing@, placement@, height_map@) && bounds_ok(
                pathing@.len() as int,
                if pathing@.len() == 0 { 0int } else { pathing@[0]@.len() as int },
                x_start as int,
                y_start as int,
                x_end as int,
                y_end as int,
            ),
            r == Err::<GameMap, MapError>(MapError::DimensionMismatch) <==> !dims_ok(
                pathing@,
                placement@,
                height_map@,
            ),
            r matches Ok(m) ==> m.wf() && m.ground_pathing.map@ == pathing@
                && m.placement@ == placement@ && m.height_map@ == height_map@
                && m.width == pathing@.len() && m.height as int == (if pathing@.len() == 0 {
                0int
            } else {
                pathing@[0]@.len() as int
            }) && m.x_start == x_start && m.y_start == y_start && m.x_end == x_end
                && m.y_end == y_end && m.ground_pathing.influence_is_zero() && m.zone_count == 0
                && m.chokes@.len() == 0 && m.vision_units@.len() == 0
                && (forall|x: int, y: int|
                    0 <= x < m.width && 0 <= y < m.height ==> m.zones@[x]@[y] == 0
                        && #[trigger] m.vision@[x]@[y] == 0),
    {
        let w = pathing.len();
        let h = if w == 0 { 0 } else { pathing[0].len() };
        if !grids_uniform(&pathing, w, h) || !grids_uniform(&placement, w, h) || !grids_uniform(
            &height_map,
            w,
            h,
        ) {
            return Err(MapError::DimensionMismatch);
        }
        if !(x_start <= x_end && x_end <= w && y_start <= y_end && y_end <= h) {
            return Err(MapError::InvalidBounds);
        }
        let points = derive_points(&pathing, &height_map, w, h);
        let zones = zero_grid_usize(w, h);
        let vision = zero_grid_u8(w, h);
        let ground_pathing = PathFind::from_checked(pathing, w, h);
        Ok(GameMap {
            ground_pathing,
            placement,
            height_map,
            points,
            width: w,
            height: h,
            x_start,
            y_start,
            x_end,
            y_end,
            zones,
            zone_count: 0,
            chokes: Vec::new(),
            vision_units: Vec::new(),
            vision,
        })
    }

    /// Point-in-bounds query against the declared rectangle.
    pub fn is_in_bounds(&self, x: usize, y: usize) -> (r: bool)
        ensures
            r == self.spec_in_bounds(x as int, y as int),
    {
        self.x_start <= x && x < self.x_end && self.y_start <= y && y < self.y_end
    }

    /// Walkability query; `None` marks an out-of-bounds point, which
    /// callers must treat as "unknown", not as unwalkable.
    pub fn is_walkable(&self, x: usize, y: usize) -> (r: Option<bool>)
        requires
            self.wf(),
        ensures
            r == if self.spec_in_bounds(x as int, y as int) {
                Some(self.spec_walkable(x as int, y as int))
            } else {
                None::<bool>
            },
    {
        if self.is_in_bounds(x, y) {
            Some(self.ground_pathing.map[x][y] > 0)
        } else {
            None
        }
    }

    /// Terrain height query; `None` marks an out-of-bounds point.
    pub fn height_at(&self, x: usize, y: usize) -> (r: Option<u8>)
        requires
            self.wf(),
        ensures
            r == if self.spec_in_bounds(x as int, y as int) {
                Some(self.height_map@[x as int]@[y as int])
            } else {
                None::<u8>
            },
    {
        if self.is_in_bounds(x, y) {
            Some(self.height_map[x][y])
        } else {
            None
        }
    }

    /// Derived per-tile record; `None` marks an out-of-bounds point.
    pub fn point_at(&self, x: usize, y: usize) -> (r: Option<MapPoint>)
        requires
            self.wf(),
        ensures
            r == if self.spec_in_bounds(x as int, y as int) {
                Some(self.points@[x as int]@[y as int])
            } else {
                None::<MapPoint>
            },
    {
        if self.is_in_bounds(x, y) {
            Some(self.points[x][y])
        } else {
            None
        }
    }
}

/// True when `g` has exactly `w` rows of `h` cells each.
pub(crate) fn grids_uniform(g: &Vec<Vec<u8>>, w: usize, h: usize) -> (r: bool)
    ensures
        r == grid_wf(g@, w as int, h as int),
{
    if g.len() != w {
        return false;
    }
    let mut i: usize = 0;
    while i < w
        invariant
            0 <= i <= w,
            g@.len() == w,
            forall|k: int| 0 <= k < i ==> (#[trigger] g@[k])@.len() == h,
        decreases w - i,
    {
        if g[i].len() != h {
            return false;
        }
        i += 1;
    }
    true
}

/// Builds the derived per-tile records from the pathing and height grids.
fn derive_points(pathing: &Vec<Vec<u8>>, height_map: &Vec<Vec<u8>>, w: usize, h: usize) -> (r: Vec<
    Vec<MapPoint>,
>)
    requires
        grid_wf(pathing@, w as int, h as int),
        grid_wf(height_map@, w as int, h as int),
    ensures
        r@.len() == w,
        forall|x: int| 0 <= x < w ==> (#[trigger] r@[x])@.len() == h,
        forall|x: int, y: int|
            0 <= x < w && 0 <= y < h ==> #[trigger] r@[x]@[y] == (MapPoint {
                height: height_map@[x]@[y],
                walkable: pathing@[x]@[y] > 0,
            }),
{
    let mut r: Vec<Vec<MapPoint>> = Vec::new();
    let mut x: usize = 0;
    while x < w
        invariant
            0 <= x <= w,
            grid_wf(pathing@, w as int, h as int),
            grid_wf(height_map@, w as int, h as int),
            r@.len() == x,
            forall|i: int| 0 <= i < x ==> (#[trigger] r@[i])@.len() == h,
            forall|i: int, y: int|
                0 <= i < x && 0 <= y < h ==> #[trigger] r@[i]@[y] == (MapPoint {
                    height: height_map@[i]@[y],
                    walkable: pathing@[i]@[y] > 0,
                }),
        decreases w - x,
    {
        let mut row: Vec<MapPoint> = Vec::new();
        let mut y: usize = 0;
        while y < h
            invariant
                0 <= y <= h,
                0 <= x < w,
                grid_wf(pathing@, w as int, h as int),
                grid_wf(height_map@, w as int, h as int),
                row@.len() == y,
                forall|j: int|
                    0 <= j < y ==> #[trigger] row@[j] == (MapPoint {
                        height: height_map@[x as int]@[j],
                        walkable: pathing@[x as int]@[j] > 0,
                    }),
            decreases h - y,
        {
            row.push(
                MapPoint { height: height_map[x][y], walkable: pathing[x][y] > 0 },
            );
            y += 1;
        }
        r.push(row);
        x += 1;
    }
    r
}

/// A `w` x `h` grid of `usize` zeros.
pub fn zero_grid_usize(w: usize, h: usize) -> (r: Vec<Vec<usize>>)
    ensures
        r@.len() == w,
        forall|x: int| 0 <= x < w ==> (#[trigger] r@[x])@.len() == h,
        forall|x: int, y: int| 0 <= x < w && 0 <= y < h ==> #[trigger] r@[x]@[y] == 0,
{
    let mut r: Vec<Vec<usize>> = Vec::new();
    let mut x: usize = 0;
    while x < w
        invariant
            r@.len() == x,
            0 <= x <= w,
            forall|i: int| 0 <= i < x ==> (#[trigger] r@[i])@.len() == h,
            forall|i: int, y: int| 0 <= i < x && 0 <= y < h ==> #[trigger] r@[i]@[y] == 0,
        decreases w - x,
    {
        let mut row: Vec<usize> = Vec::new();
        let mut y: usize = 0;
        while y < h
            invariant
                row@.len() == y,
                0 <= y <= h,
                forall|j: int| 0 <= j < y ==> #[trigger] row@[j] == 0,
            decreases h - y,
        {
            row.push(0);
            y += 1;
        }
        r.push(row);
        x += 1;
    }
    r
}

/// A `w` x `h` grid of `u8` zeros.
pub fn zero_grid_u8(w: usize, h: usize) -> (r: Vec<Vec<u8>>)
    ensures
        r@.len() == w,
        forall|x: int| 0 <= x < w ==> (#[trigger] r@[x])@.len() == h,
        forall|x: int, y: int| 0 <= x < w && 0 <= y < h ==> #[trigger] r@[x]@[y] == 0,
{
    let mut r: Vec<Vec<u8>> = Vec::new();
    let mut x: usize = 0;
    while x < w
        invariant
            r@.len() == x,
            0 <= x <= w,
            forall|i: int| 0 <= i < x ==> (#[trigger] r@[i])@.len() == h,
            forall|i: int, y: int| 0 <= i < x && 0 <= y < h ==> #[trigger] r@[i]@[y] == 0,
        decreases w - x,
    {
        let mut row: Vec<u8> = Vec::new();
        let mut y: usize = 0;
        while y < h
            invariant
                row@.len() == y,
                0 <= y <= h,
                forall|j: int| 0 <= j < y ==> #[trigger] row@[j] == 0,
            decreases h - y,
        {
            row.push(0);
            y += 1;
        }
        r.push(row);
        x += 1;
    }
    r
}

} // verus!
