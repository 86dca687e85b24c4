//! Grid pathfinding state: a walkability grid plus a caller-supplied
//! influence overlay that biases traversal costs away from threats.

use vstd::prelude::*;

verus! {

use crate::grid::{grid_wf, walk_at, MapError, DIAG_DIST, DIST_SCALE, MAX_DIM};
use crate::reach::{adj8, connected, is_walk, SearchCfg};

/// Largest accepted clearance radius for a search, in tiles. Footprint
/// scans form sums like `x + MAX_CLEARANCE` with `x < MAX_DIM`, so any
/// bound up to `usize::MAX - MAX_DIM` would be safe; 64 is kept small
/// only because a footprint wider than the widest accepted passage scan
/// serves no caller.
pub const MAX_CLEARANCE: usize = 64;

/// Selectable distance heuristic for the frontier ordering.
#[derive(Debug, Clone, Copy, PartialEq, Eq, Structural)]
pub enum Heuristic {
    /// Octile distance: exact scaled cost of an unobstructed 8-direction
    /// walk.
    Octile,
    /// Scaled Euclidean distance, rounded down.
    Euclidean,
}

/// A tile coordinate pair as mathematical integers.
pub open spec fn ti(t: (usize, usize)) -> (int, int) {
    (t.0 as int, t.1 as int)
}

/// A sequence of tile coordinates as mathematical integer pairs.
pub open spec fn tile_seq(p: Seq<(usize, usize)>) -> Seq<(int, int)> {
    p.map_values(|t: (usize, usize)| (t.0 as int, t.1 as int))
}

/// Search configuration over a grid with a clearance radius and a window
/// rectangle.
pub open spec fn scfg(grid: Seq<Vec<u8>>, cl: int, x0: int, y0: int, x1: int, y1: int) -> SearchCfg {
    SearchCfg { grid, clearance: cl, x0, y0, x1, y1 }
}

/// Scaled cost of one search step: straight moves cost [`DIST_SCALE`],
/// diagonal moves cost [`DIAG_DIST`].
pub open spec fn spec_step_cost(a: (int, int), b: (int, int)) -> int {
    if a.0 != b.0 && a.1 != b.1 {
        DIAG_DIST as int
    } else {
        DIST_SCALE as int
    }
}

/// Scaled cost of entering `b` from `a`: the step cost, plus `b`'s
/// influence weight when influence-aware costing is on.
pub open spec fn spec_edge_cost(inf: Seq<Vec<u32>>, use_inf: bool, a: (int, int), b: (int, int)) -> int {
    spec_step_cost(a, b) + if use_inf {
        inf[b.0]@[b.1] as int
    } else {
        0int
    }
}

/// Accumulated scaled cost of a walk: the sum of its edge costs.
pub open spec fn walk_cost(inf: Seq<Vec<u32>>, use_inf: bool, p: Seq<(int, int)>) -> int
    decreases p.len(),
{
    if p.len() <= 1 {
        0int
    } else {
        walk_cost(inf, use_inf, p.drop_last()) + spec_edge_cost(
            inf,
            use_inf,
            p[p.len() - 2],
            p[p.len() - 1],
        )
    }
}

/// Integer square root: the largest `r` with `r * r <= n`.
pub fn isqrt(n: u64) -> (r: u64)
    ensures
        r * r <= n,
        n < (r + 1) * (r + 1),
{
    let mut lo: u64 = 0;
    let mut hi: u64 = 0x1_0000_0000;
    assert((hi as int) * (hi as int) > n as int) by (nonlinear_arith)
        requires
            hi == 0x1_0000_0000,
            n <= u64::MAX,
    ;
    while lo + 1 < hi
        invariant
            lo < hi <= 0x1_0000_0000,
            (lo as int) * (lo as int) <= n as int,
            (n as int) < (hi as int) * (hi as int),
        decreases hi - lo,
    {
        let mid = lo + (hi - lo) / 2;
        assert((mid as int) * (mid as int) <= 0x1_0000_0000_0000_0000) by (nonlinear_arith)
            requires
                mid <= 0x1_0000_0000,
        ;
        let sq: u128 = (mid as u128) * (mid as u128);
        if sq <= n as u128 {
            lo = mid;
        } else {
            hi = mid;
        }
    }
    lo
}

/// Absolute coordinate difference.
fn abs_diff(a: usize, b: usize) -> (r: usize)
    ensures
        r as int == if a >= b { a - b } else { b - a },
{
    if a >= b {
        a - b
    } else {
        b - a
    }
}

/// Scaled octile distance between two tiles: the exact cost of an
/// unobstructed 8-direction walk from `a` to `b`.
pub open spec fn spec_octile(a: (int, int), b: (int, int)) -> int {
    let dx = if a.0 >= b.0 { a.0 - b.0 } else { b.0 - a.0 };
    let dy = if a.1 >= b.1 { a.1 - b.1 } else { b.1 - a.1 };
    if dx >= dy {
        8 * dx + 3 * dy
    } else {
        8 * dy + 3 * dx
    }
}

/// Squared tile distance between two tiles.
pub open spec fn spec_sq_dist(a: (int, int), b: (int, int)) -> int {
    (a.0 - b.0) * (a.0 - b.0) + (a.1 - b.1) * (a.1 - b.1)
}

/// Scaled octile distance.
pub fn octile_scaled(a: (usize, usize), b: (usize, usize)) -> (r: u64)
    requires
        a.0 <= MAX_DIM,
        a.1 <= MAX_DIM,
        b.0 <= MAX_DIM,
        b.1 <= MAX_DIM,
    ensures
        r as int == spec_octile(ti(a), ti(b)),
{
    let dx = abs_diff(a.0, b.0) as u64;
    let dy = abs_diff(a.1, b.1) as u64;
    if dx >= dy {
        8 * dx + 3 * dy
    } else {
        8 * dy + 3 * dx
    }
}

/// Scaled Euclidean distance, rounded down: the integer square root of
/// the squared tile distance times the squared scale factor.
pub fn euclid_scaled(a: (usize, usize), b: (usize, usize)) -> (r: u64)
    requires
        a.0 <= MAX_DIM,
        a.1 <= MAX_DIM,
        b.0 <= MAX_DIM,
        b.1 <= MAX_DIM,
    ensures
        r * r <= 64 * spec_sq_dist(ti(a), ti(b)),
        64 * spec_sq_dist(ti(a), ti(b)) < (r + 1) * (r + 1),
{
    let dx = abs_diff(a.0, b.0) as u64;
    let dy = abs_diff(a.1, b.1) as u64;
    assert(dx * dx + dy * dy <= 0x2000_0000 && (dx as int) * (dx as int) + (dy as int) * (dy
        as int) == spec_sq_dist(ti(a), ti(b))) by (nonlinear_arith)
        requires
            dx <= 16384,
            dy <= 16384,
            dx as int == if a.0 >= b.0 { a.0 - b.0 } else { b.0 - a.0 },
            dy as int == if a.1 >= b.1 { a.1 - b.1 } else { b.1 - a.1 },
    ;
    isqrt(64 * (dx * dx + dy * dy))
}

/// Heuristic distance between two tiles under the chosen heuristic.
fn heur_dist(h: Heuristic, a: (usize, usize), b: (usize, usize)) -> (r: u64)
    requires
        a.0 <= MAX_DIM,
        a.1 <= MAX_DIM,
        b.0 <= MAX_DIM,
        b.1 <= MAX_DIM,
{
    match h {
        Heuristic::Octile => octile_scaled(a, b),
        Heuristic::Euclidean => euclid_scaled(a, b),
    }
}

/// Executable check that the search may stand on `(x, y)`: inside the
/// window rectangle, with every tile of the clearance footprint walkable.
pub(crate) fn allowed_tile(
    map: &Vec<Vec<u8>>,
    cl: usize,
    wx0: usize,
    wy0: usize,
    wx1: usize,
    wy1: usize,
    x: usize,
    y: usize,
) -> (r: bool)
    requires
        grid_wf(
            map@,
            map@.len() as int,
            if map@.len() == 0 { 0int } else { map@[0]@.len() as int },
        ),
        map@.len() <= MAX_DIM,
        map@.len() > 0 ==> map@[0]@.len() <= MAX_DIM,
        cl <= MAX_CLEARANCE,
    ensures
        r == scfg(
            map@,
            cl as int,
            wx0 as int,
            wy0 as int,
            wx1 as int,
            wy1 as int,
        ).ok((x as int, y as int)),
{
    let ghost c = scfg(map@, cl as int, wx0 as int, wy0 as int, wx1 as int, wy1 as int);
    if !(wx0 <= x && x < wx1 && wy0 <= y && y < wy1) {
        return false;
    }
    let w = map.len();
    if x >= w {
        proof {
            if c.footprint_ok(x as int, y as int) {
                crate::reach::lemma_footprint_at(c, x as int, y as int, x as int, y as int);
            }
        }
        return false;
    }
    let h = map[0].len();
    if y >= h {
        proof {
            if c.footprint_ok(x as int, y as int) {
                crate::reach::lemma_footprint_at(c, x as int, y as int, x as int, y as int);
            }
        }
        return false;
    }
    if x < cl || y < cl || x + cl >= w || y + cl >= h {
        proof {
            if c.footprint_ok(x as int, y as int) {
                if x < cl {
                    crate::reach::lemma_footprint_at(c, x as int, y as int, x - cl, y as int);
                } else if y < cl {
                    crate::reach::lemma_footprint_at(c, x as int, y as int, x as int, y - cl);
                } else if x + cl >= w {
                    crate::reach::lemma_footprint_at(c, x as int, y as int, x + cl, y as int);
                } else {
                    crate::reach::lemma_footprint_at(c, x as int, y as int, x as int, y + cl);
                }
            }
        }
        return false;
    }
    let mut i = x - cl;
    while i <= x + cl
        invariant
            c == scfg(map@, cl as int, wx0 as int, wy0 as int, wx1 as int, wy1 as int),
            grid_wf(map@, w as int, h as int),
            w == map@.len(),
            cl <= x < w,
            cl <= y < h,
            x + cl < w,
            y + cl < h,
            x - cl <= i,
            i <= x + cl + 1,
            forall|a: int, b: int|
                x - cl <= a < i && y - cl <= b <= y + cl ==> walk_at(map@, a, b),
        decreases x + cl + 1 - i,
    {
        let mut j = y - cl;
        while j <= y + cl
            invariant
                c == scfg(map@, cl as int, wx0 as int, wy0 as int, wx1 as int, wy1 as int),
                grid_wf(map@, w as int, h as int),
                w == map@.len(),
                cl <= x < w,
                cl <= y < h,
                x + cl < w,
                y + cl < h,
                x - cl <= i <= x + cl,
                y - cl <= j,
                j <= y + cl + 1,
                forall|b: int| y - cl <= b < j ==> walk_at(map@, i as int, b),
            decreases y + cl + 1 - j,
        {
            if map[i][j] == 0 {
                proof {
                    if c.footprint_ok(x as int, y as int) {
                        crate::reach::lemma_footprint_at(
                            c,
                            x as int,
                            y as int,
                            i as int,
                            j as int,
                        );
                    }
                }
                return false;
            }
            j += 1;
        }
        i += 1;
    }
    assert(c.footprint_ok(x as int, y as int)) by {
        reveal(SearchCfg::footprint_ok);
    }
    true
}

/// Pathfinding state over one walkability grid. The influence overlay has
/// the same shape and adds a per-tile weight to traversal cost when a
/// search asks for influence-aware paths.
pub struct PathFind {
    /// Walkability grid: a tile with value > 0 is walkable.
    pub map: Vec<Vec<u8>>,
    /// Per-tile influence weight added to the cost of entering the tile.
    pub influence: Vec<Vec<u32>>,
}

/// Unit-size classes used to pick a clearance radius for a search.
#[derive(Debug, Clone, Copy, PartialEq, Eq, Structural)]
pub enum PathfindingUnitType {
    /// Ordinary ground unit: no extra clearance.
    Ground,
    /// Flying unit: terrain does not constrain it more than a point.
    Air,
    /// Cliff-jumping ground unit: no extra clearance.
    Reaper,
    /// Oversized ground unit: needs one tile of clearance around it.
    Colossus,
}

impl PathfindingUnitType {
    /// Clearance radius in tiles required around a tile this unit stands
    /// on.
    pub fn clearance_radius(self) -> (r: usize)
        ensures
            r == self.spec_clearance_radius(),
    {
        match self {
            PathfindingUnitType::Colossus => 1,
            _ => 0,
        }
    }

    /// What [`Self::clearance_radius`] returns.
    pub open spec fn spec_clearance_radius(self) -> usize {
        match self {
            PathfindingUnitType::Colossus => 1usize,
            _ => 0usize,
        }
    }
}

impl PathFind {
    /// Structural well-formedness: uniform rows, dimensions within
    /// [`MAX_DIM`], influence overlay of the same shape.
    pub open spec fn wf(self) -> bool {
        let w = self.map@.len() as int;
        let h = if w == 0 { 0int } else { self.map@[0]@.len() as int };
        &&& w <= MAX_DIM
        &&& h <= MAX_DIM
        &&& grid_wf(self.map@, w, h)
        &&& self.influence@.len() == w
        &&& forall|x: int| 0 <= x < w ==> (#[trigger] self.influence@[x])@.len() == h
    }

    /// Number of columns.
    pub open spec fn spec_width(self) -> int {
        self.map@.len() as int
    }

    /// Number of rows.
    pub open spec fn spec_height(self) -> int {
        if self.map@.len() == 0 {
            0int
        } else {
            self.map@[0]@.len() as int
        }
    }

    /// Every influence cell is zero.
    pub open spec fn influence_is_zero(self) -> bool {
        forall|x: int, y: int|
            0 <= x < self.influence@.len() && 0 <= y < self.influence@[x]@.len()
                ==> #[trigger] self.influence@[x]@[y] == 0
    }

    /// Builds pathfinding state over a walkability grid; rejects a ragged
    /// grid.
    pub fn new(map: Vec<Vec<u8>>) -> (r: Result<PathFind, MapError>)
        requires
            map@.len() <= MAX_DIM,
            map@.len() > 0 ==> map@[0]@.len() <= MAX_DIM,
        ensures
            r is Ok <==> grid_wf(
                map@,
                map@.len() as int,
                if map@.len() == 0 { 0int } else { map@[0]@.len() as int },
            ),
            r is Err ==> r == Err::<PathFind, MapError>(MapError::DimensionMismatch),
            r matches Ok(p) ==> p.wf() && p.map@ == map@ && p.influence_is_zero(),
    {
        let w = map.len();
        let h = if w == 0 { 0 } else { map[0].len() };
        if !crate::grid::grids_uniform(&map, w, h) {
            return Err(MapError::DimensionMismatch);
        }
        Ok(Self::from_checked(map, w, h))
    }

    /// Builds pathfinding state over a grid already known to be uniform.
    pub fn from_checked(map: Vec<Vec<u8>>, w: usize, h: usize) -> (r: PathFind)
        requires
            w <= MAX_DIM,
            h <= MAX_DIM,
            grid_wf(map@, w as int, h as int),
        ensures
            r.wf(),
            r.map@ == map@,
            r.spec_width() == w as int,
            w > 0 ==> r.spec_height() == h as int,
            r.influence_is_zero(),
    {
        let influence = zero_grid_u32(w, h);
        PathFind { map, influence }
    }

    /// The search configuration [`Self::find_path`] searches under: the
    /// pathing grid, the clearance radius, and the window rectangle (the
    /// whole grid when no window is given).
    pub open spec fn search_cfg(
        self,
        clearance: int,
        window: Option<((usize, usize), (usize, usize))>,
    ) -> SearchCfg {
        match window {
            Some(wd) => scfg(
                self.map@,
                clearance,
                wd.0.0 as int,
                wd.0.1 as int,
                wd.1.0 as int,
                wd.1.1 as int,
            ),
            None => scfg(self.map@, clearance, 0, 0, self.spec_width(), self.spec_height()),
        }
    }

    /// A* search over the tile graph with 8-directional connectivity.
    ///
    /// Returns the waypoints from `start` to `goal` together with the
    /// accumulated edge cost (straight steps cost [`DIST_SCALE`], diagonal
    /// steps [`DIAG_DIST`], plus the target tile's influence weight when
    /// `use_influence` is set), or `None` when no route exists within the
    /// window, or when the distance limit cuts the search off. For
    /// `clearance > 0` a tile is only used when the whole clearance
    /// footprint around it is walkable. The frontier prefers lower
    /// estimated total cost and breaks ties by insertion order, so equal
    /// inputs give equal outputs.
    ///
    /// Each tile's cost and predecessor are fixed when it is first
    /// discovered, so the returned route is a valid one but not promised
    /// to be the cheapest, and a distance limit may cut the search off
    /// even when some route within the limit exists; the contract
    /// deliberately states neither.
    #[verifier::rlimit(100)]
    pub fn find_path(
        &self,
        start: (usize, usize),
        goal: (usize, usize),
        clearance: usize,
        use_influence: bool,
        heuristic: Heuristic,
        window: Option<((usize, usize), (usize, usize))>,
        distance_limit: Option<u64>,
    ) -> (r: Option<(Vec<(usize, usize)>, u64)>)
        requires
            self.wf(),
            clearance <= MAX_CLEARANCE,
        ensures
            r matches Some(pc) ==> is_walk(
                self.search_cfg(clearance as int, window),
                tile_seq(pc.0@),
            ),
            r matches Some(pc) ==> tile_seq(pc.0@).first() == ti(start) && tile_seq(
                pc.0@,
            ).last() == ti(goal),
            r matches Some(pc) ==> pc.1 as int == walk_cost(
                self.influence@,
                use_influence,
                tile_seq(pc.0@),
            ),
            r is Some ==> connected(
                self.search_cfg(clearance as int, window),
                ti(start),
                ti(goal),
            ),
            distance_limit is None ==> (r is Some <==> connected(
                self.search_cfg(clearance as int, window),
                ti(start),
                ti(goal),
            )),
    {
        let w = self.map.len();
        let h = if w == 0 {
            0
        } else {
            self.map[0].len()
        };
        let (wx0, wy0, wx1, wy1) = match window {
            Some(wd) => (wd.0.0, wd.0.1, wd.1.0, wd.1.1),
            None => (0, 0, w, h),
        };
        let ghost c = self.search_cfg(clearance as int, window);
        proof {
            assert(c == scfg(
                self.map@,
                clearance as int,
                wx0 as int,
                wy0 as int,
                wx1 as int,
                wy1 as int,
            ));
        }
        if !allowed_tile(&self.map, clearance, wx0, wy0, wx1, wy1, start.0, start.1) {
            proof {
                if connected(c, ti(start), ti(goal)) {
                    crate::reach::lemma_connected_ends_ok(c, ti(start), ti(goal));
                }
            }
            return None;
        }
        if !allowed_tile(&self.map, clearance, wx0, wy0, wx1, wy1, goal.0, goal.1) {
            proof {
                if connected(c, ti(start), ti(goal)) {
                    crate::reach::lemma_connected_ends_ok(c, ti(start), ti(goal));
                }
            }
            return None;
        }
        proof {
            crate::reach::lemma_ok_in_grid(c, ti(start));
            crate::reach::lemma_ok_in_grid(c, ti(goal));
        }
        let mut disc = fill_grid::<bool>(w, h, false);
        let mut par = fill_grid::<(usize, usize)>(w, h, (0, 0));
        let mut hop = fill_grid::<usize>(w, h, 0);
        let mut g = fill_grid::<u64>(w, h, 0);
        let mut frontier: Vec<(usize, usize)> = Vec::new();
        let mut nd: usize = 1;
        disc[start.0][start.1] = true;
        frontier.push(start);
        proof {
            crate::reach::lemma_connected_refl(c, ti(start));
            crate::reach::lemma_rect_tiles_len(w as int, h as int);
            assert(discset(disc@, w as int, h as int) =~= Set::empty().insert(ti(start)));
            vstd::set_lib::lemma_len_subset(
                discset(disc@, w as int, h as int),
                crate::reach::rect_tiles(w as int, h as int),
            );
            assert(frontier@[0] == start);
            assert(in_frontier(frontier@, start.0 as int, start.1 as int));
        }
        while frontier.len() > 0
            invariant
                astar_inv(
                    c,
                    start,
                    goal,
                    w as int,
                    h as int,
                    disc@,
                    par@,
                    hop@,
                    g@,
                    frontier@,
                    nd as int,
                    None::<(int, int)>,
                ),
                c == scfg(
                    self.map@,
                    clearance as int,
                    wx0 as int,
                    wy0 as int,
                    wx1 as int,
                    wy1 as int,
                ),
                c == self.search_cfg(clearance as int, window),
                grid_wf(self.map@, w as int, h as int),
                w == self.map@.len(),
                w <= MAX_DIM,
                h <= MAX_DIM,
                clearance <= MAX_CLEARANCE,
                gdims(self.influence@, w as int, h as int),
                goal.0 < w,
                goal.1 < h,
                start.0 < w,
                start.1 < h,
            decreases w * h - nd, frontier@.len(),
        {
            let (best, bestf) = pick_best(&frontier, &g, goal, heuristic, w, h);
            if let Some(limit) = distance_limit {
                if bestf > limit {
                    return None;
                }
            }
            let ghost f1 = frontier@;
            let t = frontier.remove(best);
            proof {
                assert forall|j: int|
                    0 <= j < frontier@.len() implies (#[trigger] frontier@[j]).0 < w
                        && frontier@[j].1 < h
                        && disc@[frontier@[j].0 as int]@[frontier@[j].1 as int] by {
                    if j < best {
                        assert(frontier@[j] == f1[j]);
                    } else {
                        assert(frontier@[j] == f1[j + 1]);
                    }
                }
                assert forall|x: int, y: int|
                    #[trigger] in_frontier(f1, x, y) && (x, y) != ti(t) implies in_frontier(
                    frontier@,
                    x,
                    y,
                ) by {
                    let j = choose|j: int|
                        0 <= j < f1.len() && (#[trigger] f1[j]).0 == x && f1[j].1 == y;
                    if j < best {
                        assert(frontier@[j] == f1[j]);
                    } else {
                        assert(j != best);
                        assert(frontier@[j - 1] == f1[j]);
                    }
                }
            }
            if t.0 == goal.0 && t.1 == goal.1 {
                let (path, cost) = reconstruct_path(
                    &self.influence,
                    use_influence,
                    w,
                    h,
                    start,
                    goal,
                    &disc,
                    &par,
                    &hop,
                    nd,
                    Ghost(c),
                );
                proof {
                    crate::reach::lemma_walk_gives_connected(c, tile_seq(path@));
                }
                return Some((path, cost));
            }
            proof {
                assert forall|x: int, y: int|
                    0 <= x < w && 0 <= y < h && #[trigger] disc@[x]@[y] && !in_frontier(
                        frontier@,
                        x,
                        y,
                    ) && Some((x, y)) != Some(ti(t)) implies nbrs_disc(
                    c,
                    disc@,
                    w as int,
                    h as int,
                    x,
                    y,
                ) by {
                    if in_frontier(f1, x, y) {
                        assert(in_frontier(frontier@, x, y));
                    }
                    assert(!in_frontier(f1, x, y));
                }
                if disc@[goal.0 as int]@[goal.1 as int] {
                    assert(in_frontier(f1, goal.0 as int, goal.1 as int));
                    assert((goal.0 as int, goal.1 as int) != ti(t));
                    assert(in_frontier(frontier@, goal.0 as int, goal.1 as int));
                }
            }
            expand_neighbors(
                &self.map, &self.influence, use_influence, clearance,
                wx0, wy0, wx1, wy1, w, h, start, goal, t,
                &mut disc, &mut par, &mut hop, &mut g, &mut frontier, &mut nd, Ghost(c),
            );
        }
        proof {
            if connected(c, ti(start), ti(goal)) {
                let w_ = w as int;
                let h_ = h as int;
                let ds = discset(disc@, w_, h_);
                assert forall|u: (int, int), n: (int, int)|
                    #[trigger] ds.contains(u) && adj8(u, n) && #[trigger] c.ok(n) implies ds.contains(
                    n,
                ) by {
                    assert(disc@[u.0]@[u.1]);
                    assert(!in_frontier(frontier@, u.0, u.1));
                    assert(nbrs_disc(c, disc@, w_, h_, u.0, u.1));
                    assert(n.0 == u.0 - 1 || n.0 == u.0 || n.0 == u.0 + 1);
                    assert(n.1 == u.1 - 1 || n.1 == u.1 || n.1 == u.1 + 1);
                    assert(disc_at(disc@, w_, h_, n.0, n.1));
                }
                assert(ds.contains(ti(start)));
                crate::reach::lemma_reach_closed(c, ds, ti(start), ti(goal));
                assert(disc@[goal.0 as int]@[goal.1 as int]);
                assert(in_frontier(frontier@, goal.0 as int, goal.1 as int));
                assert(false);
            }
        }
        None
    }

    /// Resets every influence weight to zero.
    pub fn reset_influence(&mut self)
        requires
            old(self).wf(),
        ensures
            final(self).wf(),
            final(self).map@ == old(self).map@,
            final(self).influence_is_zero(),
    {
        let w = self.map.len();
        let h = if w == 0 { 0 } else { self.map[0].len() };
        self.influence = zero_grid_u32(w, h);
    }
}

/// A grid of `w` rows of `h` cells each (generic shape predicate).
pub open spec fn gdims<T>(g: Seq<Vec<T>>, w: int, h: int) -> bool {
    g.len() == w && forall|x: int| 0 <= x < w ==> (#[trigger] g[x])@.len() == h
}

/// A `w` x `h` grid filled with one value.
fn fill_grid<T: Copy>(w: usize, h: usize, val: T) -> (r: Vec<Vec<T>>)
    ensures
        gdims(r@, w as int, h as int),
        forall|x: int, y: int| 0 <= x < w && 0 <= y < h ==> #[trigger] r@[x]@[y] == val,
{
    let mut r: Vec<Vec<T>> = Vec::new();
    let mut x: usize = 0;
    while x < w
        invariant
            r@.len() == x,
            0 <= x <= w,
            forall|i: int| 0 <= i < x ==> (#[trigger] r@[i])@.len() == h,
            forall|i: int, y: int| 0 <= i < x && 0 <= y < h ==> #[trigger] r@[i]@[y] == val,
        decreases w - x,
    {
        let mut row: Vec<T> = Vec::new();
        let mut y: usize = 0;
        while y < h
            invariant
                row@.len() == y,
                0 <= y <= h,
                forall|j: int| 0 <= j < y ==> #[trigger] row@[j] == val,
            decreases h - y,
        {
            row.push(val);
            y += 1;
        }
        r.push(row);
        x += 1;
    }
    r
}

/// The tile `(x, y)` occurs in the frontier.
pub(crate) open spec fn in_frontier(f: Seq<(usize, usize)>, x: int, y: int) -> bool {
    exists|k: int| 0 <= k < f.len() && (#[trigger] f[k]).0 == x && f[k].1 == y
}

/// The tile exists in the `w` x `h` state grids and is discovered.
pub(crate) open spec fn disc_at(disc: Seq<Vec<bool>>, w: int, h: int, x: int, y: int) -> bool {
    0 <= x < w && 0 <= y < h && disc[x]@[y]
}

/// Each allowed 8-neighbour of `(x, y)` has been discovered.
pub(crate) open spec fn nbrs_disc(
    c: SearchCfg,
    disc: Seq<Vec<bool>>,
    w: int,
    h: int,
    x: int,
    y: int,
) -> bool {
    &&& c.ok((x - 1, y - 1)) ==> disc_at(disc, w, h, x - 1, y - 1)
    &&& c.ok((x - 1, y)) ==> disc_at(disc, w, h, x - 1, y)
    &&& c.ok((x - 1, y + 1)) ==> disc_at(disc, w, h, x - 1, y + 1)
    &&& c.ok((x, y - 1)) ==> disc_at(disc, w, h, x, y - 1)
    &&& c.ok((x, y + 1)) ==> disc_at(disc, w, h, x, y + 1)
    &&& c.ok((x + 1, y - 1)) ==> disc_at(disc, w, h, x + 1, y - 1)
    &&& c.ok((x + 1, y)) ==> disc_at(disc, w, h, x + 1, y)
    &&& c.ok((x + 1, y + 1)) ==> disc_at(disc, w, h, x + 1, y + 1)
}

/// The set of discovered tiles.
pub(crate) open spec fn discset(disc: Seq<Vec<bool>>, w: int, h: int) -> Set<(int, int)> {
    Set::new(|t: (int, int)| 0 <= t.0 < w && 0 <= t.1 < h && disc[t.0]@[t.1])
}

/// The recorded predecessor of `(x, y)` is a discovered adjacent tile one
/// hop closer to the start.
pub(crate) open spec fn par_ok(
    disc: Seq<Vec<bool>>,
    hop: Seq<Vec<usize>>,
    p: (usize, usize),
    w: int,
    h: int,
    x: int,
    y: int,
) -> bool {
    &&& p.0 < w
    &&& p.1 < h
    &&& disc[p.0 as int]@[p.1 as int]
    &&& adj8(ti(p), (x, y))
    &&& hop[p.0 as int]@[p.1 as int] + 1 == hop[x]@[y]
}

/// Per-tile invariants of the search state: every discovered tile is
/// allowed and reachable from the start, and its predecessor chain walks
/// back to the start with strictly decreasing hop counts.
pub(crate) open spec fn astar_tiles_inv(
    c: SearchCfg,
    s: (int, int),
    w: int,
    h: int,
    disc: Seq<Vec<bool>>,
    par: Seq<Vec<(usize, usize)>>,
    hop: Seq<Vec<usize>>,
    nd: int,
) -> bool {
    &&& grid_wf(c.grid, w, h)
    &&& gdims(disc, w, h)
    &&& gdims(par, w, h)
    &&& gdims(hop, w, h)
    &&& 0 <= s.0 < w
    &&& 0 <= s.1 < h
    &&& c.ok(s)
    &&& disc[s.0]@[s.1]
    &&& hop[s.0]@[s.1] == 0
    &&& forall|x: int, y: int|
        0 <= x < w && 0 <= y < h && #[trigger] disc[x]@[y] ==> c.ok((x, y)) && connected(
            c,
            s,
            (x, y),
        ) && hop[x]@[y] < nd
    &&& forall|x: int, y: int|
        0 <= x < w && 0 <= y < h && #[trigger] disc[x]@[y] && (x, y) != s ==> hop[x]@[y] >= 1
            && par_ok(disc, hop, par[x]@[y], w, h, x, y)
}

/// Full search invariant: the per-tile part, the frontier holding only
/// discovered in-range tiles, every settled tile's neighbours discovered
/// (except possibly the tile `ex` being expanded), the goal never settled
/// without being returned, and the discovery count matching the set of
/// discovered tiles.
pub(crate) open spec fn astar_inv(
    c: SearchCfg,
    s: (usize, usize),
    goal: (usize, usize),
    w: int,
    h: int,
    disc: Seq<Vec<bool>>,
    par: Seq<Vec<(usize, usize)>>,
    hop: Seq<Vec<usize>>,
    g: Seq<Vec<u64>>,
    f: Seq<(usize, usize)>,
    nd: int,
    ex: Option<(int, int)>,
) -> bool {
    &&& astar_tiles_inv(c, ti(s), w, h, disc, par, hop, nd)
    &&& gdims(g, w, h)
    &&& goal.0 < w
    &&& goal.1 < h
    &&& forall|k: int|
        0 <= k < f.len() ==> (#[trigger] f[k]).0 < w && f[k].1 < h
            && disc[f[k].0 as int]@[f[k].1 as int]
    &&& forall|x: int, y: int|
        0 <= x < w && 0 <= y < h && #[trigger] disc[x]@[y] && !in_frontier(f, x, y) && Some(
            (x, y),
        ) != ex ==> nbrs_disc(c, disc, w, h, x, y)
    &&& (disc[goal.0 as int]@[goal.1 as int] ==> in_frontier(f, goal.0 as int, goal.1 as int))
    &&& discset(disc, w, h).len() == nd
    &&& nd <= w * h
}

/// Examines one candidate neighbour `n` of the tile `t` being expanded:
/// when `n` is allowed and not yet discovered, records its predecessor,
/// hop count and cost, and pushes it on the frontier.
#[verifier::rlimit(100)]
fn try_discover(
    map: &Vec<Vec<u8>>,
    influence: &Vec<Vec<u32>>,
    use_inf: bool,
    cl: usize,
    wx0: usize,
    wy0: usize,
    wx1: usize,
    wy1: usize,
    w: usize,
    h: usize,
    start: (usize, usize),
    goal: (usize, usize),
    t: (usize, usize),
    n: (usize, usize),
    disc: &mut Vec<Vec<bool>>,
    par: &mut Vec<Vec<(usize, usize)>>,
    hop: &mut Vec<Vec<usize>>,
    g: &mut Vec<Vec<u64>>,
    frontier: &mut Vec<(usize, usize)>,
    nd: &mut usize,
    c: Ghost<SearchCfg>,
)
    requires
        c@ == scfg(map@, cl as int, wx0 as int, wy0 as int, wx1 as int, wy1 as int),
        grid_wf(map@, w as int, h as int),
        w <= MAX_DIM,
        h <= MAX_DIM,
        cl <= MAX_CLEARANCE,
        gdims(influence@, w as int, h as int),
        astar_inv(
            c@,
            start,
            goal,
            w as int,
            h as int,
            old(disc)@,
            old(par)@,
            old(hop)@,
            old(g)@,
            old(frontier)@,
            *old(nd) as int,
            Some(ti(t)),
        ),
        t.0 < w,
        t.1 < h,
        old(disc)@[t.0 as int]@[t.1 as int],
        n.0 < w,
        n.1 < h,
        adj8(ti(t), ti(n)),
    ensures
        astar_inv(
            c@,
            start,
            goal,
            w as int,
            h as int,
            final(disc)@,
            final(par)@,
            final(hop)@,
            final(g)@,
            final(frontier)@,
            *final(nd) as int,
            Some(ti(t)),
        ),
        forall|x: int, y: int|
            0 <= x < w && 0 <= y < h && old(disc)@[x]@[y] ==> final(disc)@[x]@[y],
        c@.ok(ti(n)) ==> final(disc)@[n.0 as int]@[n.1 as int],
        *old(nd) <= *final(nd) <= *old(nd) + 1,
        *final(nd) == *old(nd) ==> final(frontier)@ == old(frontier)@ && final(disc)@ == old(
            disc,
        )@,
        *final(nd) == *old(nd) + 1 ==> final(frontier)@ == old(frontier)@.push(n) && !old(
            disc,
        )@[n.0 as int]@[n.1 as int],
{
    let ghost w_ = w as int;
    let ghost h_ = h as int;
    if !allowed_tile(map, cl, wx0, wy0, wx1, wy1, n.0, n.1) {
        return ;
    }
    if disc[n.0][n.1] {
        return ;
    }
    proof {
        crate::reach::lemma_rect_tiles_len(w_, h_);
        assert(discset(disc@, w_, h_).subset_of(crate::reach::rect_tiles(w_, h_)));
        vstd::set_lib::lemma_len_subset(discset(disc@, w_, h_), crate::reach::rect_tiles(w_, h_));
        assert(discset(disc@, w_, h_).insert(ti(n)).subset_of(crate::reach::rect_tiles(w_, h_)));
        vstd::set_lib::lemma_len_subset(
            discset(disc@, w_, h_).insert(ti(n)),
            crate::reach::rect_tiles(w_, h_),
        );
        assert(w_ * h_ <= 0x1000_0000) by (nonlinear_arith)
            requires
                0 <= w_ <= 16384,
                0 <= h_ <= 16384,
        ;
    }
    let ghost old_disc = disc@;
    let ghost old_hop = hop@;
    disc[n.0][n.1] = true;
    par[n.0][n.1] = t;
    let ht = hop[t.0][t.1];
    hop[n.0][n.1] = ht + 1;
    let step: u64 = if t.0 != n.0 && t.1 != n.1 {
        DIAG_DIST
    } else {
        DIST_SCALE
    };
    let iw: u64 = if use_inf {
        influence[n.0][n.1] as u64
    } else {
        0
    };
    let gt = g[t.0][t.1];
    g[n.0][n.1] = gt.saturating_add(step + iw);
    frontier.push(n);
    proof {
        assert(connected(c@, ti(start), ti(t)));
        crate::reach::lemma_connected_step(c@, ti(start), ti(t), ti(n));
        assert(discset(disc@, w_, h_) =~= discset(old_disc, w_, h_).insert(ti(n)));
    }
    *nd += 1;
    proof {
        let f2 = frontier@;
        let f1 = old(frontier)@;
        let d2 = disc@;
        let n_ = ti(n);
        assert(d2[n.0 as int]@[n.1 as int]);
        assert forall|x: int, y: int|
            0 <= x < w_ && 0 <= y < h_ && #[trigger] d2[x]@[y] implies c@.ok((x, y)) && connected(
            c@,
            ti(start),
            (x, y),
        ) && hop@[x]@[y] < *nd by {
            if (x, y) != n_ {
                assert(old_disc[x]@[y]);
                assert(old_hop[x]@[y] == hop@[x]@[y]);
            }
        }
        assert forall|x: int, y: int|
            0 <= x < w_ && 0 <= y < h_ && #[trigger] d2[x]@[y] && (x, y) != ti(start) implies hop@[x]@[y]
            >= 1 && par_ok(d2, hop@, par@[x]@[y], w_, h_, x, y) by {
            if (x, y) == n_ {
                assert(old_hop[t.0 as int]@[t.1 as int] < *old(nd));
            } else {
                assert(old_disc[x]@[y]);
                assert(par_ok(old_disc, old_hop, par@[x]@[y], w_, h_, x, y));
                assert(par@[x]@[y] != n) by {
                    assert(old_disc[par@[x]@[y].0 as int]@[par@[x]@[y].1 as int]);
                }
            }
        }
        assert forall|k: int|
            0 <= k < f2.len() implies (#[trigger] f2[k]).0 < w_ && f2[k].1 < h_
                && d2[f2[k].0 as int]@[f2[k].1 as int] by {
            if k < f2.len() - 1 {
                assert(f2[k] == f1[k]);
                assert(old_disc[f1[k].0 as int]@[f1[k].1 as int]);
            } else {
                assert(f2[k] == n);
            }
        }
        if d2[goal.0 as int]@[goal.1 as int] {
            if (goal.0 as int, goal.1 as int) == n_ {
                assert(f2[f2.len() - 1] == n);
                assert(in_frontier(f2, goal.0 as int, goal.1 as int));
            } else {
                assert(old_disc[goal.0 as int]@[goal.1 as int]);
                let k = choose|k: int|
                    0 <= k < f1.len() && (#[trigger] f1[k]).0 == goal.0 as int && f1[k].1
                        == goal.1 as int;
                assert(f2[k] == f1[k]);
                assert(in_frontier(f2, goal.0 as int, goal.1 as int));
            }
        }
        assert forall|x: int, y: int|
            0 <= x < w_ && 0 <= y < h_ && #[trigger] d2[x]@[y] && !in_frontier(f2, x, y) && Some(
                (x, y),
            ) != Some(ti(t)) implies nbrs_disc(c@, d2, w_, h_, x, y) by {
            assert(f2[f2.len() - 1] == n);
            assert((x, y) != n_);
            assert(old_disc[x]@[y]);
            assert forall|k: int| 0 <= k < f1.len() implies !((#[trigger] f1[k]).0 == x && f1[k].1
                == y) by {
                assert(f2[k] == f1[k]);
            }
            assert(!in_frontier(f1, x, y));
            assert(nbrs_disc(c@, old_disc, w_, h_, x, y));
            assert forall|a: int, b: int|
                disc_at(old_disc, w_, h_, a, b) implies #[trigger] disc_at(d2, w_, h_, a, b) by {
                if (a, b) != n_ {
                    assert(d2[a]@[b] == old_disc[a]@[b]);
                }
            }
        }
    }
}
/// Picks the frontier entry with the least estimated total cost; ties go
/// to the earliest-inserted entry, which keeps the search deterministic.
fn pick_best(
    frontier: &Vec<(usize, usize)>,
    g: &Vec<Vec<u64>>,
    goal: (usize, usize),
    heuristic: Heuristic,
    w: usize,
    h: usize,
) -> (r: (usize, u64))
    requires
        frontier@.len() >= 1,
        gdims(g@, w as int, h as int),
        forall|j: int|
            0 <= j < frontier@.len() ==> (#[trigger] frontier@[j]).0 < w && frontier@[j].1 < h,
        w <= MAX_DIM,
        h <= MAX_DIM,
        goal.0 < w,
        goal.1 < h,
    ensures
        r.0 < frontier@.len(),
{
    let mut best: usize = 0;
    let t0 = frontier[0];
    let mut bestf: u64 = g[t0.0][t0.1].saturating_add(heur_dist(heuristic, t0, goal));
    let mut k: usize = 1;
    while k < frontier.len()
        invariant
            1 <= k <= frontier@.len(),
            best < frontier@.len(),
            gdims(g@, w as int, h as int),
            forall|j: int|
                0 <= j < frontier@.len() ==> (#[trigger] frontier@[j]).0 < w && frontier@[j].1
                    < h,
            w <= MAX_DIM,
            h <= MAX_DIM,
            goal.0 < w,
            goal.1 < h,
        decreases frontier@.len() - k,
    {
        let tk = frontier[k];
        let fk = g[tk.0][tk.1].saturating_add(heur_dist(heuristic, tk, goal));
        if fk < bestf {
            best = k;
            bestf = fk;
        }
        k += 1;
    }
    (best, bestf)
}

/// Expands a tile just taken off the frontier: offers each of its eight
/// neighbours to the search, then shows that every allowed neighbour of
/// the tile is discovered, restoring the full search invariant.
#[verifier::rlimit(100)]
fn expand_neighbors(
    map: &Vec<Vec<u8>>,
    influence: &Vec<Vec<u32>>,
    use_inf: bool,
    cl: usize,
    wx0: usize,
    wy0: usize,
    wx1: usize,
    wy1: usize,
    w: usize,
    h: usize,
    start: (usize, usize),
    goal: (usize, usize),
    t: (usize, usize),
    disc: &mut Vec<Vec<bool>>,
    par: &mut Vec<Vec<(usize, usize)>>,
    hop: &mut Vec<Vec<usize>>,
    g: &mut Vec<Vec<u64>>,
    frontier: &mut Vec<(usize, usize)>,
    nd: &mut usize,
    c: Ghost<SearchCfg>,
)
    requires
        c@ == scfg(map@, cl as int, wx0 as int, wy0 as int, wx1 as int, wy1 as int),
        grid_wf(map@, w as int, h as int),
        w <= MAX_DIM,
        h <= MAX_DIM,
        cl <= MAX_CLEARANCE,
        gdims(influence@, w as int, h as int),
        astar_inv(
            c@,
            start,
            goal,
            w as int,
            h as int,
            old(disc)@,
            old(par)@,
            old(hop)@,
            old(g)@,
            old(frontier)@,
            *old(nd) as int,
            Some(ti(t)),
        ),
        t.0 < w,
        t.1 < h,
        old(disc)@[t.0 as int]@[t.1 as int],
    ensures
        astar_inv(
            c@,
            start,
            goal,
            w as int,
            h as int,
            final(disc)@,
            final(par)@,
            final(hop)@,
            final(g)@,
            final(frontier)@,
            *final(nd) as int,
            None::<(int, int)>,
        ),
        *old(nd) <= *final(nd),
        *final(nd) == *old(nd) ==> final(frontier)@ == old(frontier)@,
{
    let tx = t.0;
    let ty = t.1;
    if tx >= 1 {
        try_discover(
            map, influence, use_inf, cl, wx0, wy0, wx1, wy1, w, h, start, goal, t,
            (tx - 1, ty), disc, par, hop, g, frontier, nd, c,
        );
    }
    if tx + 1 < w {
        try_discover(
            map, influence, use_inf, cl, wx0, wy0, wx1, wy1, w, h, start, goal, t,
            (tx + 1, ty), disc, par, hop, g, frontier, nd, c,
        );
    }
    if ty >= 1 {
        try_discover(
            map, influence, use_inf, cl, wx0, wy0, wx1, wy1, w, h, start, goal, t,
            (tx, ty - 1), disc, par, hop, g, frontier, nd, c,
        );
    }
    if ty + 1 < h {
        try_discover(
            map, influence, use_inf, cl, wx0, wy0, wx1, wy1, w, h, start, goal, t,
            (tx, ty + 1), disc, par, hop, g, frontier, nd, c,
        );
    }
    if tx >= 1 && ty >= 1 {
        try_discover(
            map, influence, use_inf, cl, wx0, wy0, wx1, wy1, w, h, start, goal, t,
            (tx - 1, ty - 1), disc, par, hop, g, frontier, nd, c,
        );
    }
    if tx >= 1 && ty + 1 < h {
        try_discover(
            map, influence, use_inf, cl, wx0, wy0, wx1, wy1, w, h, start, goal, t,
            (tx - 1, ty + 1), disc, par, hop, g, frontier, nd, c,
        );
    }
    if tx + 1 < w && ty >= 1 {
        try_discover(
            map, influence, use_inf, cl, wx0, wy0, wx1, wy1, w, h, start, goal, t,
            (tx + 1, ty - 1), disc, par, hop, g, frontier, nd, c,
        );
    }
    if tx + 1 < w && ty + 1 < h {
        try_discover(
            map, influence, use_inf, cl, wx0, wy0, wx1, wy1, w, h, start, goal, t,
            (tx + 1, ty + 1), disc, par, hop, g, frontier, nd, c,
        );
    }
    proof {
        let x_ = tx as int;
        let y_ = ty as int;
        if tx == 0 {
            if c@.ok((x_ - 1, y_ - 1)) {
                crate::reach::lemma_ok_in_grid(c@, (x_ - 1, y_ - 1));
            }
            if c@.ok((x_ - 1, y_)) {
                crate::reach::lemma_ok_in_grid(c@, (x_ - 1, y_));
            }
            if c@.ok((x_ - 1, y_ + 1)) {
                crate::reach::lemma_ok_in_grid(c@, (x_ - 1, y_ + 1));
            }
        }
        if tx + 1 >= w {
            if c@.ok((x_ + 1, y_ - 1)) {
                crate::reach::lemma_ok_in_grid(c@, (x_ + 1, y_ - 1));
            }
            if c@.ok((x_ + 1, y_)) {
                crate::reach::lemma_ok_in_grid(c@, (x_ + 1, y_));
            }
            if c@.ok((x_ + 1, y_ + 1)) {
                crate::reach::lemma_ok_in_grid(c@, (x_ + 1, y_ + 1));
            }
        }
        if ty == 0 {
            if c@.ok((x_ - 1, y_ - 1)) {
                crate::reach::lemma_ok_in_grid(c@, (x_ - 1, y_ - 1));
            }
            if c@.ok((x_, y_ - 1)) {
                crate::reach::lemma_ok_in_grid(c@, (x_, y_ - 1));
            }
            if c@.ok((x_ + 1, y_ - 1)) {
                crate::reach::lemma_ok_in_grid(c@, (x_ + 1, y_ - 1));
            }
        }
        if ty + 1 >= h {
            if c@.ok((x_ - 1, y_ + 1)) {
                crate::reach::lemma_ok_in_grid(c@, (x_ - 1, y_ + 1));
            }
            if c@.ok((x_, y_ + 1)) {
                crate::reach::lemma_ok_in_grid(c@, (x_, y_ + 1));
            }
            if c@.ok((x_ + 1, y_ + 1)) {
                crate::reach::lemma_ok_in_grid(c@, (x_ + 1, y_ + 1));
            }
        }
        assert(nbrs_disc(c@, disc@, w as int, h as int, x_, y_));
        assert forall|x: int, y: int|
            0 <= x < w && 0 <= y < h && #[trigger] disc@[x]@[y] && !in_frontier(frontier@, x, y)
            implies nbrs_disc(c@, disc@, w as int, h as int, x, y) by {
            if (x, y) != (x_, y_) {
                assert(Some((x, y)) != Some(ti(t)));
            }
        }
    }
}

/// Walks the recorded predecessors back from the goal, reverses the
/// result, and recomputes the accumulated edge cost along it.
#[verifier::rlimit(100)]
fn reconstruct_path(
    influence: &Vec<Vec<u32>>,
    use_inf: bool,
    w: usize,
    h: usize,
    start: (usize, usize),
    goal: (usize, usize),
    disc: &Vec<Vec<bool>>,
    par: &Vec<Vec<(usize, usize)>>,
    hop: &Vec<Vec<usize>>,
    nd: usize,
    c: Ghost<SearchCfg>,
) -> (r: (Vec<(usize, usize)>, u64))
    requires
        astar_tiles_inv(c@, ti(start), w as int, h as int, disc@, par@, hop@, nd as int),
        gdims(influence@, w as int, h as int),
        w <= MAX_DIM,
        h <= MAX_DIM,
        nd <= w * h,
        c@.clearance >= 0,
        goal.0 < w,
        goal.1 < h,
        disc@[goal.0 as int]@[goal.1 as int],
    ensures
        is_walk(c@, tile_seq(r.0@)),
        tile_seq(r.0@).first() == ti(start),
        tile_seq(r.0@).last() == ti(goal),
        r.1 as int == walk_cost(influence@, use_inf, tile_seq(r.0@)),
{
    let ghost w_ = w as int;
    let ghost h_ = h as int;
    let mut rev: Vec<(usize, usize)> = Vec::new();
    let mut cur = goal;
    rev.push(cur);
    while !(cur.0 == start.0 && cur.1 == start.1)
        invariant
            astar_tiles_inv(c@, ti(start), w_, h_, disc@, par@, hop@, nd as int),
            w_ == w as int,
            h_ == h as int,
            cur.0 < w,
            cur.1 < h,
            disc@[cur.0 as int]@[cur.1 as int],
            goal.0 < w,
            goal.1 < h,
            disc@[goal.0 as int]@[goal.1 as int],
            rev@.len() >= 1,
            rev@[0] == goal,
            rev@.last() == cur,
            forall|i: int| 0 <= i < rev@.len() ==> c@.ok(ti(#[trigger] rev@[i])),
            forall|i: int|
                0 <= i < rev@.len() - 1 ==> adj8(ti(#[trigger] rev@[i + 1]), ti(rev@[i])),
            rev@.len() + hop@[cur.0 as int]@[cur.1 as int] == hop@[goal.0 as int]@[goal.1 as int]
                + 1,
        decreases hop@[cur.0 as int]@[cur.1 as int],
    {
        proof {
            assert(ti(cur) != ti(start));
            assert(par_ok(
                disc@,
                hop@,
                par@[cur.0 as int]@[cur.1 as int],
                w_,
                h_,
                cur.0 as int,
                cur.1 as int,
            ));
        }
        let p = par[cur.0][cur.1];
        rev.push(p);
        cur = p;
    }
    let n = rev.len();
    let mut path: Vec<(usize, usize)> = Vec::new();
    let mut k: usize = 0;
    while k < n
        invariant
            n == rev@.len(),
            path@.len() == k,
            k <= n,
            forall|i: int| 0 <= i < k ==> #[trigger] path@[i] == rev@[n - 1 - i],
        decreases n - k,
    {
        path.push(rev[n - 1 - k]);
        k += 1;
    }
    let ghost pv = tile_seq(path@);
    proof {
        assert(pv.len() == n);
        assert forall|i: int| 0 <= i < pv.len() implies c@.ok(#[trigger] pv[i]) by {
            assert(path@[i] == rev@[n - 1 - i]);
            assert(c@.ok(ti(rev@[n - 1 - i])));
        }
        assert forall|i: int| 0 <= i < pv.len() - 1 implies adj8(#[trigger] pv[i], pv[i + 1]) by {
            let j = n - 2 - i;
            assert(path@[i] == rev@[j + 1]);
            assert(path@[i + 1] == rev@[j]);
            assert(adj8(ti(rev@[j + 1]), ti(rev@[j])));
        }
        assert(is_walk(c@, pv));
        assert(path@[0] == rev@[n - 1]);
        assert(rev@.last() == cur);
        assert(pv.first() == ti(start));
        assert(path@[n - 1] == rev@[0]);
        assert(pv.last() == ti(goal));
        assert(hop@[goal.0 as int]@[goal.1 as int] < nd);
        assert(path@.len() <= nd);
        assert(w_ * h_ <= 0x1000_0000) by (nonlinear_arith)
            requires
                0 <= w_ <= 16384,
                0 <= h_ <= 16384,
        ;
    }
    let mut cost: u64 = 0;
    let mut k2: usize = 1;
    while k2 < path.len()
        invariant
            1 <= k2,
            k2 <= path@.len() || k2 == 1,
            pv == tile_seq(path@),
            path@.len() <= 0x1000_0000,
            is_walk(c@, pv),
            pv.len() == path@.len(),
            grid_wf(c@.grid, w as int, h as int),
            gdims(influence@, w as int, h as int),
            c@.clearance >= 0,
            cost as int == walk_cost(influence@, use_inf, pv.take(k2 as int)),
            cost as int <= (k2 - 1) * 0x1_0000_000B,
        decreases path@.len() - k2,
    {
        let a = path[k2 - 1];
        let b = path[k2];
        proof {
            assert(pv[k2 as int] == ti(b));
            assert(c@.ok(pv[k2 as int]));
            crate::reach::lemma_ok_in_grid(c@, pv[k2 as int]);
        }
        let step: u64 = if a.0 != b.0 && a.1 != b.1 {
            DIAG_DIST
        } else {
            DIST_SCALE
        };
        let iw: u64 = if use_inf {
            influence[b.0][b.1] as u64
        } else {
            0
        };
        proof {
            let kk = k2 as int;
            assert(pv.take(kk + 1).drop_last() =~= pv.take(kk));
            assert(pv.take(kk + 1).len() == kk + 1);
            assert(pv.take(kk + 1)[kk] == pv[kk]);
            assert(pv.take(kk + 1)[kk - 1] == pv[kk - 1]);
            assert(pv[kk - 1] == ti(a));
            assert(step + iw == spec_edge_cost(influence@, use_inf, pv[kk - 1], pv[kk]));
        }
        cost = cost + step + iw;
        k2 += 1;
    }
    proof {
        assert(k2 == path@.len());
        assert(pv.take(path@.len() as int) =~= pv);
    }
    (path, cost)
}

/// A `w` x `h` grid of `u32` zeros.
fn zero_grid_u32(w: usize, h: usize) -> (r: Vec<Vec<u32>>)
    ensures
        r@.len() == w,
        forall|x: int| 0 <= x < w ==> (#[trigger] r@[x])@.len() == h,
        forall|x: int, y: int| 0 <= x < w && 0 <= y < h ==> #[trigger] r@[x]@[y] == 0,
{
    let mut r: Vec<Vec<u32>> = Vec::new();
    let mut x: usize = 0;
    while x < w
        invariant
            r@.len() == x,
            0 <= x <= w,
            forall|i: int| 0 <= i < x ==> (#[trigger] r@[i])@.len() == h,
            forall|i: int, y: int| 0 <= i < x && 0 <= y < h ==> #[trigger] r@[i]@[y] == 0,
        decreases w - x,
    {
        let mut row: Vec<u32> = Vec::new();
        let mut y: usize = 0;
        while y < h
            invariant
                row@.len() == y,
                0 <= y <= h,
                forall|j: int| 0 <= j < y ==> #[trigger] row@[j] == 0,
            decreases h - y,
        {
            row.push(0);
            y += 1;
        }
        r.push(row);
        x += 1;
    }
    r
}

/// Saturating add on influence weights.
pub open spec fn sat_add32(a: u32, b: u32) -> u32 {
    if a + b > u32::MAX {
        u32::MAX
    } else {
        (a + b) as u32
    }
}

/// Saturating add applied `k` times.
pub open spec fn sat_n(v: u32, a: u32, k: int) -> u32
    decreases k,
{
    if k <= 0 {
        v
    } else {
        sat_add32(sat_n(v, a, k - 1), a)
    }
}

/// How many of the positions cover the tile `(x, y)` within `radius`
/// tiles.
pub open spec fn covered_count(ps: Seq<(usize, usize)>, radius: u64, x: int, y: int) -> int
    decreases ps.len(),
{
    if ps.len() == 0 {
        0int
    } else {
        covered_count(ps.drop_last(), radius, x, y) + (if spec_sq_dist(ti(ps.last()), (x, y))
            <= radius * radius {
            1int
        } else {
            0int
        })
    }
}

/// The covered count is never negative.
proof fn lemma_covered_count_nonneg(ps: Seq<(usize, usize)>, radius: u64, x: int, y: int)
    ensures
        covered_count(ps, radius, x, y) >= 0,
    decreases ps.len(),
{
    if ps.len() > 0 {
        lemma_covered_count_nonneg(ps.drop_last(), radius, x, y);
    }
}

impl PathFind {
    /// Adds `amount` influence (saturating) to every tile within `radius`
    /// tiles of the position.
    pub fn add_influence_circle(&mut self, pos: (usize, usize), amount: u32, radius: u64)
        requires
            old(self).wf(),
            pos.0 <= MAX_DIM,
            pos.1 <= MAX_DIM,
        ensures
            final(self).wf(),
            final(self).map@ == old(self).map@,
            final(self).influence@.len() == old(self).influence@.len(),
            forall|x: int|
                0 <= x < old(self).influence@.len() ==> (#[trigger] final(self).influence@[x])@.len()
                    == old(self).influence@[x]@.len(),
            forall|x: int, y: int|
                0 <= x < old(self).influence@.len() && 0 <= y < old(self).influence@[x]@.len()
                    ==> #[trigger] final(self).influence@[x]@[y] == (if spec_sq_dist(
                    ti(pos),
                    (x, y),
                ) <= radius * radius {
                    sat_add32(old(self).influence@[x]@[y], amount)
                } else {
                    old(self).influence@[x]@[y]
                }),
    {
        let w = self.map.len();
        let h = if w == 0 {
            0
        } else {
            self.map[0].len()
        };
        let ghost inf0 = self.influence@;
        let mut x: usize = 0;
        while x < w
            invariant
                self.wf(),
                self.map@ == old(self).map@,
                w == self.map@.len(),
                h as int == self.spec_height(),
                pos.0 <= MAX_DIM,
                pos.1 <= MAX_DIM,
                0 <= x <= w,
                self.influence@.len() == inf0.len(),
                inf0.len() == w,
                forall|a: int| 0 <= a < w ==> (#[trigger] inf0[a])@.len() == h,
                forall|a: int, b: int|
                    0 <= a < x && 0 <= b < h ==> #[trigger] self.influence@[a]@[b] == (
                    if spec_sq_dist(ti(pos), (a, b)) <= radius * radius {
                        sat_add32(inf0[a]@[b], amount)
                    } else {
                        inf0[a]@[b]
                    }),
                forall|a: int, b: int|
                    x <= a < w && 0 <= b < h ==> #[trigger] self.influence@[a]@[b] == inf0[a]@[b],
            decreases w - x,
        {
            let mut y: usize = 0;
            while y < h
                invariant
                    self.wf(),
                    self.map@ == old(self).map@,
                    w == self.map@.len(),
                    h as int == self.spec_height(),
                    pos.0 <= MAX_DIM,
                    pos.1 <= MAX_DIM,
                    0 <= x < w,
                    0 <= y <= h,
                    self.influence@.len() == inf0.len(),
                    inf0.len() == w,
                    forall|a: int| 0 <= a < w ==> (#[trigger] inf0[a])@.len() == h,
                    forall|a: int, b: int|
                        0 <= a < x && 0 <= b < h ==> #[trigger] self.influence@[a]@[b] == (
                        if spec_sq_dist(ti(pos), (a, b)) <= radius * radius {
                            sat_add32(inf0[a]@[b], amount)
                        } else {
                            inf0[a]@[b]
                        }),
                    forall|b: int|
                        0 <= b < y ==> #[trigger] self.influence@[x as int]@[b] == (
                        if spec_sq_dist(ti(pos), (x as int, b)) <= radius * radius {
                            sat_add32(inf0[x as int]@[b], amount)
                        } else {
                            inf0[x as int]@[b]
                        }),
                    forall|b: int|
                        y <= b < h ==> #[trigger] self.influence@[x as int]@[b] == inf0[x as int]@[b],
                    forall|a: int, b: int|
                        x < a < w && 0 <= b < h ==> #[trigger] self.influence@[a]@[b] == inf0[a]@[b],
                decreases h - y,
            {
                if crate::vision::in_circle(pos, radius, x, y) {
                    let cur = self.influence[x][y];
                    self.influence[x][y] = cur.saturating_add(amount);
                }
                y += 1;
            }
            x += 1;
        }
    }

    /// Adds `amount` influence around each given position: every tile
    /// ends at its old weight saturating-increased once per position
    /// whose circle covers it. Callers bias paths away from threats with
    /// it.
    pub fn add_influence(&mut self, positions: &Vec<(usize, usize)>, amount: u32, radius: u64)
        requires
            old(self).wf(),
            forall|k: int|
                0 <= k < positions@.len() ==> (#[trigger] positions@[k]).0 <= MAX_DIM
                    && positions@[k].1 <= MAX_DIM,
        ensures
            final(self).wf(),
            final(self).map@ == old(self).map@,
            final(self).influence@.len() == old(self).influence@.len(),
            forall|x: int, y: int|
                0 <= x < old(self).influence@.len() && 0 <= y < old(self).influence@[x]@.len()
                    ==> #[trigger] final(self).influence@[x]@[y] == sat_n(
                    old(self).influence@[x]@[y],
                    amount,
                    covered_count(positions@, radius, x, y),
                ),
    {
        let ghost inf0 = self.influence@;
        let ghost w_ = self.influence@.len() as int;
        let mut k: usize = 0;
        while k < positions.len()
            invariant
                self.wf(),
                self.map@ == old(self).map@,
                self.influence@.len() == inf0.len(),
                forall|i: int|
                    0 <= i < positions@.len() ==> (#[trigger] positions@[i]).0 <= MAX_DIM
                        && positions@[i].1 <= MAX_DIM,
                0 <= k <= positions@.len(),
                forall|x: int, y: int|
                    0 <= x < inf0.len() && 0 <= y < inf0[x]@.len()
                        ==> #[trigger] self.influence@[x]@[y] == sat_n(
                        inf0[x]@[y],
                        amount,
                        covered_count(positions@.take(k as int), radius, x, y),
                    ),
                forall|x: int| 0 <= x < inf0.len() ==> (#[trigger] self.influence@[x])@.len() == inf0[x]@.len(),
            decreases positions@.len() - k,
        {
            let p = positions[k];
            let ghost pre = self.influence@;
            self.add_influence_circle(p, amount, radius);
            proof {
                let ps1 = positions@.take(k as int);
                let ps2 = positions@.take(k + 1);
                assert(ps2.drop_last() =~= ps1);
                assert(ps2.last() == positions@[k as int]);
                assert forall|x: int, y: int|
                    0 <= x < inf0.len() && 0 <= y < inf0[x]@.len()
                        implies #[trigger] self.influence@[x]@[y] == sat_n(
                    inf0[x]@[y],
                    amount,
                    covered_count(ps2, radius, x, y),
                ) by {
                    lemma_covered_count_nonneg(ps1, radius, x, y);
                    assert(pre[x]@[y] == sat_n(
                        inf0[x]@[y],
                        amount,
                        covered_count(ps1, radius, x, y),
                    ));
                    assert(pre[x]@.len() == inf0[x]@.len());
                }
            }
            k += 1;
        }
        proof {
            assert(positions@.take(positions@.len() as int) =~= positions@);
        }
    }

    /// Plain path search: no clearance, no influence, unwindowed and
    /// unlimited. Returns the waypoints and the accumulated scaled cost,
    /// or an empty path with cost 0 exactly when no route exists.
    pub fn find_path_basic(&self, start: (usize, usize), goal: (usize, usize), heuristic: Heuristic)
        -> (r: (Vec<(usize, usize)>, u64))
        requires
            self.wf(),
        ensures
            r.0@.len() > 0 <==> connected(self.search_cfg(0, None), ti(start), ti(goal)),
            r.0@.len() > 0 ==> is_walk(self.search_cfg(0, None), tile_seq(r.0@)) && tile_seq(
                r.0@,
            ).first() == ti(start) && tile_seq(r.0@).last() == ti(goal) && r.1 as int == walk_cost(
                self.influence@,
                false,
                tile_seq(r.0@),
            ),
            r.0@.len() == 0 ==> r.1 == 0,
    {
        match self.find_path(start, goal, 0, false, heuristic, None, None) {
            Some(pc) => pc,
            None => (Vec::new(), 0),
        }
    }
}

/// Law: any walk allowed under a larger clearance radius stays allowed
/// when the clearance requirement is relaxed, window and grid unchanged —
/// so removing the clearance constraint never removes a route.
pub proof fn lemma_clearance_relax(c1: SearchCfg, c2: SearchCfg, p: Seq<(int, int)>)
    requires
        is_walk(c1, p),
        c2.grid == c1.grid,
        c2.x0 == c1.x0,
        c2.y0 == c1.y0,
        c2.x1 == c1.x1,
        c2.y1 == c1.y1,
        0 <= c2.clearance <= c1.clearance,
    ensures
        is_walk(c2, p),
{
    reveal(SearchCfg::footprint_ok);
    assert forall|i: int| 0 <= i < p.len() implies c2.ok(#[trigger] p[i]) by {
        assert(c1.ok(p[i]));
    }
}

/// Law: relaxing the clearance radius preserves reachability.
pub proof fn lemma_clearance_connected(c1: SearchCfg, c2: SearchCfg, a: (int, int), b: (int, int))
    requires
        connected(c1, a, b),
        c2.grid == c1.grid,
        c2.x0 == c1.x0,
        c2.y0 == c1.y0,
        c2.x1 == c1.x1,
        c2.y1 == c1.y1,
        0 <= c2.clearance <= c1.clearance,
    ensures
        connected(c2, a, b),
{
    reveal(crate::reach::connected);
    let p = choose|p: Seq<(int, int)>| #[trigger] is_walk(c1, p) && p.first() == a && p.last() == b;
    lemma_clearance_relax(c1, c2, p);
}

/// Law: the influence-aware cost of a walk never lies below its plain
/// cost — influence weights only ever add to traversal cost.
pub proof fn lemma_influence_cost_monotone(inf: Seq<Vec<u32>>, p: Seq<(int, int)>)
    ensures
        walk_cost(inf, true, p) >= walk_cost(inf, false, p),
    decreases p.len(),
{
    if p.len() > 1 {
        lemma_influence_cost_monotone(inf, p.drop_last());
    }
}

} // verus!
