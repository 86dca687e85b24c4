//! Tactical position evaluation: scans the walkable surface at a coarse
//! stride for defensible tiles — a fully walkable, height-uniform
//! footprint — and scores them by high ground, neighbour occlusion,
//! chokes in attack range, and raw height. Results come back sorted by
//! descending score, every one above the score floor.

use vstd::prelude::*;

verus! {

use crate::chokes::{in_range_scaled, spec_center, within_scaled, Choke};
use crate::grid::{grid_wf, walk_at, MapPoint, MAX_DIM};
use crate::path::{gdims, PathFind};

/// Candidates scoring at or below this are discarded.
pub const TACTICAL_SCORE_MIN: u64 = 30;

/// Grid stride of the candidate scan, in tiles.
pub const TACTICAL_STRIDE: usize = 2;

/// Neighbourhood radius (in tiles) sampled by the high-ground test.
pub const HIGH_GROUND_RADIUS: usize = 5;

/// A scored candidate position for a siege unit.
#[derive(Debug, Clone, Copy, PartialEq, Eq)]
pub struct TacticalPosition {
    /// Tile the unit would stand on.
    pub position: (usize, usize),
    /// Composite score; higher is better.
    pub score: u64,
    /// The position overlooks mostly lower terrain.
    pub on_high_ground: bool,
    /// Walkable tiles in the immediate 8-neighbourhood (fewer is better
    /// for defense).
    pub walkable_neighbors: usize,
    /// Chokes whose midpoint lies within attack range.
    pub chokes_in_range: usize,
    /// Terrain height of the tile.
    pub height: u8,
}

/// One when the condition holds, zero otherwise.
pub open spec fn b2i(b: bool) -> int {
    if b {
        1int
    } else {
        0int
    }
}

/// The composite score: 50 for high ground, 5 per missing walkable
/// neighbour (of 8), 15 per choke in range, 2 per height level.
pub open spec fn spec_score(hg: bool, wn: int, cr: int, height: int) -> int {
    (if hg {
        50int
    } else {
        0int
    }) + 5 * (8 - (if wn <= 8 {
        wn
    } else {
        8int
    })) + 15 * cr + 2 * height
}

impl TacticalPosition {
    /// Builds a candidate and computes its composite score from the
    /// tactical features.
    pub fn new(
        position: (usize, usize),
        on_high_ground: bool,
        walkable_neighbors: usize,
        chokes_in_range: usize,
        height: u8,
    ) -> (r: TacticalPosition)
        requires
            15 * chokes_in_range <= u64::MAX - 600,
        ensures
            r.position == position,
            r.on_high_ground == on_high_ground,
            r.walkable_neighbors == walkable_neighbors,
            r.chokes_in_range == chokes_in_range,
            r.height == height,
            r.score as int == spec_score(
                on_high_ground,
                walkable_neighbors as int,
                chokes_in_range as int,
                height as int,
            ),
    {
        let mut score: u64 = 0;
        if on_high_ground {
            score += 50;
        }
        let wn = if walkable_neighbors <= 8 {
            walkable_neighbors
        } else {
            8
        };
        score += 5 * ((8 - wn) as u64);
        score += 15 * (chokes_in_range as u64);
        score += 2 * (height as u64);
        TacticalPosition { position, score, on_high_ground, walkable_neighbors, chokes_in_range, height }
    }
}

/// Number of walkable tiles among the eight neighbours of `(x, y)`.
pub open spec fn spec_walkable_neighbors(g: Seq<Vec<u8>>, x: int, y: int) -> int {
    b2i(walk_at(g, x - 1, y - 1)) + b2i(walk_at(g, x - 1, y)) + b2i(walk_at(g, x - 1, y + 1))
        + b2i(walk_at(g, x, y - 1)) + b2i(walk_at(g, x, y + 1)) + b2i(walk_at(g, x + 1, y - 1))
        + b2i(walk_at(g, x + 1, y)) + b2i(walk_at(g, x + 1, y + 1))
}

/// Counts walkable tiles in the immediate 8-neighbourhood; out-of-grid
/// neighbours are simply absent from the count.
pub fn count_walkable_neighbors(ground_pathing: &PathFind, x: usize, y: usize) -> (r: usize)
    requires
        ground_pathing.wf(),
        x < ground_pathing.map@.len(),
        ground_pathing.map@.len() > 0 && y < ground_pathing.map@[0]@.len(),
    ensures
        r as int == spec_walkable_neighbors(ground_pathing.map@, x as int, y as int),
        r <= 8,
{
    let mut c: usize = 0;
    let m = &ground_pathing.map;
    let w = m.len();
    if x >= 1 && x - 1 < w {
        if y >= 1 && y - 1 < m[x - 1].len() && m[x - 1][y - 1] > 0 {
            c += 1;
        }
        if y < m[x - 1].len() && m[x - 1][y] > 0 {
            c += 1;
        }
        if y + 1 < m[x - 1].len() && m[x - 1][y + 1] > 0 {
            c += 1;
        }
    }
    if x < w {
        if y >= 1 && y - 1 < m[x].len() && m[x][y - 1] > 0 {
            c += 1;
        }
        if y + 1 < m[x].len() && m[x][y + 1] > 0 {
            c += 1;
        }
    }
    if x + 1 < w {
        if y >= 1 && y - 1 < m[x + 1].len() && m[x + 1][y - 1] > 0 {
            c += 1;
        }
        if y < m[x + 1].len() && m[x + 1][y] > 0 {
            c += 1;
        }
        if y + 1 < m[x + 1].len() && m[x + 1][y + 1] > 0 {
            c += 1;
        }
    }
    c
}

/// The tile `(i, j)` is walkable and lies at the same height as the
/// candidate tile `(x, y)`.
pub open spec fn spec_tile_fits(
    g: Seq<Vec<u8>>,
    points: Seq<Vec<MapPoint>>,
    x: int,
    y: int,
    i: int,
    j: int,
) -> bool {
    walk_at(g, i, j) && points[i]@[j].height == points[x]@[y].height
}

/// The footprint of the given radius around `(x, y)` is fully walkable
/// and uniform in height (no ledges or edges under the unit).
pub open spec fn spec_suitable(
    g: Seq<Vec<u8>>,
    points: Seq<Vec<MapPoint>>,
    x: int,
    y: int,
    r: int,
) -> bool {
    forall|i: int, j: int|
        x - r <= i <= x + r && y - r <= j <= y + r ==> #[trigger] spec_tile_fits(
            g,
            points,
            x,
            y,
            i,
            j,
        )
}

/// Checks that a unit of the given footprint radius can stand at
/// `(x, y)`: every footprint tile walkable and of the same height.
#[verifier::rlimit(100)]
pub fn is_position_suitable(
    points: &Vec<Vec<MapPoint>>,
    ground_pathing: &PathFind,
    x: usize,
    y: usize,
    unit_radius: usize,
) -> (r: bool)
    requires
        ground_pathing.wf(),
        gdims(
            points@,
            ground_pathing.map@.len() as int,
            if ground_pathing.map@.len() == 0 {
                0int
            } else {
                ground_pathing.map@[0]@.len() as int
            },
        ),
        unit_radius <= crate::path::MAX_CLEARANCE,
        x < ground_pathing.map@.len(),
        ground_pathing.map@.len() > 0 && y < ground_pathing.map@[0]@.len(),
    ensures
        r == spec_suitable(
            ground_pathing.map@,
            points@,
            x as int,
            y as int,
            unit_radius as int,
        ),
{
    let g = &ground_pathing.map;
    let w = g.len();
    let h = g[0].len();
    let cl = unit_radius;
    let ch = points[x][y].height;
    if x < cl || y < cl || x + cl >= w || y + cl >= h {
        proof {
            if x < cl {
                assert(!spec_tile_fits(g@, points@, x as int, y as int, x - cl, y as int));
            } else if y < cl {
                assert(!spec_tile_fits(g@, points@, x as int, y as int, x as int, y - cl));
            } else if x + cl >= w {
                assert(!spec_tile_fits(g@, points@, x as int, y as int, x + cl, y as int));
            } else {
                assert(!spec_tile_fits(g@, points@, x as int, y as int, x as int, y + cl));
            }
        }
        return false;
    }
    let mut i = x - cl;
    while i <= x + cl
        invariant
            grid_wf(g@, w as int, h as int),
            w == g@.len(),
            g@ == ground_pathing.map@,
            cl == unit_radius,
            gdims(points@, w as int, h as int),
            cl <= x < w,
            cl <= y < h,
            x + cl < w,
            y + cl < h,
            ch == points@[x as int]@[y as int].height,
            x - cl <= i,
            i <= x + cl + 1,
            forall|a: int, b: int|
                x - cl <= a < i && y - cl <= b <= y + cl ==> #[trigger] spec_tile_fits(
                    g@,
                    points@,
                    x as int,
                    y as int,
                    a,
                    b,
                ),
        decreases x + cl + 1 - i,
    {
        let mut j = y - cl;
        while j <= y + cl
            invariant
                grid_wf(g@, w as int, h as int),
                w == g@.len(),
                g@ == ground_pathing.map@,
                cl == unit_radius,
                gdims(points@, w as int, h as int),
                cl <= x < w,
                cl <= y < h,
                x + cl < w,
                y + cl < h,
                ch == points@[x as int]@[y as int].height,
                x - cl <= i <= x + cl,
                y - cl <= j,
                j <= y + cl + 1,
                forall|b: int|
                    y - cl <= b < j ==> #[trigger] spec_tile_fits(
                        g@,
                        points@,
                        x as int,
                        y as int,
                        i as int,
                        b,
                    ),
            decreases y + cl + 1 - j,
        {
            if g[i][j] == 0 {
                proof {
                    assert(!walk_at(g@, i as int, j as int));
                    assert(!spec_tile_fits(g@, points@, x as int, y as int, i as int, j as int));
                }
                return false;
            }
            if points[i][j].height != ch {
                proof {
                    assert(!spec_tile_fits(g@, points@, x as int, y as int, i as int, j as int));
                }
                return false;
            }
            let ghost jold = j as int;
            j += 1;
            proof {
                assert(walk_at(g@, i as int, jold));
                assert(spec_tile_fits(g@, points@, x as int, y as int, i as int, jold));
                assert forall|b: int|
                    y - cl <= b < j implies #[trigger] spec_tile_fits(
                    g@,
                    points@,
                    x as int,
                    y as int,
                    i as int,
                    b,
                ) by {
                    if b == jold {
                        assert(spec_tile_fits(g@, points@, x as int, y as int, i as int, jold));
                    }
                }
            }
        }
        let ghost iold = i as int;
        i += 1;
        proof {
            assert forall|a: int, b: int|
                x - cl <= a < i && y - cl <= b <= y + cl implies #[trigger] spec_tile_fits(
                g@,
                points@,
                x as int,
                y as int,
                a,
                b,
            ) by {
                if a == iold {
                    assert(spec_tile_fits(g@, points@, x as int, y as int, iold, b));
                }
            }
        }
    }
    true
}

/// Counted samples of one row of the high-ground neighbourhood: tiles
/// `(a, b0) .. (a, b0 + n - 1)` that lie in the window — the candidate
/// tile `(cx, cy)` itself excepted — and how many of them are strictly
/// lower than `ch`.
pub open spec fn spec_hg_row(
    points: Seq<Vec<MapPoint>>,
    ch: int,
    a: int,
    b0: int,
    n: nat,
    ys: int,
    ye: int,
    cx: int,
    cy: int,
) -> (int, int)
    decreases n,
{
    if n == 0 {
        (0int, 0int)
    } else {
        let prev = spec_hg_row(points, ch, a, b0, (n - 1) as nat, ys, ye, cx, cy);
        let b = b0 + n - 1;
        if ys <= b < ye && !(a == cx && b == cy) {
            (prev.0 + 1, prev.1 + b2i(points[a]@[b].height < ch))
        } else {
            prev
        }
    }
}

/// Counted samples of the high-ground neighbourhood: in-window neighbour
/// tiles of the rows `x0 .. x0 + m - 1` (the candidate tile `(cx, cy)`
/// excepted), and how many are strictly lower than `ch`.
pub open spec fn spec_hg_box(
    points: Seq<Vec<MapPoint>>,
    ch: int,
    x0: int,
    b0: int,
    m: nat,
    n: nat,
    xs: int,
    xe: int,
    ys: int,
    ye: int,
    cx: int,
    cy: int,
) -> (int, int)
    decreases m,
{
    if m == 0 {
        (0int, 0int)
    } else {
        let prev = spec_hg_box(points, ch, x0, b0, (m - 1) as nat, n, xs, xe, ys, ye, cx, cy);
        let a = x0 + m - 1;
        if xs <= a < xe {
            let row = spec_hg_row(points, ch, a, b0, n, ys, ye, cx, cy);
            (prev.0 + row.0, prev.1 + row.1)
        } else {
            prev
        }
    }
}

/// The position counts as high ground: more than 40% of the in-window
/// neighbour tiles within [`HIGH_GROUND_RADIUS`] (the tile itself not
/// counted) are strictly lower than it.
pub open spec fn spec_on_high_ground(
    points: Seq<Vec<MapPoint>>,
    x: int,
    y: int,
    xs: int,
    ys: int,
    xe: int,
    ye: int,
) -> bool {
    let ch = points[x]@[y].height as int;
    let counts = spec_hg_box(points, ch, x - 5, y - 5, 11, 11, xs, xe, ys, ye, x, y);
    counts.0 > 0 && 5 * counts.1 > 2 * counts.0
}

/// Determines whether a position overlooks its surroundings: samples the
/// neighbourhood of radius [`HIGH_GROUND_RADIUS`] inside the window and
/// requires that more than 40% of the sampled tiles be strictly lower.
pub fn is_on_high_ground(
    points: &Vec<Vec<MapPoint>>,
    x: usize,
    y: usize,
    x_start: usize,
    y_start: usize,
    x_end: usize,
    y_end: usize,
) -> (r: bool)
    requires
        gdims(points@, points@.len() as int, if points@.len() == 0 { 0int } else { points@[0]@.len() as int }),
        x_end <= points@.len(),
        points@.len() > 0 ==> y_end <= points@[0]@.len(),
        x < points@.len(),
        points@.len() > 0 && y < points@[0]@.len(),
        x <= MAX_DIM,
        y <= MAX_DIM,
        x_start <= x_end,
        y_start <= y_end,
        x_end <= MAX_DIM,
        y_end <= MAX_DIM,
    ensures
        r == spec_on_high_ground(
            points@,
            x as int,
            y as int,
            x_start as int,
            y_start as int,
            x_end as int,
            y_end as int,
        ),
{
    let ch = points[x][y].height;
    let ghost x0 = x - 5;
    let ghost b0 = y - 5;
    let mut total: usize = 0;
    let mut lower: usize = 0;
    let mut dx: usize = 0;
    while dx < 11
        invariant
            gdims(
                points@,
                points@.len() as int,
                if points@.len() == 0 {
                    0int
                } else {
                    points@[0]@.len() as int
                },
            ),
            x_end <= points@.len(),
            points@.len() > 0 ==> y_end <= points@[0]@.len(),
            x < points@.len(),
            points@.len() > 0 && y < points@[0]@.len(),
            x <= MAX_DIM,
            y <= MAX_DIM,
            x_start <= x_end,
            y_start <= y_end,
            x_end <= MAX_DIM,
            y_end <= MAX_DIM,
            ch == points@[x as int]@[y as int].height,
            x0 == x - 5,
            b0 == y - 5,
            0 <= dx <= 11,
            total <= 11 * dx,
            lower <= total,
            (total as int, lower as int) == spec_hg_box(
                points@,
                ch as int,
                x0,
                b0,
                dx as nat,
                11,
                x_start as int,
                x_end as int,
                y_start as int,
                y_end as int,
                x as int,
                y as int,
            ),
        decreases 11 - dx,
    {
        let ghost a = x0 + dx;
        let cx: i64 = x as i64 - 5 + dx as i64;
        let mut rt: usize = 0;
        let mut rl: usize = 0;
        if x_start as i64 <= cx && cx < x_end as i64 {
            let ax = cx as usize;
            let mut dy: usize = 0;
            while dy < 11
                invariant
                    gdims(
                        points@,
                        points@.len() as int,
                        if points@.len() == 0 {
                            0int
                        } else {
                            points@[0]@.len() as int
                        },
                    ),
                    x_end <= points@.len(),
                    points@.len() > 0 ==> y_end <= points@[0]@.len(),
                    x < points@.len(),
                    points@.len() > 0 && y < points@[0]@.len(),
                    y <= MAX_DIM,
                    y_start <= y_end,
                    y_end <= MAX_DIM,
                    ch == points@[x as int]@[y as int].height,
                    b0 == y - 5,
                    ax as int == a,
                    x_start <= ax < x_end,
                    0 <= dy <= 11,
                    rt <= dy,
                    rl <= rt,
                    (rt as int, rl as int) == spec_hg_row(
                        points@,
                        ch as int,
                        a,
                        b0,
                        dy as nat,
                        y_start as int,
                        y_end as int,
                        x as int,
                        y as int,
                    ),
                decreases 11 - dy,
            {
                let cy: i64 = y as i64 - 5 + dy as i64;
                if y_start as i64 <= cy && cy < y_end as i64 {
                    let by = cy as usize;
                    if !(ax == x && by == y) {
                        rt += 1;
                        if points[ax][by].height < ch {
                            rl += 1;
                        }
                    }
                }
                dy += 1;
            }
        }
        total += rt;
        lower += rl;
        dx += 1;
    }
    total > 0 && 5 * lower > 2 * total
}

/// Number of chokes whose crossing-segment midpoint lies within `range`
/// scaled units of `(x, y)`.
pub open spec fn spec_chokes_in_range(chs: Seq<Choke>, p: (int, int), r: int) -> int
    decreases chs.len(),
{
    if chs.len() == 0 {
        0int
    } else {
        spec_chokes_in_range(chs.drop_last(), p, r) + b2i(
            in_range_scaled(p, spec_center(chs.last()), r),
        )
    }
}

/// Counts the chokes whose midpoints lie within attack range of the
/// position.
pub fn count_chokes_in_range(chokes: &Vec<Choke>, x: usize, y: usize, range: u64) -> (r: usize)
    requires
        x <= MAX_DIM,
        y <= MAX_DIM,
        forall|k: int|
            0 <= k < chokes@.len() ==> (#[trigger] chokes@[k]).a.0 <= MAX_DIM && chokes@[k].a.1
                <= MAX_DIM && chokes@[k].b.0 <= MAX_DIM && chokes@[k].b.1 <= MAX_DIM,
    ensures
        r as int == spec_chokes_in_range(chokes@, (x as int, y as int), range as int),
        r <= chokes@.len(),
{
    let mut c: usize = 0;
    let mut k: usize = 0;
    while k < chokes.len()
        invariant
            x <= MAX_DIM,
            y <= MAX_DIM,
            forall|i: int|
                0 <= i < chokes@.len() ==> (#[trigger] chokes@[i]).a.0 <= MAX_DIM
                    && chokes@[i].a.1 <= MAX_DIM && chokes@[i].b.0 <= MAX_DIM && chokes@[i].b.1
                    <= MAX_DIM,
            0 <= k <= chokes@.len(),
            c <= k,
            c as int == spec_chokes_in_range(
                chokes@.take(k as int),
                (x as int, y as int),
                range as int,
            ),
        decreases chokes@.len() - k,
    {
        let ch = chokes[k];
        let mid = ch.center();
        proof {
            let pre = chokes@.take(k as int);
            let cur = chokes@.take(k + 1);
            assert(cur.drop_last() =~= pre);
            assert(cur.last() == chokes@[k as int]);
            assert((mid.0 as int, mid.1 as int) == spec_center(chokes@[k as int]));
        }
        if within_scaled((x, y), mid, range) {
            c += 1;
        }
        k += 1;
    }
    proof {
        assert(chokes@.take(chokes@.len() as int) =~= chokes@);
    }
    c
}

/// Every entry of the candidate list is a sound tactical position for
/// these inputs: it sits on a suitable tile of the scan window and all of
/// its recorded features and its score are the real ones.
pub open spec fn tactical_sound(
    g: Seq<Vec<u8>>,
    points: Seq<Vec<MapPoint>>,
    chs: Seq<Choke>,
    xs: int,
    ys: int,
    xe: int,
    ye: int,
    radius: int,
    range: int,
    t: TacticalPosition,
) -> bool {
    &&& xs <= t.position.0 < xe
    &&& ys <= t.position.1 < ye
    &&& walk_at(g, t.position.0 as int, t.position.1 as int)
    &&& spec_suitable(g, points, t.position.0 as int, t.position.1 as int, radius)
    &&& t.on_high_ground == spec_on_high_ground(
        points,
        t.position.0 as int,
        t.position.1 as int,
        xs,
        ys,
        xe,
        ye,
    )
    &&& t.walkable_neighbors as int == spec_walkable_neighbors(
        g,
        t.position.0 as int,
        t.position.1 as int,
    )
    &&& t.chokes_in_range as int == spec_chokes_in_range(
        chs,
        (t.position.0 as int, t.position.1 as int),
        range,
    )
    &&& t.height == points[t.position.0 as int]@[t.position.1 as int].height
    &&& t.score as int == spec_score(
        t.on_high_ground,
        t.walkable_neighbors as int,
        t.chokes_in_range as int,
        t.height as int,
    )
    &&& t.score > TACTICAL_SCORE_MIN
}

/// The tile is a qualifying candidate of the scan: it lies on the
/// 2-tile stride lattice of the window, is walkable, carries a suitable
/// footprint, and its composite score clears the floor.
pub open spec fn tactical_qualifies(
    g: Seq<Vec<u8>>,
    points: Seq<Vec<MapPoint>>,
    chs: Seq<Choke>,
    xs: int,
    ys: int,
    xe: int,
    ye: int,
    radius: int,
    range: int,
    x: int,
    y: int,
) -> bool {
    &&& xs <= x < xe
    &&& ys <= y < ye
    &&& (x - xs) % 2 == 0
    &&& (y - ys) % 2 == 0
    &&& walk_at(g, x, y)
    &&& spec_suitable(g, points, x, y, radius)
    &&& spec_score(
        spec_on_high_ground(points, x, y, xs, ys, xe, ye),
        spec_walkable_neighbors(g, x, y),
        spec_chokes_in_range(chs, (x, y), range),
        points[x]@[y].height as int,
    ) > TACTICAL_SCORE_MIN
}

/// Sorts candidates by descending score (selection sort; the result is
/// non-increasing, holds every element the input held, and every element
/// still satisfies the soundness predicate it satisfied before).
fn sort_by_score_desc(
    v: &mut Vec<TacticalPosition>,
    g: Ghost<Seq<Vec<u8>>>,
    points: Ghost<Seq<Vec<MapPoint>>>,
    chs: Ghost<Seq<Choke>>,
    xs: Ghost<int>,
    ys: Ghost<int>,
    xe: Ghost<int>,
    ye: Ghost<int>,
    radius: Ghost<int>,
    range: Ghost<int>,
)
    requires
        forall|k: int|
            0 <= k < old(v)@.len() ==> tactical_sound(
                g@,
                points@,
                chs@,
                xs@,
                ys@,
                xe@,
                ye@,
                radius@,
                range@,
                #[trigger] old(v)@[k],
            ),
    ensures
        final(v)@.len() == old(v)@.len(),
        forall|k: int|
            0 <= k < final(v)@.len() ==> tactical_sound(
                g@,
                points@,
                chs@,
                xs@,
                ys@,
                xe@,
                ye@,
                radius@,
                range@,
                #[trigger] final(v)@[k],
            ),
        forall|a: int, b: int|
            0 <= a <= b < final(v)@.len() ==> (#[trigger] final(v)@[a]).score
                >= (#[trigger] final(v)@[b]).score,
        forall|k: int| 0 <= k < old(v)@.len() ==> final(v)@.contains(#[trigger] old(v)@[k]),
{
    let n = v.len();
    proof {
        assert forall|k: int| 0 <= k < n implies v@.contains(#[trigger] old(v)@[k]) by {
            assert(v@[k] == old(v)@[k]);
        }
    }
    let mut i: usize = 0;
    while i < n
        invariant
            n == v@.len(),
            0 <= i <= n,
            forall|k: int|
                0 <= k < v@.len() ==> tactical_sound(
                    g@,
                    points@,
                    chs@,
                    xs@,
                    ys@,
                    xe@,
                    ye@,
                    radius@,
                    range@,
                    #[trigger] v@[k],
                ),
            forall|a: int, b: int|
                0 <= a <= b < i ==> (#[trigger] v@[a]).score >= (#[trigger] v@[b]).score,
            forall|a: int, b: int|
                0 <= a < i && i <= b < n ==> (#[trigger] v@[a]).score >= (#[trigger] v@[b]).score,
            forall|k: int| 0 <= k < n ==> v@.contains(#[trigger] old(v)@[k]),
        decreases n - i,
    {
        let mut m: usize = i;
        let mut k: usize = i + 1;
        while k < n
            invariant
                n == v@.len(),
                0 <= i <= m < n,
                i < k <= n,
                i <= m < k || m == i,
                forall|j: int| i <= j < k ==> (#[trigger] v@[j]).score <= v@[m as int].score,
            decreases n - k,
        {
            if v[k].score > v[m].score {
                m = k;
            }
            k += 1;
        }
        let ghost v0 = v@;
        let a = v[i];
        let b = v[m];
        v[i] = b;
        v[m] = a;
        proof {
            assert(v@[i as int] == b);
            assert forall|j: int| i <= j < n implies (#[trigger] v@[j]).score
                <= v@[i as int].score by {
                if j != i as int && j != m as int {
                    assert(v@[j] == v0[j]);
                }
            }
            assert forall|k: int| 0 <= k < n implies v@.contains(#[trigger] old(v)@[k]) by {
                assert(v0.contains(old(v)@[k]));
                let j0 = choose|j: int| 0 <= j < v0.len() && v0[j] == old(v)@[k];
                if j0 == i as int {
                    assert(v@[m as int] == v0[i as int]);
                } else if j0 == m as int {
                    assert(v@[i as int] == v0[m as int]);
                } else {
                    assert(v@[j0] == v0[j0]);
                }
            }
        }
        i += 1;
    }
}

/// Some entry of the candidate list sits on the tile `(x, y)`.
pub open spec fn listed_at(s: Seq<TacticalPosition>, x: int, y: int) -> bool {
    exists|k: int| 0 <= k < s.len() && (#[trigger] s[k]).position.0 == x && s[k].position.1 == y
}

/// Scans the walkable surface of the window at a stride of
/// [`TACTICAL_STRIDE`] tiles and returns the scored candidates, best
/// first. Every returned position sits on a walkable tile with a fully
/// walkable, height-uniform footprint, carries its true feature values
/// and score, and scores above [`TACTICAL_SCORE_MIN`]; conversely every
/// qualifying tile of the stride lattice appears in the result.
#[verifier::rlimit(100)]
pub fn calculate_tactical_positions(
    points: &Vec<Vec<MapPoint>>,
    ground_pathing: &PathFind,
    chokes: &Vec<Choke>,
    x_start: usize,
    y_start: usize,
    x_end: usize,
    y_end: usize,
    unit_radius: usize,
    siege_range: u64,
) -> (r: Vec<TacticalPosition>)
    requires
        ground_pathing.wf(),
        gdims(
            points@,
            ground_pathing.map@.len() as int,
            if ground_pathing.map@.len() == 0 {
                0int
            } else {
                ground_pathing.map@[0]@.len() as int
            },
        ),
        x_end <= ground_pathing.map@.len(),
        ground_pathing.map@.len() > 0 ==> y_end <= ground_pathing.map@[0]@.len(),
        x_start <= x_end,
        y_start <= y_end,
        x_end <= MAX_DIM,
        y_end <= MAX_DIM,
        unit_radius <= crate::path::MAX_CLEARANCE,
        15 * chokes@.len() <= u64::MAX - 600,
        forall|k: int|
            0 <= k < chokes@.len() ==> (#[trigger] chokes@[k]).a.0 <= MAX_DIM && chokes@[k].a.1
                <= MAX_DIM && chokes@[k].b.0 <= MAX_DIM && chokes@[k].b.1 <= MAX_DIM,
    ensures
        forall|k: int|
            0 <= k < r@.len() ==> tactical_sound(
                ground_pathing.map@,
                points@,
                chokes@,
                x_start as int,
                y_start as int,
                x_end as int,
                y_end as int,
                unit_radius as int,
                siege_range as int,
                #[trigger] r@[k],
            ),
        forall|a: int, b: int|
            0 <= a <= b < r@.len() ==> (#[trigger] r@[a]).score >= (#[trigger] r@[b]).score,
        forall|a: int, b: int|
            #[trigger] tactical_qualifies(
                ground_pathing.map@,
                points@,
                chokes@,
                x_start as int,
                y_start as int,
                x_end as int,
                y_end as int,
                unit_radius as int,
                siege_range as int,
                a,
                b,
            ) ==> listed_at(r@, a, b),
{
    let g = &ground_pathing.map;
    let mut out: Vec<TacticalPosition> = Vec::new();
    let mut x = x_start;
    while x < x_end
        invariant
            ground_pathing.wf(),
            g@ == ground_pathing.map@,
            gdims(
                points@,
                g@.len() as int,
                if g@.len() == 0 {
                    0int
                } else {
                    g@[0]@.len() as int
                },
            ),
            x_end <= g@.len(),
            g@.len() > 0 ==> y_end <= g@[0]@.len(),
            x_start <= x,
            x_start <= x_end,
            y_start <= y_end,
            x_end <= MAX_DIM,
            y_end <= MAX_DIM,
            unit_radius <= crate::path::MAX_CLEARANCE,
            15 * chokes@.len() <= u64::MAX - 600,
            forall|k: int|
                0 <= k < chokes@.len() ==> (#[trigger] chokes@[k]).a.0 <= MAX_DIM
                    && chokes@[k].a.1 <= MAX_DIM && chokes@[k].b.0 <= MAX_DIM && chokes@[k].b.1
                    <= MAX_DIM,
            ((x as int) - x_start) % 2 == 0,
            forall|k: int|
                0 <= k < out@.len() ==> tactical_sound(
                    g@,
                    points@,
                    chokes@,
                    x_start as int,
                    y_start as int,
                    x_end as int,
                    y_end as int,
                    unit_radius as int,
                    siege_range as int,
                    #[trigger] out@[k],
                ),
            forall|a: int, b: int|
                #[trigger] tactical_qualifies(
                    g@,
                    points@,
                    chokes@,
                    x_start as int,
                    y_start as int,
                    x_end as int,
                    y_end as int,
                    unit_radius as int,
                    siege_range as int,
                    a,
                    b,
                ) && a < x ==> listed_at(out@, a, b),
        decreases x_end + TACTICAL_STRIDE - x,
    {
        let mut y = y_start;
        while y < y_end
            invariant
                ground_pathing.wf(),
                g@ == ground_pathing.map@,
                gdims(
                    points@,
                    g@.len() as int,
                    if g@.len() == 0 {
                        0int
                    } else {
                        g@[0]@.len() as int
                    },
                ),
                x_end <= g@.len(),
                g@.len() > 0 ==> y_end <= g@[0]@.len(),
                x_start <= x < x_end,
                y_start <= y,
                y_start <= y_end,
                x_end <= MAX_DIM,
                y_end <= MAX_DIM,
                unit_radius <= crate::path::MAX_CLEARANCE,
                15 * chokes@.len() <= u64::MAX - 600,
                forall|k: int|
                    0 <= k < chokes@.len() ==> (#[trigger] chokes@[k]).a.0 <= MAX_DIM
                        && chokes@[k].a.1 <= MAX_DIM && chokes@[k].b.0 <= MAX_DIM
                        && chokes@[k].b.1 <= MAX_DIM,
                ((x as int) - x_start) % 2 == 0,
                ((y as int) - y_start) % 2 == 0,
                forall|k: int|
                    0 <= k < out@.len() ==> tactical_sound(
                        g@,
                        points@,
                        chokes@,
                        x_start as int,
                        y_start as int,
                        x_end as int,
                        y_end as int,
                        unit_radius as int,
                        siege_range as int,
                        #[trigger] out@[k],
                    ),
                forall|a: int, b: int|
                    #[trigger] tactical_qualifies(
                        g@,
                        points@,
                        chokes@,
                        x_start as int,
                        y_start as int,
                        x_end as int,
                        y_end as int,
                        unit_radius as int,
                        siege_range as int,
                        a,
                        b,
                    ) && a < x ==> listed_at(out@, a, b),
                forall|b: int|
                    #[trigger] tactical_qualifies(
                        g@,
                        points@,
                        chokes@,
                        x_start as int,
                        y_start as int,
                        x_end as int,
                        y_end as int,
                        unit_radius as int,
                        siege_range as int,
                        x as int,
                        b,
                    ) && b < y ==> listed_at(out@, x as int, b),
            decreases y_end + TACTICAL_STRIDE - y,
        {
            let ghost ob = out@;
            if g[x][y] > 0 {
                if is_position_suitable(points, ground_pathing, x, y, unit_radius) {
                    let hg = is_on_high_ground(points, x, y, x_start, y_start, x_end, y_end);
                    let wn = count_walkable_neighbors(ground_pathing, x, y);
                    let cr = count_chokes_in_range(chokes, x, y, siege_range);
                    let ht = points[x][y].height;
                    let t = TacticalPosition::new((x, y), hg, wn, cr, ht);
                    if t.score > TACTICAL_SCORE_MIN {
                        out.push(t);
                        proof {
                            assert(out@[out@.len() - 1] == t);
                            assert(listed_at(out@, x as int, y as int));
                        }
                    } else {
                        proof {
                            assert(!tactical_qualifies(
                                g@,
                                points@,
                                chokes@,
                                x_start as int,
                                y_start as int,
                                x_end as int,
                                y_end as int,
                                unit_radius as int,
                                siege_range as int,
                                x as int,
                                y as int,
                            ));
                        }
                    }
                } else {
                    proof {
                        assert(!tactical_qualifies(
                            g@,
                            points@,
                            chokes@,
                            x_start as int,
                            y_start as int,
                            x_end as int,
                            y_end as int,
                            unit_radius as int,
                            siege_range as int,
                            x as int,
                            y as int,
                        ));
                    }
                }
            } else {
                proof {
                    assert(!tactical_qualifies(
                        g@,
                        points@,
                        chokes@,
                        x_start as int,
                        y_start as int,
                        x_end as int,
                        y_end as int,
                        unit_radius as int,
                        siege_range as int,
                        x as int,
                        y as int,
                    ));
                }
            }
            proof {
                assert(listed_at(out@, x as int, y as int) || !tactical_qualifies(
                        g@,
                        points@,
                        chokes@,
                        x_start as int,
                        y_start as int,
                        x_end as int,
                        y_end as int,
                        unit_radius as int,
                        siege_range as int,
                        x as int,
                        y as int,
                    ));
                let o2 = out@;
                assert forall|a: int, b: int|
                    #[trigger] tactical_qualifies(
                        g@,
                        points@,
                        chokes@,
                        x_start as int,
                        y_start as int,
                        x_end as int,
                        y_end as int,
                        unit_radius as int,
                        siege_range as int,
                        a,
                        b,
                    ) && a < x implies listed_at(
                    o2,
                    a,
                    b,
                ) by {
                    assert(listed_at(ob, a, b));
                    let k = choose|k: int|
                        0 <= k < ob.len() && (#[trigger] ob[k]).position.0 == a && ob[k].position.1
                            == b;
                    assert(o2[k] == ob[k]);
                }
                assert forall|b: int|
                    #[trigger] tactical_qualifies(
                        g@,
                        points@,
                        chokes@,
                        x_start as int,
                        y_start as int,
                        x_end as int,
                        y_end as int,
                        unit_radius as int,
                        siege_range as int,
                        x as int,
                        b,
                    ) && b < y
                    + TACTICAL_STRIDE implies listed_at(o2, x as int, b) by {
                    if b < y {
                        assert(listed_at(ob, x as int, b));
                        let k = choose|k: int|
                            0 <= k < ob.len() && (#[trigger] ob[k]).position.0 == x as int
                                && ob[k].position.1 == b;
                        assert(o2[k] == ob[k]);
                    } else if b == y as int {
                        assert(listed_at(o2, x as int, b));
                    } else {
                        assert(b == y + 1);
                        assert((b - y_start as int) % 2 != 0) by (nonlinear_arith)
                            requires
                                ((y as int) - y_start) % 2 == 0,
                                b == y + 1,
                                y >= y_start,
                        ;
                    }
                }
                assert((((y as int) + TACTICAL_STRIDE) - y_start) % 2 == 0) by (nonlinear_arith)
                    requires
                        ((y as int) - y_start) % 2 == 0,
                        y >= y_start,
                ;
            }
            y += TACTICAL_STRIDE;
        }
        proof {
            let o2 = out@;
            assert forall|a: int, b: int|
                #[trigger] tactical_qualifies(
                    g@,
                    points@,
                    chokes@,
                    x_start as int,
                    y_start as int,
                    x_end as int,
                    y_end as int,
                    unit_radius as int,
                    siege_range as int,
                    a,
                    b,
                ) && a < x
                + TACTICAL_STRIDE implies listed_at(o2, a, b) by {
                if a < x {
                } else if a == x as int {
                    assert(listed_at(o2, x as int, b));
                } else {
                    assert(a == x + 1);
                    assert((a - x_start as int) % 2 != 0) by (nonlinear_arith)
                        requires
                            ((x as int) - x_start) % 2 == 0,
                            a == x + 1,
                            x >= x_start,
                    ;
                }
            }
            assert((((x as int) + TACTICAL_STRIDE) - x_start) % 2 == 0) by (nonlinear_arith)
                requires
                    ((x as int) - x_start) % 2 == 0,
                    x >= x_start,
            ;
        }
        x += TACTICAL_STRIDE;
    }
    let ghost out0 = out@;
    sort_by_score_desc(
        &mut out,
        Ghost(g@),
        Ghost(points@),
        Ghost(chokes@),
        Ghost(x_start as int),
        Ghost(y_start as int),
        Ghost(x_end as int),
        Ghost(y_end as int),
        Ghost(unit_radius as int),
        Ghost(siege_range as int),
    );
    proof {
        assert forall|a: int, b: int|
            #[trigger] tactical_qualifies(
                ground_pathing.map@,
                points@,
                chokes@,
                x_start as int,
                y_start as int,
                x_end as int,
                y_end as int,
                unit_radius as int,
                siege_range as int,
                a,
                b,
            ) implies listed_at(out@, a, b) by {
            assert(listed_at(out0, a, b));
            let k = choose|k: int|
                0 <= k < out0.len() && (#[trigger] out0[k]).position.0 == a && out0[k].position.1
                    == b;
            assert(out@.contains(out0[k]));
            let j = choose|j: int| 0 <= j < out@.len() && out@[j] == out0[k];
            assert(out@[j].position.0 == a && out@[j].position.1 == b);
        }
    }
    out
}

impl crate::grid::GameMap {
    /// Tactical positions for a caller-supplied footprint radius (tiles)
    /// and attack range (scaled units), scanned over the playable
    /// rectangle; sorted by descending score.
    pub fn calculate_tactical_positions(&self, unit_radius: usize, siege_range: u64) -> (r: Vec<
        TacticalPosition,
    >)
        requires
            self.wf(),
            unit_radius <= crate::path::MAX_CLEARANCE,
            15 * self.chokes@.len() <= u64::MAX - 600,
        ensures
            forall|k: int|
                0 <= k < r@.len() ==> tactical_sound(
                    self.ground_pathing.map@,
                    self.points@,
                    self.chokes@,
                    self.x_start as int,
                    self.y_start as int,
                    self.x_end as int,
                    self.y_end as int,
                    unit_radius as int,
                    siege_range as int,
                    #[trigger] r@[k],
                ),
            forall|a: int, b: int|
                0 <= a <= b < r@.len() ==> (#[trigger] r@[a]).score >= (#[trigger] r@[b]).score,
            forall|a: int, b: int|
                #[trigger] tactical_qualifies(
                    self.ground_pathing.map@,
                    self.points@,
                    self.chokes@,
                    self.x_start as int,
                    self.y_start as int,
                    self.x_end as int,
                    self.y_end as int,
                    unit_radius as int,
                    siege_range as int,
                    a,
                    b,
                ) ==> listed_at(r@, a, b),
    {
        calculate_tactical_positions(
            &self.points,
            &self.ground_pathing,
            &self.chokes,
            self.x_start,
            self.y_start,
            self.x_end,
            self.y_end,
            unit_radius,
            siege_range,
        )
    }

    /// Lower edge of the scan window for a reference point and bounding
    /// radius, clamped into the playable range `s .. e`.
    pub open spec fn spec_window_lo(s: int, e: int, c: int, r: int) -> int {
        let v = if c - r > s {
            c - r
        } else {
            s
        };
        if v < e {
            v
        } else {
            e
        }
    }

    /// Upper edge of the scan window for a reference point and bounding
    /// radius, clamped into `lo .. e`.
    pub open spec fn spec_window_hi(lo: int, e: int, c: int, r: int) -> int {
        let v = if c + r + 1 < e {
            c + r + 1
        } else {
            e
        };
        if v > lo {
            v
        } else {
            lo
        }
    }

    /// Tactical positions with the scan restricted to a bounding radius
    /// around a reference point (clamped to the playable rectangle);
    /// otherwise exactly [`Self::calculate_tactical_positions`] over that
    /// window.
    pub fn tactical_positions_near(
        &self,
        center: (usize, usize),
        bound: usize,
        unit_radius: usize,
        siege_range: u64,
    ) -> (r: Vec<TacticalPosition>)
        requires
            self.wf(),
            center.0 <= MAX_DIM,
            center.1 <= MAX_DIM,
            bound <= MAX_DIM,
            unit_radius <= crate::path::MAX_CLEARANCE,
            15 * self.chokes@.len() <= u64::MAX - 600,
        ensures
            ({
                let lx = Self::spec_window_lo(
                    self.x_start as int,
                    self.x_end as int,
                    center.0 as int,
                    bound as int,
                );
                let ly = Self::spec_window_lo(
                    self.y_start as int,
                    self.y_end as int,
                    center.1 as int,
                    bound as int,
                );
                let hx = Self::spec_window_hi(
                    lx,
                    self.x_end as int,
                    center.0 as int,
                    bound as int,
                );
                let hy = Self::spec_window_hi(
                    ly,
                    self.y_end as int,
                    center.1 as int,
                    bound as int,
                );
                &&& forall|k: int|
                    0 <= k < r@.len() ==> tactical_sound(
                        self.ground_pathing.map@,
                        self.points@,
                        self.chokes@,
                        lx,
                        ly,
                        hx,
                        hy,
                        unit_radius as int,
                        siege_range as int,
                        #[trigger] r@[k],
                    )
                &&& forall|a: int, b: int|
                    0 <= a <= b < r@.len() ==> (#[trigger] r@[a]).score >= (#[trigger] r@[b]).score
                &&& forall|a: int, b: int|
                    #[trigger] tactical_qualifies(
                        self.ground_pathing.map@,
                        self.points@,
                        self.chokes@,
                        lx,
                        ly,
                        hx,
                        hy,
                        unit_radius as int,
                        siege_range as int,
                        a,
                        b,
                    ) ==> listed_at(r@, a, b)
            }),
    {
        let lo_x_raw = if center.0 > bound {
            center.0 - bound
        } else {
            0
        };
        let lo_x_s = if lo_x_raw > self.x_start {
            lo_x_raw
        } else {
            self.x_start
        };
        let lo_x = if lo_x_s < self.x_end {
            lo_x_s
        } else {
            self.x_end
        };
        let hi_x_raw = if center.0 + bound + 1 < self.x_end {
            center.0 + bound + 1
        } else {
            self.x_end
        };
        let hi_x = if hi_x_raw > lo_x {
            hi_x_raw
        } else {
            lo_x
        };
        let lo_y_raw = if center.1 > bound {
            center.1 - bound
        } else {
            0
        };
        let lo_y_s = if lo_y_raw > self.y_start {
            lo_y_raw
        } else {
            self.y_start
        };
        let lo_y = if lo_y_s < self.y_end {
            lo_y_s
        } else {
            self.y_end
        };
        let hi_y_raw = if center.1 + bound + 1 < self.y_end {
            center.1 + bound + 1
        } else {
            self.y_end
        };
        let hi_y = if hi_y_raw > lo_y {
            hi_y_raw
        } else {
            lo_y
        };
        proof {
            assert(lo_x as int == Self::spec_window_lo(
                self.x_start as int,
                self.x_end as int,
                center.0 as int,
                bound as int,
            ));
            assert(hi_x as int == Self::spec_window_hi(
                lo_x as int,
                self.x_end as int,
                center.0 as int,
                bound as int,
            ));
            assert(lo_y as int == Self::spec_window_lo(
                self.y_start as int,
                self.y_end as int,
                center.1 as int,
                bound as int,
            ));
            assert(hi_y as int == Self::spec_window_hi(
                lo_y as int,
                self.y_end as int,
                center.1 as int,
                bound as int,
            ));
        }
        calculate_tactical_positions(
            &self.points,
            &self.ground_pathing,
            &self.chokes,
            lo_x,
            lo_y,
            hi_x,
            hi_y,
            unit_radius,
            siege_range,
        )
    }

    /// Tactical positions with the default siege-unit parameters: a
    /// footprint radius of 2 tiles and an attack range of 13 tiles (104
    /// scaled units).
    pub fn tactical_positions(&self) -> (r: Vec<TacticalPosition>)
        requires
            self.wf(),
            15 * self.chokes@.len() <= u64::MAX - 600,
        ensures
            forall|k: int|
                0 <= k < r@.len() ==> tactical_sound(
                    self.ground_pathing.map@,
                    self.points@,
                    self.chokes@,
                    self.x_start as int,
                    self.y_start as int,
                    self.x_end as int,
                    self.y_end as int,
                    2,
                    104,
                    #[trigger] r@[k],
                ),
            forall|a: int, b: int|
                0 <= a <= b < r@.len() ==> (#[trigger] r@[a]).score >= (#[trigger] r@[b]).score,
            forall|a: int, b: int|
                #[trigger] tactical_qualifies(
                    self.ground_pathing.map@,
                    self.points@,
                    self.chokes@,
                    self.x_start as int,
                    self.y_start as int,
                    self.x_end as int,
                    self.y_end as int,
                    2,
                    104,
                    a,
                    b,
                ) ==> listed_at(r@, a, b),
    {
        self.calculate_tactical_positions(2, 104)
    }
}

} // verus!
