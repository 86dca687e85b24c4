//! Narrow-passage detection: line segments marking the narrowest
//! cross-section of each bottleneck of the walkable surface.

use vstd::prelude::*;

verus! {

/// Passages whose minimum crossing width (in tiles) is below this
/// threshold count as chokes.
pub const CHOKE_WIDTH_MAX: usize = 4;

/// A detected bottleneck: the narrowest crossing segment of a passage,
/// with its minimum width in tiles.
#[derive(Debug, Clone, Copy, PartialEq, Eq)]
pub struct Choke {
    /// One walkable endpoint of the narrowest crossing segment.
    pub a: (usize, usize),
    /// The other walkable endpoint.
    pub b: (usize, usize),
    /// Minimum crossing width of the passage, in tiles.
    pub min_width: usize,
}

impl Choke {
    /// Midpoint of the crossing segment (component-wise floor average).
    pub fn center(&self) -> (r: (usize, usize))
        ensures
            r.0 == (self.a.0 + self.b.0) as int / 2,
            r.1 == (self.a.1 + self.b.1) as int / 2,
    {
        let sx: u128 = self.a.0 as u128 + self.b.0 as u128;
        let sy: u128 = self.a.1 as u128 + self.b.1 as u128;
        ((sx / 2) as usize, (sy / 2) as usize)
    }
}

/// Cap on line-of-walkability scans; passages wider than this are never
/// chokes, so longer rays are irrelevant.
pub const RAY_CAP: usize = 32;

/// Both sides perpendicular to a narrow crossing must extend at least
/// this far for the crossing to count as a passage rather than a corner.
pub const CHOKE_MIN_PERP: usize = 2;

/// Two detected narrow tiles within this many tiles (squared distance)
/// merge into one reported choke.
pub const CHOKE_MERGE_SQ: u64 = 64;

/// The true distance between the points is at most `r` scaled units,
/// under the map's scale factor of 8 units per tile.
pub open spec fn in_range_scaled(a: (int, int), b: (int, int), r: int) -> bool {
    64 * crate::path::spec_sq_dist(a, b) <= r * r
}

/// Executable test for [`in_range_scaled`].
pub fn within_scaled(a: (usize, usize), b: (usize, usize), r: u64) -> (res: bool)
    requires
        a.0 <= crate::grid::MAX_DIM,
        a.1 <= crate::grid::MAX_DIM,
        b.0 <= crate::grid::MAX_DIM,
        b.1 <= crate::grid::MAX_DIM,
    ensures
        res == in_range_scaled(crate::path::ti(a), crate::path::ti(b), r as int),
{
    let dx = if a.0 >= b.0 {
        (a.0 - b.0) as u64
    } else {
        (b.0 - a.0) as u64
    };
    let dy = if a.1 >= b.1 {
        (a.1 - b.1) as u64
    } else {
        (b.1 - a.1) as u64
    };
    proof {
        assert(dx * dx + dy * dy <= 0x2000_0000 && (dx as int) * (dx as int) + (dy as int) * (dy
            as int) == crate::path::spec_sq_dist(crate::path::ti(a), crate::path::ti(b)))
            by (nonlinear_arith)
            requires
                dx <= 16384,
                dy <= 16384,
                dx as int == if a.0 >= b.0 { a.0 - b.0 } else { b.0 - a.0 },
                dy as int == if a.1 >= b.1 { a.1 - b.1 } else { b.1 - a.1 },
        ;
        assert((r as int) * (r as int) <= 0xFFFF_FFFF_FFFF_FFFE_0000_0000_0000_0001)
            by (nonlinear_arith)
            requires
                r <= 0xFFFF_FFFF_FFFF_FFFFu64,
        ;
    }
    let d2: u128 = 64 * ((dx * dx + dy * dy) as u128);
    let r2: u128 = (r as u128) * (r as u128);
    d2 <= r2
}

/// Length of the contiguous run of walkable tiles from `(cx, cy)`
/// (exclusive) in the direction `(sx, sy)`, cut off at `fuel` steps.
pub open spec fn spec_ray(g: Seq<Vec<u8>>, cx: int, cy: int, sx: int, sy: int, fuel: nat) -> int
    decreases fuel,
{
    if fuel == 0 {
        0int
    } else if crate::grid::walk_at(g, cx + sx, cy + sy) {
        1 + spec_ray(g, cx + sx, cy + sy, sx, sy, (fuel - 1) as nat)
    } else {
        0int
    }
}

/// Walks from `(x, y)` in the direction `(sx, sy)`, counting contiguous
/// walkable tiles, up to [`RAY_CAP`].
fn ray(map: &Vec<Vec<u8>>, w: usize, h: usize, x: usize, y: usize, sx: i64, sy: i64) -> (n: usize)
    requires
        crate::grid::grid_wf(map@, w as int, h as int),
        w <= crate::grid::MAX_DIM,
        h <= crate::grid::MAX_DIM,
        x < w,
        y < h,
        -1 <= sx <= 1,
        -1 <= sy <= 1,
        !(sx == 0 && sy == 0),
    ensures
        n <= RAY_CAP,
        n >= 1 ==> crate::grid::walk_at(map@, x + n * (sx as int), y + n * (sy as int)),
        n as int == spec_ray(map@, x as int, y as int, sx as int, sy as int, RAY_CAP as nat),
{
    let mut cnt: usize = 0;
    let mut cx: i64 = x as i64;
    let mut cy: i64 = y as i64;
    while cnt < RAY_CAP
        invariant
            crate::grid::grid_wf(map@, w as int, h as int),
            w <= crate::grid::MAX_DIM,
            h <= crate::grid::MAX_DIM,
            x < w,
            y < h,
            -1 <= sx <= 1,
            -1 <= sy <= 1,
            0 <= cnt <= RAY_CAP,
            cx as int == x + cnt * (sx as int),
            cy as int == y + cnt * (sy as int),
            -32 <= cnt * (sx as int) <= 32,
            -32 <= cnt * (sy as int) <= 32,
            cnt >= 1 ==> crate::grid::walk_at(map@, cx as int, cy as int),
            spec_ray(map@, x as int, y as int, sx as int, sy as int, RAY_CAP as nat) == cnt
                + spec_ray(
                map@,
                cx as int,
                cy as int,
                sx as int,
                sy as int,
                (RAY_CAP - cnt) as nat,
            ),
        decreases RAY_CAP - cnt,
    {
        proof {
            assert(cnt * (sx as int) + sx == (cnt + 1) * (sx as int) && cnt * (sy as int) + sy == (
            cnt + 1) * (sy as int) && -32 <= (cnt + 1) * (sx as int) <= 32 && -32 <= (cnt + 1) * (
            sy as int) <= 32) by (nonlinear_arith)
                requires
                    -1 <= sx <= 1,
                    -1 <= sy <= 1,
                    0 <= cnt <= 31,
            ;
        }
        let nx = cx + sx;
        let ny = cy + sy;
        if nx < 0 || ny < 0 || nx >= w as i64 || ny >= h as i64 {
            proof {
                assert(!crate::grid::walk_at(map@, cx + sx, cy + sy));
                assert(spec_ray(
                    map@,
                    cx as int,
                    cy as int,
                    sx as int,
                    sy as int,
                    (RAY_CAP - cnt) as nat,
                ) == 0);
            }
            return cnt;
        }
        if map[nx as usize][ny as usize] == 0 {
            proof {
                assert(!crate::grid::walk_at(map@, cx + sx, cy + sy));
                assert(spec_ray(
                    map@,
                    cx as int,
                    cy as int,
                    sx as int,
                    sy as int,
                    (RAY_CAP - cnt) as nat,
                ) == 0);
            }
            return cnt;
        }
        proof {
            assert(crate::grid::walk_at(map@, cx + sx, cy + sy));
            assert(spec_ray(
                map@,
                cx as int,
                cy as int,
                sx as int,
                sy as int,
                (RAY_CAP - cnt) as nat,
            ) == 1 + spec_ray(
                map@,
                cx + sx,
                cy + sy,
                sx as int,
                sy as int,
                (RAY_CAP - cnt - 1) as nat,
            ));
        }
        cx = nx;
        cy = ny;
        cnt += 1;
    }
    proof {
        assert(spec_ray(map@, cx as int, cy as int, sx as int, sy as int, 0nat) == 0);
    }
    cnt
}

/// A point within two tiles of another on each axis lies within squared
/// distance 8 of it.
proof fn lemma_center_near(p: (int, int), c: (int, int))
    requires
        -2 <= p.0 - c.0 <= 2,
        -2 <= p.1 - c.1 <= 2,
    ensures
        crate::path::spec_sq_dist(p, c) <= 8,
{
    assert((p.0 - c.0) * (p.0 - c.0) + (p.1 - c.1) * (p.1 - c.1) <= 8) by (nonlinear_arith)
        requires
            -2 <= p.0 - c.0 <= 2,
            -2 <= p.1 - c.1 <= 2,
    ;
}

/// The narrow-crossing decision over the eight measured ray lengths: a
/// choke along the strictly narrowest of the four lines through the tile,
/// when that line is below [`CHOKE_WIDTH_MAX`] and the passage continues
/// at least [`CHOKE_MIN_PERP`] tiles to both sides perpendicular to it.
pub open spec fn spec_classify(
    x: int,
    y: int,
    re: int,
    rw: int,
    rn: int,
    rs: int,
    rne: int,
    rsw: int,
    rnw: int,
    rse: int,
) -> Option<Choke> {
    let sh = re + rw + 1;
    let sv = rn + rs + 1;
    let s1 = rne + rsw + 1;
    let s2 = rnw + rse + 1;
    if sh < sv && sh < s1 && sh < s2 {
        if sh < CHOKE_WIDTH_MAX && rn >= CHOKE_MIN_PERP && rs >= CHOKE_MIN_PERP {
            Some(
                Choke {
                    a: ((x - rw) as usize, y as usize),
                    b: ((x + re) as usize, y as usize),
                    min_width: sh as usize,
                },
            )
        } else {
            None
        }
    } else if sv < s1 && sv < s2 {
        if sv < CHOKE_WIDTH_MAX && re >= CHOKE_MIN_PERP && rw >= CHOKE_MIN_PERP {
            Some(
                Choke {
                    a: (x as usize, (y - rs) as usize),
                    b: (x as usize, (y + rn) as usize),
                    min_width: sv as usize,
                },
            )
        } else {
            None
        }
    } else if s1 < s2 {
        if s1 < CHOKE_WIDTH_MAX && rnw >= CHOKE_MIN_PERP && rse >= CHOKE_MIN_PERP {
            Some(
                Choke {
                    a: ((x - rsw) as usize, (y - rsw) as usize),
                    b: ((x + rne) as usize, (y + rne) as usize),
                    min_width: s1 as usize,
                },
            )
        } else {
            None
        }
    } else {
        if s2 < CHOKE_WIDTH_MAX && rne >= CHOKE_MIN_PERP && rsw >= CHOKE_MIN_PERP {
            Some(
                Choke {
                    a: ((x - rnw) as usize, (y + rnw) as usize),
                    b: ((x + rse) as usize, (y - rse) as usize),
                    min_width: s2 as usize,
                },
            )
        } else {
            None
        }
    }
}

/// What the narrow-crossing scan decides at one tile, written over the
/// grid alone: [`spec_classify`] applied to the tile's ray lengths.
pub open spec fn spec_detect(g: Seq<Vec<u8>>, x: int, y: int) -> Option<Choke> {
    if !crate::grid::walk_at(g, x, y) {
        None
    } else {
        spec_classify(
            x,
            y,
            spec_ray(g, x, y, 1, 0, RAY_CAP as nat),
            spec_ray(g, x, y, -1, 0, RAY_CAP as nat),
            spec_ray(g, x, y, 0, 1, RAY_CAP as nat),
            spec_ray(g, x, y, 0, -1, RAY_CAP as nat),
            spec_ray(g, x, y, 1, 1, RAY_CAP as nat),
            spec_ray(g, x, y, -1, -1, RAY_CAP as nat),
            spec_ray(g, x, y, -1, 1, RAY_CAP as nat),
            spec_ray(g, x, y, 1, -1, RAY_CAP as nat),
        )
    }
}

/// The executable decision over measured ray lengths: exactly
/// [`spec_classify`], with the reported segment one of the four measured
/// lines, narrow, and centred within a couple of tiles of the tile.
#[verifier::rlimit(100)]
fn classify(
    x: usize,
    y: usize,
    re: usize,
    rw: usize,
    rn: usize,
    rs: usize,
    rne: usize,
    rsw: usize,
    rnw: usize,
    rse: usize,
) -> (r: Option<Choke>)
    requires
        x <= crate::grid::MAX_DIM,
        y <= crate::grid::MAX_DIM,
        re <= RAY_CAP,
        rw <= x,
        rn <= RAY_CAP,
        rs <= y,
        rne <= RAY_CAP,
        rsw <= x,
        rsw <= y,
        rnw <= x,
        rnw <= RAY_CAP,
        rse <= y,
        rse <= RAY_CAP,
    ensures
        r == spec_classify(
            x as int,
            y as int,
            re as int,
            rw as int,
            rn as int,
            rs as int,
            rne as int,
            rsw as int,
            rnw as int,
            rse as int,
        ),
        r matches Some(ch) ==> ch.min_width < CHOKE_WIDTH_MAX && crate::path::spec_sq_dist(
            (x as int, y as int),
            spec_center(ch),
        ) <= 8 && ((ch.a == ((x - rw) as usize, y) && ch.b == ((x + re) as usize, y)) || (ch.a == (
        x,
        (y - rs) as usize,
        ) && ch.b == (x, (y + rn) as usize)) || (ch.a == ((x - rsw) as usize, (y - rsw) as usize)
            && ch.b == ((x + rne) as usize, (y + rne) as usize)) || (ch.a == (
        (x - rnw) as usize,
        (y + rnw) as usize,
        ) && ch.b == ((x + rse) as usize, (y - rse) as usize))),
{
    let sh = re + rw + 1;
    let sv = rn + rs + 1;
    let s1 = rne + rsw + 1;
    let s2 = rnw + rse + 1;
    if sh < sv && sh < s1 && sh < s2 {
        if sh < CHOKE_WIDTH_MAX && rn >= CHOKE_MIN_PERP && rs >= CHOKE_MIN_PERP {
            let ch = Choke { a: (x - rw, y), b: (x + re, y), min_width: sh };
            proof {
                assert(x - 2 <= spec_center(ch).0 <= x + 2);
                assert(spec_center(ch).1 == y as int);
                lemma_center_near((x as int, y as int), spec_center(ch));
            }
            return Some(ch);
        }
        return None;
    }
    if sv < s1 && sv < s2 {
        if sv < CHOKE_WIDTH_MAX && re >= CHOKE_MIN_PERP && rw >= CHOKE_MIN_PERP {
            let ch = Choke { a: (x, y - rs), b: (x, y + rn), min_width: sv };
            proof {
                assert(spec_center(ch).0 == x as int);
                assert(y - 2 <= spec_center(ch).1 <= y + 2);
                lemma_center_near((x as int, y as int), spec_center(ch));
            }
            return Some(ch);
        }
        return None;
    }
    if s1 < s2 {
        if s1 < CHOKE_WIDTH_MAX && rnw >= CHOKE_MIN_PERP && rse >= CHOKE_MIN_PERP {
            let ch = Choke { a: (x - rsw, y - rsw), b: (x + rne, y + rne), min_width: s1 };
            proof {
                assert(x - 2 <= spec_center(ch).0 <= x + 2);
                assert(y - 2 <= spec_center(ch).1 <= y + 2);
                lemma_center_near((x as int, y as int), spec_center(ch));
            }
            return Some(ch);
        }
        return None;
    }
    if s2 < CHOKE_WIDTH_MAX && rne >= CHOKE_MIN_PERP && rsw >= CHOKE_MIN_PERP {
        let ch = Choke { a: (x - rnw, y + rnw), b: (x + rse, y - rse), min_width: s2 };
        proof {
            assert(x - 2 <= spec_center(ch).0 <= x + 2);
            assert(y - 2 <= spec_center(ch).1 <= y + 2);
            lemma_center_near((x as int, y as int), spec_center(ch));
        }
        return Some(ch);
    }
    None
}

/// Examines one walkable tile for a narrow crossing: exactly the
/// decision of [`spec_detect`]. A reported choke is narrow, has walkable
/// endpoints, and its crossing segment's midpoint stays within a couple
/// of tiles of the examined tile.
#[verifier::rlimit(100)]
pub(crate) fn detect_choke_at(map: &Vec<Vec<u8>>, w: usize, h: usize, x: usize, y: usize) -> (r:
    Option<Choke>)
    requires
        crate::grid::grid_wf(map@, w as int, h as int),
        w <= crate::grid::MAX_DIM,
        h <= crate::grid::MAX_DIM,
        x < w,
        y < h,
    ensures
        r == spec_detect(map@, x as int, y as int),
        r matches Some(ch) ==> ch.min_width < CHOKE_WIDTH_MAX && crate::grid::walk_at(
            map@,
            ch.a.0 as int,
            ch.a.1 as int,
        ) && crate::grid::walk_at(map@, ch.b.0 as int, ch.b.1 as int) && ch.a.0 < w && ch.a.1 < h
            && ch.b.0 < w && ch.b.1 < h && crate::path::spec_sq_dist(
            (x as int, y as int),
            spec_center(ch),
        ) <= 8,
{
    if map[x][y] == 0 {
        return None;
    }
    let re = ray(map, w, h, x, y, 1, 0);
    let rw = ray(map, w, h, x, y, -1, 0);
    let rn = ray(map, w, h, x, y, 0, 1);
    let rs = ray(map, w, h, x, y, 0, -1);
    let rne = ray(map, w, h, x, y, 1, 1);
    let rsw = ray(map, w, h, x, y, -1, -1);
    let rnw = ray(map, w, h, x, y, -1, 1);
    let rse = ray(map, w, h, x, y, 1, -1);
    proof {
        if re >= 1 {
            assert(crate::grid::walk_at(map@, x + re, y as int));
        }
        if rw >= 1 {
            assert(crate::grid::walk_at(map@, x - rw, y as int));
        }
        if rn >= 1 {
            assert(crate::grid::walk_at(map@, x as int, y + rn));
        }
        if rs >= 1 {
            assert(crate::grid::walk_at(map@, x as int, y - rs));
        }
        if rne >= 1 {
            assert(crate::grid::walk_at(map@, x + rne, y + rne));
        }
        if rsw >= 1 {
            assert(crate::grid::walk_at(map@, x - rsw, y - rsw));
        }
        if rnw >= 1 {
            assert(crate::grid::walk_at(map@, x - rnw, y + rnw));
        }
        if rse >= 1 {
            assert(crate::grid::walk_at(map@, x + rse, y - rse));
        }
        assert(crate::grid::walk_at(map@, x as int, y as int));
    }
    classify(x, y, re, rw, rn, rs, rne, rsw, rnw, rse)
}

impl crate::grid::GameMap {
    /// Scans the walkable surface for narrow passages and stores each
    /// detected bottleneck as a crossing segment with its minimum width;
    /// detections within the merge distance of an earlier one merge into
    /// it. Every stored choke is
    /// narrower than [`CHOKE_WIDTH_MAX`] and both its endpoints are
    /// walkable; conversely every tile at which the detection rule
    /// ([`spec_detect`]) finds a crossing has a stored choke within the
    /// merge distance.
    pub fn calculate_chokes(&mut self)
        requires
            old(self).wf(),
        ensures
            final(self).wf(),
            final(self).ground_pathing.map@ == old(self).ground_pathing.map@,
            final(self).ground_pathing.influence@ == old(self).ground_pathing.influence@,
            final(self).placement@ == old(self).placement@,
            final(self).height_map@ == old(self).height_map@,
            final(self).points@ == old(self).points@,
            final(self).width == old(self).width,
            final(self).height == old(self).height,
            final(self).x_start == old(self).x_start,
            final(self).y_start == old(self).y_start,
            final(self).x_end == old(self).x_end,
            final(self).y_end == old(self).y_end,
            final(self).zones@ == old(self).zones@,
            final(self).zone_count == old(self).zone_count,
            final(self).vision@ == old(self).vision@,
            final(self).vision_units@ == old(self).vision_units@,
            forall|k: int|
                0 <= k < final(self).chokes@.len()
                    ==> (#[trigger] final(self).chokes@[k]).min_width < CHOKE_WIDTH_MAX
                    && final(self).spec_walkable(
                    final(self).chokes@[k].a.0 as int,
                    final(self).chokes@[k].a.1 as int,
                ) && final(self).spec_walkable(
                    final(self).chokes@[k].b.0 as int,
                    final(self).chokes@[k].b.1 as int,
                ),
            forall|a: int, b: int|
                0 <= a < old(self).width && 0 <= b < old(self).height && (#[trigger] spec_detect(
                    old(self).ground_pathing.map@,
                    a,
                    b,
                )) is Some ==> near_choke(final(self).chokes@, a, b),
    {
        let w = self.width;
        let h = self.height;
        let mut found: Vec<Choke> = Vec::new();
        let mut x: usize = 0;
        while x < w
            invariant
                self.wf(),
                w == self.width,
                h == self.height,
                0 <= x <= w,
                forall|k: int|
                    0 <= k < found@.len() ==> (#[trigger] found@[k]).min_width < CHOKE_WIDTH_MAX
                        && crate::grid::walk_at(
                        self.ground_pathing.map@,
                        found@[k].a.0 as int,
                        found@[k].a.1 as int,
                    ) && crate::grid::walk_at(
                        self.ground_pathing.map@,
                        found@[k].b.0 as int,
                        found@[k].b.1 as int,
                    ) && found@[k].a.0 < w && found@[k].a.1 < h && found@[k].b.0 < w
                        && found@[k].b.1 < h,
                forall|a: int, b: int|
                    0 <= a < w && 0 <= b < h && (#[trigger] spec_detect(
                        self.ground_pathing.map@,
                        a,
                        b,
                    )) is Some && a < x ==> near_choke(found@, a, b),
            decreases w - x,
        {
            let mut y: usize = 0;
            while y < h
                invariant
                    self.wf(),
                    w == self.width,
                    h == self.height,
                    0 <= x < w,
                    0 <= y <= h,
                    forall|k: int|
                        0 <= k < found@.len() ==> (#[trigger] found@[k]).min_width
                            < CHOKE_WIDTH_MAX && crate::grid::walk_at(
                            self.ground_pathing.map@,
                            found@[k].a.0 as int,
                            found@[k].a.1 as int,
                        ) && crate::grid::walk_at(
                            self.ground_pathing.map@,
                            found@[k].b.0 as int,
                            found@[k].b.1 as int,
                        ) && found@[k].a.0 < w && found@[k].a.1 < h && found@[k].b.0 < w
                            && found@[k].b.1 < h,
                    forall|a: int, b: int|
                        0 <= a < w && 0 <= b < h && (#[trigger] spec_detect(
                            self.ground_pathing.map@,
                            a,
                            b,
                        )) is Some && a < x ==> near_choke(found@, a, b),
                    forall|b: int|
                        0 <= b < h && (#[trigger] spec_detect(
                            self.ground_pathing.map@,
                            x as int,
                            b,
                        )) is Some && b < y ==> near_choke(found@, x as int, b),
                decreases h - y,
            {
                let ghost fb = found@;
                match detect_choke_at(&self.ground_pathing.map, w, h, x, y) {
                    None => {},
                    Some(ch) => {
                        if !near_existing(&found, w, h, x, y) {
                            found.push(ch);
                            proof {
                                assert(found@[found@.len() - 1] == ch);
                                assert(near_choke(found@, x as int, y as int));
                            }
                        }
                    },
                }
                proof {
                    let f2 = found@;
                    assert(spec_detect(self.ground_pathing.map@, x as int, y as int)
                        is Some ==> near_choke(f2, x as int, y as int));
                    assert forall|a: int, b: int|
                        0 <= a < w && 0 <= b < h && (#[trigger] spec_detect(
                            self.ground_pathing.map@,
                            a,
                            b,
                        )) is Some && a < x implies near_choke(f2, a, b) by {
                        assert(near_choke(fb, a, b));
                        let k = choose|k: int|
                            0 <= k < fb.len() && crate::path::spec_sq_dist(
                                (a, b),
                                spec_center(#[trigger] fb[k]),
                            ) <= CHOKE_MERGE_SQ;
                        assert(f2[k] == fb[k]);
                    }
                    assert forall|b: int|
                        0 <= b < h && (#[trigger] spec_detect(
                            self.ground_pathing.map@,
                            x as int,
                            b,
                        )) is Some && b < y + 1 implies near_choke(f2, x as int, b) by {
                        if b < y {
                            assert(near_choke(fb, x as int, b));
                            let k = choose|k: int|
                                0 <= k < fb.len() && crate::path::spec_sq_dist(
                                    (x as int, b),
                                    spec_center(#[trigger] fb[k]),
                                ) <= CHOKE_MERGE_SQ;
                            assert(f2[k] == fb[k]);
                        }
                    }
                }
                y += 1;
            }
            x += 1;
        }
        self.chokes = found;
    }

    /// Nearest choke to a point: the index of a choke whose
    /// crossing-segment midpoint lies at minimal squared distance from
    /// the point, with the scaled distance to that midpoint. `None`
    /// exactly when no chokes are known.
    pub fn nearest_choke(&self, point: (usize, usize)) -> (r: Option<(usize, u64)>)
        requires
            self.wf(),
            point.0 <= crate::grid::MAX_DIM,
            point.1 <= crate::grid::MAX_DIM,
        ensures
            r is Some <==> self.chokes@.len() > 0,
            r matches Some(pr) ==> pr.0 < self.chokes@.len() && (forall|j: int|
                0 <= j < self.chokes@.len() ==> crate::path::spec_sq_dist(
                    crate::path::ti(point),
                    spec_center(self.chokes@[pr.0 as int]),
                ) <= crate::path::spec_sq_dist(
                    crate::path::ti(point),
                    spec_center(#[trigger] self.chokes@[j]),
                )) && (pr.1 * pr.1 <= 64 * crate::path::spec_sq_dist(
                crate::path::ti(point),
                spec_center(self.chokes@[pr.0 as int]),
            )) && (64 * crate::path::spec_sq_dist(
                crate::path::ti(point),
                spec_center(self.chokes@[pr.0 as int]),
            ) < (pr.1 + 1) * (pr.1 + 1)),
    {
        if self.chokes.len() == 0 {
            return None;
        }
        let mut best: usize = 0;
        let c0 = self.chokes[0].center();
        let mut bd = sq_dist_exec(point, c0);
        proof {
            assert(c0 == spec_center_exec(self.chokes@[0]));
        }
        let mut k: usize = 1;
        while k < self.chokes.len()
            invariant
                self.wf(),
                point.0 <= crate::grid::MAX_DIM,
                point.1 <= crate::grid::MAX_DIM,
                self.chokes@.len() > 0,
                1 <= k <= self.chokes@.len(),
                best < self.chokes@.len(),
                bd <= 0x2000_0000,
                bd as int == crate::path::spec_sq_dist(
                    crate::path::ti(point),
                    spec_center(self.chokes@[best as int]),
                ),
                forall|j: int|
                    0 <= j < k ==> bd as int <= crate::path::spec_sq_dist(
                        crate::path::ti(point),
                        spec_center(#[trigger] self.chokes@[j]),
                    ),
            decreases self.chokes@.len() - k,
        {
            let ck = self.chokes[k].center();
            let d = sq_dist_exec(point, ck);
            if d < bd {
                best = k;
                bd = d;
            }
            k += 1;
        }
        proof {
            assert(64 * (bd as int) <= 0x8_0000_0000);
        }
        let dist = crate::path::isqrt(64 * bd);
        Some((best, dist))
    }

    /// Indices of the chokes whose midpoints lie within `range` scaled
    /// units of the point, in choke order.
    pub fn chokes_in_range(&self, point: (usize, usize), range: u64) -> (r: Vec<usize>)
        requires
            self.wf(),
            point.0 <= crate::grid::MAX_DIM,
            point.1 <= crate::grid::MAX_DIM,
        ensures
            forall|k: int|
                0 <= k < r@.len() ==> (#[trigger] r@[k]) < self.chokes@.len() && in_range_scaled(
                    crate::path::ti(point),
                    spec_center(self.chokes@[r@[k] as int]),
                    range as int,
                ),
            forall|j: int|
                0 <= j < self.chokes@.len() && in_range_scaled(
                    crate::path::ti(point),
                    spec_center(#[trigger] self.chokes@[j]),
                    range as int,
                ) ==> r@.contains(j as usize),
    {
        let mut r: Vec<usize> = Vec::new();
        let mut k: usize = 0;
        while k < self.chokes.len()
            invariant
                self.wf(),
                point.0 <= crate::grid::MAX_DIM,
                point.1 <= crate::grid::MAX_DIM,
                0 <= k <= self.chokes@.len(),
                forall|i: int|
                    0 <= i < r@.len() ==> (#[trigger] r@[i]) < self.chokes@.len()
                        && in_range_scaled(
                        crate::path::ti(point),
                        spec_center(self.chokes@[r@[i] as int]),
                        range as int,
                    ),
                forall|j: int|
                    0 <= j < k && in_range_scaled(
                        crate::path::ti(point),
                        spec_center(#[trigger] self.chokes@[j]),
                        range as int,
                    ) ==> r@.contains(j as usize),
            decreases self.chokes@.len() - k,
        {
            let ck = self.chokes[k].center();
            let ghost r0 = r@;
            if within_scaled(point, ck, range) {
                r.push(k);
                proof {
                    assert(r@[r@.len() - 1] == k);
                    assert(r@.contains(k));
                }
            }
            proof {
                assert forall|j: int|
                    0 <= j < k + 1 && in_range_scaled(
                        crate::path::ti(point),
                        spec_center(#[trigger] self.chokes@[j]),
                        range as int,
                    ) implies r@.contains(j as usize) by {
                    if j < k {
                        let i = choose|i: int| 0 <= i < r0.len() && r0[i] == j as usize;
                        assert(r@[i] == r0[i]);
                    }
                }
            }
            k += 1;
        }
        r
    }
}

/// Midpoint of a choke's crossing segment (floor average).
pub open spec fn spec_center(ch: Choke) -> (int, int) {
    ((ch.a.0 + ch.b.0) as int / 2, (ch.a.1 + ch.b.1) as int / 2)
}

/// [`spec_center`] as coordinates of machine size (the midpoint of two
/// grid tiles always fits).
pub open spec fn spec_center_exec(ch: Choke) -> (usize, usize) {
    (((ch.a.0 + ch.b.0) as int / 2) as usize, ((ch.a.1 + ch.b.1) as int / 2) as usize)
}

/// Squared tile distance between two points of the grid.
pub(crate) fn sq_dist_exec(a: (usize, usize), b: (usize, usize)) -> (r: u64)
    requires
        a.0 <= crate::grid::MAX_DIM,
        a.1 <= crate::grid::MAX_DIM,
        b.0 <= crate::grid::MAX_DIM,
        b.1 <= crate::grid::MAX_DIM,
    ensures
        r as int == crate::path::spec_sq_dist(crate::path::ti(a), crate::path::ti(b)),
        r <= 0x2000_0000,
{
    let dx = if a.0 >= b.0 {
        (a.0 - b.0) as u64
    } else {
        (b.0 - a.0) as u64
    };
    let dy = if a.1 >= b.1 {
        (a.1 - b.1) as u64
    } else {
        (b.1 - a.1) as u64
    };
    proof {
        assert(dx * dx + dy * dy <= 0x2000_0000 && (dx as int) * (dx as int) + (dy as int) * (dy
            as int) == crate::path::spec_sq_dist(crate::path::ti(a), crate::path::ti(b)))
            by (nonlinear_arith)
            requires
                dx <= 16384,
                dy <= 16384,
                dx as int == if a.0 >= b.0 { a.0 - b.0 } else { b.0 - a.0 },
                dy as int == if a.1 >= b.1 { a.1 - b.1 } else { b.1 - a.1 },
        ;
    }
    dx * dx + dy * dy
}

/// Some recorded choke's crossing-segment midpoint lies within the merge
/// distance of the tile `(x, y)`.
pub open spec fn near_choke(chs: Seq<Choke>, x: int, y: int) -> bool {
    exists|k: int|
        0 <= k < chs.len() && crate::path::spec_sq_dist((x, y), spec_center(#[trigger] chs[k]))
            <= CHOKE_MERGE_SQ
}

/// A choke within the merge distance of `(x, y)` is already recorded.
fn near_existing(found: &Vec<Choke>, w: usize, h: usize, x: usize, y: usize) -> (r: bool)
    requires
        x < w <= crate::grid::MAX_DIM,
        y < h <= crate::grid::MAX_DIM,
        forall|k: int|
            0 <= k < found@.len() ==> (#[trigger] found@[k]).a.0 < w && found@[k].a.1 < h
                && found@[k].b.0 < w && found@[k].b.1 < h,
    ensures
        r == near_choke(found@, x as int, y as int),
{
    let mut k: usize = 0;
    while k < found.len()
        invariant
            x < w <= crate::grid::MAX_DIM,
            y < h <= crate::grid::MAX_DIM,
            0 <= k <= found@.len(),
            forall|i: int|
                0 <= i < found@.len() ==> (#[trigger] found@[i]).a.0 < w && found@[i].a.1 < h
                    && found@[i].b.0 < w && found@[i].b.1 < h,
            forall|i: int|
                0 <= i < k ==> crate::path::spec_sq_dist(
                    (x as int, y as int),
                    spec_center(#[trigger] found@[i]),
                ) > CHOKE_MERGE_SQ,
        decreases found@.len() - k,
    {
        let c = found[k].center();
        proof {
            assert(c == (spec_center(found@[k as int]).0 as usize, spec_center(
                found@[k as int],
            ).1 as usize));
        }
        if sq_dist_exec((x, y), c) <= CHOKE_MERGE_SQ {
            return true;
        }
        k += 1;
    }
    false
}

} // verus!
