//! Multi-observer visibility: per-tile sight/detection levels accumulated
//! from observer circles, rebuilt every query cycle.

use vstd::prelude::*;

verus! {

/// Tile level marking an unseen tile.
pub const VISION_NONE: u8 = 0;

/// Tile level marking a seen tile.
pub const VISION_SEEN: u8 = 1;

/// Tile level marking a tile covered by a detector.
pub const VISION_DETECTED: u8 = 2;

/// Observer descriptor supplied per query cycle: position, sight radius
/// in tiles, and flags for detection and flight.
#[derive(Debug, Clone, Copy, PartialEq, Eq)]
pub struct VisionUnit {
    /// The observer also reveals cloaked/burrowed units it covers.
    pub detector: bool,
    /// The observer is airborne (carried for callers; does not change
    /// which tiles the circle covers).
    pub flying: bool,
    /// Tile the observer stands on.
    pub position: (usize, usize),
    /// Sight radius in tiles.
    pub sight_range: u64,
}

impl VisionUnit {
    /// Builds an observer descriptor.
    pub fn new(flying: bool, detector: bool, position: (usize, usize), sight_range: u64) -> (r:
        VisionUnit)
        ensures
            r == (VisionUnit { detector, flying, position, sight_range }),
    {
        VisionUnit { detector, flying, position, sight_range }
    }

    /// The observer's sight circle covers the tile: squared distance in
    /// tiles is at most the squared sight radius.
    pub open spec fn covers(self, x: int, y: int) -> bool {
        let dx = self.position.0 - x;
        let dy = self.position.1 - y;
        dx * dx + dy * dy <= self.sight_range * self.sight_range
    }

    /// The visibility level this single observer contributes to the tile.
    pub open spec fn contribution(self, x: int, y: int) -> u8 {
        if self.covers(x, y) {
            if self.detector {
                VISION_DETECTED
            } else {
                VISION_SEEN
            }
        } else {
            VISION_NONE
        }
    }
}

/// The visibility level of a tile under a set of observers: the maximum
/// level any single observer contributes, so accumulation order cannot
/// matter.
pub open spec fn spec_level(units: Seq<VisionUnit>, x: int, y: int) -> u8 {
    if exists|i: int| 0 <= i < units.len() && (#[trigger] units[i]).covers(x, y)
        && units[i].detector {
        VISION_DETECTED
    } else if exists|i: int| 0 <= i < units.len() && (#[trigger] units[i]).covers(x, y) {
        VISION_SEEN
    } else {
        VISION_NONE
    }
}

/// The level of a tile never lies below any single observer's
/// contribution, and a nonzero level is some observer's contribution:
/// the field is the pointwise maximum over the observers.
pub proof fn lemma_level_is_max(units: Seq<VisionUnit>, x: int, y: int)
    ensures
        forall|i: int|
            0 <= i < units.len() ==> spec_level(units, x, y) >= (#[trigger] units[i]).contribution(
                x,
                y,
            ),
        spec_level(units, x, y) != VISION_NONE ==> exists|i: int|
            0 <= i < units.len() && (#[trigger] units[i]).contribution(x, y) == spec_level(
                units,
                x,
                y,
            ),
{
}

/// Law: the visibility level of a tile depends only on which observers
/// were accumulated, never on their order.
pub proof fn lemma_vision_order_independent(
    us1: Seq<VisionUnit>,
    us2: Seq<VisionUnit>,
    x: int,
    y: int,
)
    requires
        us1.to_multiset() == us2.to_multiset(),
    ensures
        spec_level(us1, x, y) == spec_level(us2, x, y),
{
    broadcast use vstd::seq_lib::group_to_multiset_ensures;

    assert forall|i: int|
        0 <= i < us1.len() && (#[trigger] us1[i]).covers(x, y) implies exists|j: int|
        0 <= j < us2.len() && (#[trigger] us2[j]) == us1[i] by {
        assert(us1.contains(us1[i]));
        assert(us1.to_multiset().count(us1[i]) > 0);
        assert(us2.contains(us1[i]));
    }
    assert forall|i: int|
        0 <= i < us2.len() && (#[trigger] us2[i]).covers(x, y) implies exists|j: int|
        0 <= j < us1.len() && (#[trigger] us1[j]) == us2[i] by {
        assert(us2.contains(us2[i]));
        assert(us2.to_multiset().count(us2[i]) > 0);
        assert(us1.contains(us2[i]));
    }
}

/// Law: accumulating one more observer merges by maximum — the tile
/// rises to the observer's contribution when that is higher and is never
/// lowered, so repeating an observer changes nothing.
pub proof fn lemma_level_push(units: Seq<VisionUnit>, u: VisionUnit, x: int, y: int)
    ensures
        spec_level(units.push(u), x, y) == (if u.contribution(x, y) >= spec_level(units, x, y) {
            u.contribution(x, y)
        } else {
            spec_level(units, x, y)
        }),
{
    let us2 = units.push(u);
    assert(us2[us2.len() - 1] == u);
    assert forall|i: int| 0 <= i < units.len() implies #[trigger] us2[i] == units[i] by {}
    if exists|i: int|
        0 <= i < units.len() && (#[trigger] units[i]).covers(x, y) && units[i].detector {
        let i = choose|i: int|
            0 <= i < units.len() && (#[trigger] units[i]).covers(x, y) && units[i].detector;
        assert(us2[i] == units[i]);
    } else if exists|i: int| 0 <= i < units.len() && (#[trigger] units[i]).covers(x, y) {
        let i = choose|i: int| 0 <= i < units.len() && (#[trigger] units[i]).covers(x, y);
        assert(us2[i] == units[i]);
        if exists|j: int| 0 <= j < us2.len() && (#[trigger] us2[j]).covers(x, y) && us2[j].detector {
            let j = choose|j: int|
                0 <= j < us2.len() && (#[trigger] us2[j]).covers(x, y) && us2[j].detector;
            assert(j == us2.len() - 1);
        }
    } else {
        if exists|j: int| 0 <= j < us2.len() && (#[trigger] us2[j]).covers(x, y) && us2[j].detector {
            let j = choose|j: int|
                0 <= j < us2.len() && (#[trigger] us2[j]).covers(x, y) && us2[j].detector;
            assert(j == us2.len() - 1);
        }
        if exists|j: int| 0 <= j < us2.len() && (#[trigger] us2[j]).covers(x, y) {
            let j = choose|j: int| 0 <= j < us2.len() && (#[trigger] us2[j]).covers(x, y);
            assert(j == us2.len() - 1);
        }
    }
}

/// Both coordinates are multiples of the sampling stride.
pub open spec fn on_lattice(spacing: int, x: int, y: int) -> bool {
    x % spacing == 0 && y % spacing == 0
}

/// Some sample entry sits on the tile `(x, y)`.
pub open spec fn sampled_at(s: Seq<(usize, usize, u8)>, x: int, y: int) -> bool {
    exists|k: int| 0 <= k < s.len() && (#[trigger] s[k]).0 == x && s[k].1 == y
}

impl crate::grid::GameMap {
    /// Starts a new visibility cycle: every tile level returns to 0 and
    /// the accumulated observers are dropped.
    pub fn clear_vision(&mut self)
        requires
            old(self).wf(),
        ensures
            final(self).wf(),
            final(self).same_terrain(*old(self)),
            final(self).vision_units@.len() == 0,
            forall|x: int, y: int|
                0 <= x < final(self).width && 0 <= y < final(self).height
                    ==> #[trigger] final(self).vision@[x]@[y] == VISION_NONE,
    {
        let w = self.width;
        let h = self.height;
        self.vision = crate::grid::zero_grid_u8(w, h);
        self.vision_units = Vec::new();
    }

    /// Accumulates one observer into the current cycle; the field itself
    /// is recomputed by [`Self::calculate_vision_map`].
    pub fn add_vision_unit(&mut self, unit: VisionUnit)
        requires
            old(self).wf(),
            unit.position.0 <= crate::grid::MAX_DIM,
            unit.position.1 <= crate::grid::MAX_DIM,
        ensures
            final(self).wf(),
            final(self).same_terrain(*old(self)),
            final(self).vision@ == old(self).vision@,
            final(self).vision_units@ == old(self).vision_units@.push(unit),
    {
        self.vision_units.push(unit);
    }

    /// Finalizes the cycle: recomputes every tile's level as the maximum
    /// contribution of the accumulated observers, so accumulation order
    /// cannot matter and repeating an observer changes nothing.
    pub fn calculate_vision_map(&mut self)
        requires
            old(self).wf(),
        ensures
            final(self).wf(),
            final(self).same_terrain(*old(self)),
            final(self).vision_units@ == old(self).vision_units@,
            forall|x: int, y: int|
                0 <= x < final(self).width && 0 <= y < final(self).height
                    ==> #[trigger] final(self).vision@[x]@[y] == spec_level(
                    old(self).vision_units@,
                    x,
                    y,
                ),
    {
        let w = self.width;
        let h = self.height;
        let mut vis = crate::grid::zero_grid_u8(w, h);
        proof {
            assert(self.vision_units@.take(0) =~= Seq::<VisionUnit>::empty());
            assert forall|x: int, y: int| 0 <= x < w && 0 <= y < h implies #[trigger] vis@[x]@[y]
                == spec_level(self.vision_units@.take(0), x, y) by {}
        }
        let mut i: usize = 0;
        while i < self.vision_units.len()
            invariant
                self.wf(),
                w == self.width,
                h == self.height,
                i <= self.vision_units@.len(),
                vis@.len() == w,
                forall|x: int| 0 <= x < w ==> (#[trigger] vis@[x])@.len() == h,
                forall|x: int, y: int|
                    0 <= x < w && 0 <= y < h ==> #[trigger] vis@[x]@[y] == spec_level(
                        self.vision_units@.take(i as int),
                        x,
                        y,
                    ),
            decreases self.vision_units@.len() - i,
        {
            let u = self.vision_units[i];
            accumulate_unit(&mut vis, u, w, h);
            proof {
                let us = self.vision_units@;
                assert(us.take(i + 1) =~= us.take(i as int).push(us[i as int]));
                assert forall|x: int, y: int|
                    0 <= x < w && 0 <= y < h implies #[trigger] vis@[x]@[y] == spec_level(
                    us.take(i + 1),
                    x,
                    y,
                ) by {
                    lemma_level_push(us.take(i as int), u, x, y);
                }
            }
            i += 1;
        }
        proof {
            assert(self.vision_units@.take(self.vision_units@.len() as int)
                =~= self.vision_units@);
        }
        self.vision = vis;
    }

    /// Finalized level of the tile containing the point; `None` marks a
    /// point off the grid, which callers must treat as unknown.
    pub fn vision_status(&self, point: (usize, usize)) -> (r: Option<u8>)
        requires
            self.wf(),
        ensures
            r == if 0 <= point.0 < self.width && 0 <= point.1 < self.height {
                Some(self.vision@[point.0 as int]@[point.1 as int])
            } else {
                None::<u8>
            },
    {
        if point.0 < self.width && point.1 < self.height {
            Some(self.vision[point.0][point.1])
        } else {
            None
        }
    }

    /// Batch sample of the visibility field at the given tile spacing:
    /// the entries are exactly the tiles of the stride lattice, each with
    /// its level.
    pub fn sample_vision(&self, spacing: usize) -> (r: Vec<(usize, usize, u8)>)
        requires
            self.wf(),
            1 <= spacing <= crate::grid::MAX_DIM,
        ensures
            forall|k: int|
                0 <= k < r@.len() ==> (#[trigger] r@[k]).0 < self.width && r@[k].1 < self.height
                    && r@[k].2 == self.vision@[r@[k].0 as int]@[r@[k].1 as int] && on_lattice(
                    spacing as int,
                    r@[k].0 as int,
                    r@[k].1 as int,
                ),
            forall|a: int, b: int|
                0 <= a < self.width && 0 <= b < self.height && #[trigger] on_lattice(
                    spacing as int,
                    a,
                    b,
                ) ==> sampled_at(r@, a, b),
    {
        let w = self.width;
        let h = self.height;
        let mut r: Vec<(usize, usize, u8)> = Vec::new();
        let mut x: usize = 0;
        while x < w
            invariant
                self.wf(),
                w == self.width,
                h == self.height,
                1 <= spacing <= crate::grid::MAX_DIM,
                (x as int) % (spacing as int) == 0,
                forall|k: int|
                    0 <= k < r@.len() ==> (#[trigger] r@[k]).0 < w && r@[k].1 < h && r@[k].2
                        == self.vision@[r@[k].0 as int]@[r@[k].1 as int] && on_lattice(
                        spacing as int,
                        r@[k].0 as int,
                        r@[k].1 as int,
                    ),
                forall|a: int, b: int|
                    0 <= a < w && 0 <= b < h && #[trigger] on_lattice(spacing as int, a, b) && a
                        < x ==> sampled_at(r@, a, b),
            decreases w + spacing - x,
        {
            let mut y: usize = 0;
            while y < h
                invariant
                    self.wf(),
                    w == self.width,
                    h == self.height,
                    1 <= spacing <= crate::grid::MAX_DIM,
                    0 <= x < w,
                    (x as int) % (spacing as int) == 0,
                    (y as int) % (spacing as int) == 0,
                    forall|k: int|
                        0 <= k < r@.len() ==> (#[trigger] r@[k]).0 < w && r@[k].1 < h && r@[k].2
                            == self.vision@[r@[k].0 as int]@[r@[k].1 as int] && on_lattice(
                            spacing as int,
                            r@[k].0 as int,
                            r@[k].1 as int,
                        ),
                    forall|a: int, b: int|
                        0 <= a < w && 0 <= b < h && #[trigger] on_lattice(spacing as int, a, b)
                            && a < x ==> sampled_at(r@, a, b),
                    forall|b: int|
                        0 <= b < h && #[trigger] on_lattice(spacing as int, x as int, b) && b < y
                            ==> sampled_at(r@, x as int, b),
                decreases h + spacing - y,
            {
                let ghost rb = r@;
                r.push((x, y, self.vision[x][y]));
                proof {
                    let rv = r@;
                    assert(rv[rv.len() - 1] == (x, y, self.vision@[x as int]@[y as int]));
                    assert(((y as int) + spacing) % (spacing as int) == 0) by (nonlinear_arith)
                        requires
                            spacing >= 1,
                            (y as int) % (spacing as int) == 0,
                    ;
                    assert forall|a: int, b: int|
                        0 <= a < w && 0 <= b < h && #[trigger] on_lattice(spacing as int, a, b)
                            && a < x implies sampled_at(rv, a, b) by {
                        assert(sampled_at(rb, a, b));
                        let k = choose|k: int|
                            0 <= k < rb.len() && (#[trigger] rb[k]).0 == a && rb[k].1 == b;
                        assert(rv[k] == rb[k]);
                    }
                    assert forall|b: int|
                        0 <= b < h && #[trigger] on_lattice(spacing as int, x as int, b) && b < y
                            + spacing implies sampled_at(rv, x as int, b) by {
                        if b < y {
                            assert(sampled_at(rb, x as int, b));
                            let k = choose|k: int|
                                0 <= k < rb.len() && (#[trigger] rb[k]).0 == x as int && rb[k].1
                                    == b;
                            assert(rv[k] == rb[k]);
                        } else if b == y as int {
                            assert(rv[rv.len() - 1].0 == x as int && rv[rv.len() - 1].1 == b);
                        } else {
                            assert(false) by (nonlinear_arith)
                                requires
                                    spacing >= 1,
                                    (y as int) % (spacing as int) == 0,
                                    b % (spacing as int) == 0,
                                    y < b,
                                    b < y + spacing,
                                    0 <= y,
                            ;
                        }
                    }
                }
                y += spacing;
            }
            proof {
                assert(((x as int) + spacing) % (spacing as int) == 0) by (nonlinear_arith)
                    requires
                        spacing >= 1,
                        (x as int) % (spacing as int) == 0,
                ;
                let rv = r@;
                assert forall|a: int, b: int|
                    0 <= a < w && 0 <= b < h && #[trigger] on_lattice(spacing as int, a, b) && a
                        < x + spacing implies sampled_at(rv, a, b) by {
                    if a < x {
                    } else if a == x as int {
                    } else {
                        assert(false) by (nonlinear_arith)
                            requires
                                spacing >= 1,
                                (x as int) % (spacing as int) == 0,
                                a % (spacing as int) == 0,
                                x < a,
                                a < x + spacing,
                                0 <= x,
                        ;
                    }
                }
            }
            x += spacing;
        }
        r
    }

    /// Every unseen (level 0) tile within `radius` tiles of the point:
    /// the fog-of-war set around the point.
    pub fn fog_tiles(&self, point: (usize, usize), radius: u64) -> (r: Vec<(usize, usize)>)
        requires
            self.wf(),
            point.0 <= crate::grid::MAX_DIM,
            point.1 <= crate::grid::MAX_DIM,
        ensures
            forall|k: int|
                0 <= k < r@.len() ==> (#[trigger] r@[k]).0 < self.width && r@[k].1 < self.height
                    && self.vision@[r@[k].0 as int]@[r@[k].1 as int] == VISION_NONE
                    && crate::path::spec_sq_dist(crate::path::ti(point), crate::path::ti(r@[k]))
                    <= radius * radius,
            forall|x: int, y: int|
                0 <= x < self.width && 0 <= y < self.height && #[trigger] self.vision@[x]@[y]
                    == VISION_NONE && crate::path::spec_sq_dist(crate::path::ti(point), (x, y))
                    <= radius * radius ==> exists|k: int|
                    0 <= k < r@.len() && (#[trigger] r@[k]).0 == x && r@[k].1 == y,
    {
        let w = self.width;
        let h = self.height;
        let mut r: Vec<(usize, usize)> = Vec::new();
        let mut x: usize = 0;
        while x < w
            invariant
                self.wf(),
                w == self.width,
                h == self.height,
                point.0 <= crate::grid::MAX_DIM,
                point.1 <= crate::grid::MAX_DIM,
                0 <= x <= w,
                forall|k: int|
                    0 <= k < r@.len() ==> (#[trigger] r@[k]).0 < w && r@[k].1 < h
                        && self.vision@[r@[k].0 as int]@[r@[k].1 as int] == VISION_NONE
                        && crate::path::spec_sq_dist(
                        crate::path::ti(point),
                        crate::path::ti(r@[k]),
                    ) <= radius * radius,
                forall|a: int, b: int|
                    0 <= a < x && 0 <= b < h && #[trigger] self.vision@[a]@[b] == VISION_NONE
                        && crate::path::spec_sq_dist(crate::path::ti(point), (a, b)) <= radius
                        * radius ==> exists|k: int|
                        0 <= k < r@.len() && (#[trigger] r@[k]).0 == a && r@[k].1 == b,
            decreases w - x,
        {
            let mut y: usize = 0;
            while y < h
                invariant
                    self.wf(),
                    w == self.width,
                    h == self.height,
                    point.0 <= crate::grid::MAX_DIM,
                    point.1 <= crate::grid::MAX_DIM,
                    0 <= x < w,
                    0 <= y <= h,
                    forall|k: int|
                        0 <= k < r@.len() ==> (#[trigger] r@[k]).0 < w && r@[k].1 < h
                            && self.vision@[r@[k].0 as int]@[r@[k].1 as int] == VISION_NONE
                            && crate::path::spec_sq_dist(
                            crate::path::ti(point),
                            crate::path::ti(r@[k]),
                        ) <= radius * radius,
                    forall|a: int, b: int|
                        0 <= a < x && 0 <= b < h && #[trigger] self.vision@[a]@[b] == VISION_NONE
                            && crate::path::spec_sq_dist(crate::path::ti(point), (a, b)) <= radius
                            * radius ==> exists|k: int|
                            0 <= k < r@.len() && (#[trigger] r@[k]).0 == a && r@[k].1 == b,
                    forall|b: int|
                        0 <= b < y && #[trigger] self.vision@[x as int]@[b] == VISION_NONE
                            && crate::path::spec_sq_dist(crate::path::ti(point), (x as int, b))
                            <= radius * radius ==> exists|k: int|
                            0 <= k < r@.len() && (#[trigger] r@[k]).0 == x as int && r@[k].1 == b,
                decreases h - y,
            {
                let ghost rb = r@;
                let unseen = self.vision[x][y] == 0;
                let inside = in_circle(point, radius, x, y);
                if unseen && inside {
                    r.push((x, y));
                }
                proof {
                    let rv = r@;
                    let rr = (radius * radius) as int;
                    let p_ = crate::path::ti(point);
                    assert forall|a: int, b: int|
                        0 <= a < x && 0 <= b < h && #[trigger] self.vision@[a]@[b] == VISION_NONE
                            && crate::path::spec_sq_dist(p_, (a, b)) <= rr implies exists|k: int|
                        0 <= k < rv.len() && (#[trigger] rv[k]).0 == a && rv[k].1 == b by {
                        let k = choose|k: int|
                            0 <= k < rb.len() && (#[trigger] rb[k]).0 == a && rb[k].1 == b;
                        assert(rv[k] == rb[k]);
                    }
                    assert forall|b: int|
                        0 <= b < y + 1 && #[trigger] self.vision@[x as int]@[b] == VISION_NONE
                            && crate::path::spec_sq_dist(p_, (x as int, b))
                            <= rr implies exists|k: int|
                        0 <= k < rv.len() && (#[trigger] rv[k]).0 == x as int && rv[k].1 == b by {
                        if b < y {
                            let k = choose|k: int|
                                0 <= k < rb.len() && (#[trigger] rb[k]).0 == x as int && rb[k].1
                                    == b;
                            assert(rv[k] == rb[k]);
                        } else {
                            assert(unseen && inside);
                            assert(rv[rv.len() - 1] == (x, y));
                        }
                    }
                }
                y += 1;
            }
            x += 1;
        }
        r
    }
}

/// Squared-distance circle test: the tile `(x, y)` lies within `radius`
/// tiles of `center`.
pub(crate) fn in_circle(center: (usize, usize), radius: u64, x: usize, y: usize) -> (r: bool)
    requires
        center.0 <= crate::grid::MAX_DIM,
        center.1 <= crate::grid::MAX_DIM,
        x <= crate::grid::MAX_DIM,
        y <= crate::grid::MAX_DIM,
    ensures
        r == (crate::path::spec_sq_dist(crate::path::ti(center), (x as int, y as int)) <= radius
            * radius),
{
    let dx = if center.0 >= x {
        (center.0 - x) as u64
    } else {
        (x - center.0) as u64
    };
    let dy = if center.1 >= y {
        (center.1 - y) as u64
    } else {
        (y - center.1) as u64
    };
    proof {
        assert(dx * dx + dy * dy <= 0x2000_0000 && (dx as int) * (dx as int) + (dy as int) * (dy
            as int) == crate::path::spec_sq_dist(crate::path::ti(center), (x as int, y as int)))
            by (nonlinear_arith)
            requires
                dx <= 16384,
                dy <= 16384,
                dx as int == if center.0 >= x {
                    center.0 - x
                } else {
                    x - center.0
                },
                dy as int == if center.1 >= y {
                    center.1 - y
                } else {
                    y - center.1
                },
        ;
        assert((radius * radius) as int == (radius as int) * (radius as int)) by (nonlinear_arith);
    }
    proof {
        assert((radius as int) * (radius as int) <= 0xFFFF_FFFF_FFFF_FFFE_0000_0000_0000_0001)
            by (nonlinear_arith)
            requires
                radius <= 0xFFFF_FFFF_FFFF_FFFFu64,
        ;
    }
    let d2: u128 = (dx * dx + dy * dy) as u128;
    let r2: u128 = (radius as u128) * (radius as u128);
    d2 <= r2
}

/// Raises each tile covered by the observer to at least the observer's
/// contribution; no tile's level drops.
fn accumulate_unit(vis: &mut Vec<Vec<u8>>, u: VisionUnit, w: usize, h: usize)
    requires
        old(vis)@.len() == w,
        forall|x: int| 0 <= x < w ==> (#[trigger] old(vis)@[x])@.len() == h,
        w <= crate::grid::MAX_DIM,
        h <= crate::grid::MAX_DIM,
        u.position.0 <= crate::grid::MAX_DIM,
        u.position.1 <= crate::grid::MAX_DIM,
    ensures
        final(vis)@.len() == w,
        forall|x: int| 0 <= x < w ==> (#[trigger] final(vis)@[x])@.len() == h,
        forall|x: int, y: int|
            0 <= x < w && 0 <= y < h ==> #[trigger] final(vis)@[x]@[y] == (if u.contribution(x, y)
                >= old(vis)@[x]@[y] {
                u.contribution(x, y)
            } else {
                old(vis)@[x]@[y]
            }),
{
    let lvl: u8 = if u.detector {
        VISION_DETECTED
    } else {
        VISION_SEEN
    };
    let ghost v0 = vis@;
    let mut x: usize = 0;
    while x < w
        invariant
            vis@.len() == w,
            forall|i: int| 0 <= i < w ==> (#[trigger] vis@[i])@.len() == h,
            w <= crate::grid::MAX_DIM,
            h <= crate::grid::MAX_DIM,
            u.position.0 <= crate::grid::MAX_DIM,
            u.position.1 <= crate::grid::MAX_DIM,
            lvl == if u.detector {
                VISION_DETECTED
            } else {
                VISION_SEEN
            },
            0 <= x <= w,
            forall|a: int, b: int|
                0 <= a < x && 0 <= b < h ==> #[trigger] vis@[a]@[b] == (if u.contribution(a, b)
                    >= v0[a]@[b] {
                    u.contribution(a, b)
                } else {
                    v0[a]@[b]
                }),
            forall|a: int, b: int|
                x <= a < w && 0 <= b < h ==> #[trigger] vis@[a]@[b] == v0[a]@[b],
        decreases w - x,
    {
        let mut y: usize = 0;
        while y < h
            invariant
                vis@.len() == w,
                forall|i: int| 0 <= i < w ==> (#[trigger] vis@[i])@.len() == h,
                w <= crate::grid::MAX_DIM,
                h <= crate::grid::MAX_DIM,
                u.position.0 <= crate::grid::MAX_DIM,
                u.position.1 <= crate::grid::MAX_DIM,
                lvl == if u.detector {
                    VISION_DETECTED
                } else {
                    VISION_SEEN
                },
                0 <= x < w,
                0 <= y <= h,
                forall|a: int, b: int|
                    0 <= a < x && 0 <= b < h ==> #[trigger] vis@[a]@[b] == (if u.contribution(a, b)
                        >= v0[a]@[b] {
                        u.contribution(a, b)
                    } else {
                        v0[a]@[b]
                    }),
                forall|b: int|
                    0 <= b < y ==> #[trigger] vis@[x as int]@[b] == (if u.contribution(x as int, b)
                        >= v0[x as int]@[b] {
                        u.contribution(x as int, b)
                    } else {
                        v0[x as int]@[b]
                    }),
                forall|b: int| y <= b < h ==> #[trigger] vis@[x as int]@[b] == v0[x as int]@[b],
                forall|a: int, b: int|
                    x < a < w && 0 <= b < h ==> #[trigger] vis@[a]@[b] == v0[a]@[b],
            decreases h - y,
        {
            if in_circle(u.position, u.sight_range, x, y) {
                if vis[x][y] < lvl {
                    vis[x][y] = lvl;
                }
            }
            y += 1;
        }
        x += 1;
    }
}

} // verus!
