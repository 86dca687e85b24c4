//! Zone segmentation: breadth-first flood fill from each seed across
//! walkable tiles, one zone id per connected component. Two labeled tiles
//! carry the same id exactly when a walkable path joins them; tiles no
//! seed reaches keep the sentinel id 0.

use vstd::prelude::*;

verus! {

use crate::grid::{grid_wf, GameMap, MAX_DIM};
use crate::path::{allowed_tile, gdims, in_frontier, scfg, spec_sq_dist, ti};
use crate::reach::{adj8, connected, SearchCfg};

/// The configuration zone flood fills search under: the whole pathing
/// grid, no clearance.
pub open spec fn zone_cfg(m: GameMap) -> SearchCfg {
    scfg(m.ground_pathing.map@, 0, 0, 0, m.width as int, m.height as int)
}

/// The tile exists and carries the zone label `zid`.
pub(crate) open spec fn zoned_at(
    z: Seq<Vec<usize>>,
    zid: usize,
    w: int,
    h: int,
    x: int,
    y: int,
) -> bool {
    0 <= x < w && 0 <= y < h && z[x]@[y] == zid
}

/// Each allowed 8-neighbour of `(x, y)` already carries the label `zid`.
pub(crate) open spec fn znbrs(
    c: SearchCfg,
    z: Seq<Vec<usize>>,
    zid: usize,
    w: int,
    h: int,
    x: int,
    y: int,
) -> bool {
    &&& c.ok((x - 1, y - 1)) ==> zoned_at(z, zid, w, h, x - 1, y - 1)
    &&& c.ok((x - 1, y)) ==> zoned_at(z, zid, w, h, x - 1, y)
    &&& c.ok((x - 1, y + 1)) ==> zoned_at(z, zid, w, h, x - 1, y + 1)
    &&& c.ok((x, y - 1)) ==> zoned_at(z, zid, w, h, x, y - 1)
    &&& c.ok((x, y + 1)) ==> zoned_at(z, zid, w, h, x, y + 1)
    &&& c.ok((x + 1, y - 1)) ==> zoned_at(z, zid, w, h, x + 1, y - 1)
    &&& c.ok((x + 1, y)) ==> zoned_at(z, zid, w, h, x + 1, y)
    &&& c.ok((x + 1, y + 1)) ==> zoned_at(z, zid, w, h, x + 1, y + 1)
}

/// The set of tiles labeled `zid`.
pub(crate) open spec fn zset(z: Seq<Vec<usize>>, zid: usize, w: int, h: int) -> Set<(int, int)> {
    Set::new(|t: (int, int)| 0 <= t.0 < w && 0 <= t.1 < h && z[t.0]@[t.1] == zid)
}

/// Invariant of one flood fill: labeled-`zid` tiles are exactly allowed
/// tiles reachable from the seed discovered so far, every other tile is
/// untouched, and the count matches the labeled set.
pub(crate) open spec fn flood_inv(
    c: SearchCfg,
    seed: (usize, usize),
    zid: usize,
    w: int,
    h: int,
    z0: Seq<Vec<usize>>,
    z: Seq<Vec<usize>>,
    f: Seq<(usize, usize)>,
    nd: int,
) -> bool {
    &&& gdims(z, w, h)
    &&& seed.0 < w
    &&& seed.1 < h
    &&& c.ok(ti(seed))
    &&& z[seed.0 as int]@[seed.1 as int] == zid
    &&& forall|x: int, y: int|
        0 <= x < w && 0 <= y < h && (#[trigger] z[x]@[y]) == zid ==> c.ok((x, y)) && connected(
            c,
            ti(seed),
            (x, y),
        )
    &&& forall|x: int, y: int|
        0 <= x < w && 0 <= y < h && (#[trigger] z[x]@[y]) != zid ==> z[x]@[y] == z0[x]@[y]
    &&& forall|k: int|
        0 <= k < f.len() ==> (#[trigger] f[k]).0 < w && f[k].1 < h
            && z[f[k].0 as int]@[f[k].1 as int] == zid
    &&& forall|x: int, y: int|
        0 <= x < w && 0 <= y < h && (#[trigger] z[x]@[y]) == zid && !in_frontier(f, x, y)
            ==> znbrs(c, z, zid, w, h, x, y)
    &&& zset(z, zid, w, h).len() == nd
    &&& nd <= w * h
}

/// Offers one neighbour to a flood fill: labels it and queues it when it
/// is allowed and not yet labeled.
#[verifier::rlimit(100)]
fn try_flood(
    map: &Vec<Vec<u8>>,
    w: usize,
    h: usize,
    seed: (usize, usize),
    zid: usize,
    t: (usize, usize),
    n: (usize, usize),
    z0: Ghost<Seq<Vec<usize>>>,
    zones: &mut Vec<Vec<usize>>,
    frontier: &mut Vec<(usize, usize)>,
    nd: &mut usize,
    c: Ghost<SearchCfg>,
)
    requires
        c@ == scfg(map@, 0, 0, 0, w as int, h as int),
        grid_wf(map@, w as int, h as int),
        w <= MAX_DIM,
        h <= MAX_DIM,
        flood_inv(
            c@,
            seed,
            zid,
            w as int,
            h as int,
            z0@,
            old(zones)@,
            old(frontier)@.push(t),
            *old(nd) as int,
        ),
        t.0 < w,
        t.1 < h,
        old(zones)@[t.0 as int]@[t.1 as int] == zid,
        n.0 < w,
        n.1 < h,
        adj8(ti(t), ti(n)),
    ensures
        flood_inv(
            c@,
            seed,
            zid,
            w as int,
            h as int,
            z0@,
            final(zones)@,
            final(frontier)@.push(t),
            *final(nd) as int,
        ),
        forall|x: int, y: int|
            0 <= x < w && 0 <= y < h && old(zones)@[x]@[y] == zid ==> final(zones)@[x]@[y] == zid,
        c@.ok(ti(n)) ==> final(zones)@[n.0 as int]@[n.1 as int] == zid,
        *old(nd) <= *final(nd),
        *final(nd) == *old(nd) ==> final(frontier)@ == old(frontier)@ && final(zones)@ == old(
            zones,
        )@,
{
    let ghost w_ = w as int;
    let ghost h_ = h as int;
    if !allowed_tile(map, 0, 0, 0, w, h, n.0, n.1) {
        return ;
    }
    if zones[n.0][n.1] == zid {
        return ;
    }
    proof {
        crate::reach::lemma_rect_tiles_len(w_, h_);
        assert(zset(zones@, zid, w_, h_).subset_of(crate::reach::rect_tiles(w_, h_)));
        vstd::set_lib::lemma_len_subset(
            zset(zones@, zid, w_, h_),
            crate::reach::rect_tiles(w_, h_),
        );
        assert(zset(zones@, zid, w_, h_).insert(ti(n)).subset_of(
            crate::reach::rect_tiles(w_, h_),
        ));
        vstd::set_lib::lemma_len_subset(
            zset(zones@, zid, w_, h_).insert(ti(n)),
            crate::reach::rect_tiles(w_, h_),
        );
    }
    let ghost old_z = zones@;
    zones[n.0][n.1] = zid;
    frontier.push(n);
    proof {
        assert(connected(c@, ti(seed), ti(t)));
        crate::reach::lemma_connected_step(c@, ti(seed), ti(t), ti(n));
        assert(zset(zones@, zid, w_, h_) =~= zset(old_z, zid, w_, h_).insert(ti(n)));
        assert(!zset(old_z, zid, w_, h_).contains(ti(n)));
        assert(zset(zones@, zid, w_, h_).len() == *nd + 1);
        assert(w_ * h_ <= 0x1000_0000) by (nonlinear_arith)
            requires
                0 <= w_ <= 16384,
                0 <= h_ <= 16384,
        ;
    }
    *nd += 1;
    proof {
        let z2 = zones@;
        assert forall|x: int, y: int|
            0 <= x < w_ && 0 <= y < h_ && (#[trigger] z2[x]@[y]) == zid implies c@.ok((x, y))
            && connected(c@, ti(seed), (x, y)) by {
            if (x, y) != ti(n) {
                assert(old_z[x]@[y] == zid);
            }
        }
        assert forall|x: int, y: int|
            0 <= x < w_ && 0 <= y < h_ && (#[trigger] z2[x]@[y]) != zid implies z2[x]@[y]
            == z0@[x]@[y] by {
            assert((x, y) != ti(n));
            assert(old_z[x]@[y] == z2[x]@[y]);
        }
        let fb1 = old(frontier)@.push(t);
        let f2 = frontier@;
        assert forall|k: int|
            0 <= k < f2.push(t).len() implies (#[trigger] f2.push(t)[k]).0 < w_ && f2.push(
                t,
            )[k].1 < h_ && z2[f2.push(t)[k].0 as int]@[f2.push(t)[k].1 as int] == zid by {
            if k < f2.push(t).len() - 1 {
                if k < f2.len() - 1 {
                    assert(f2.push(t)[k] == fb1[k]);
                    assert(old_z[fb1[k].0 as int]@[fb1[k].1 as int] == zid);
                } else {
                    assert(f2.push(t)[k] == n);
                }
            } else {
                assert(f2.push(t)[k] == t);
            }
        }
        let fb2 = frontier@.push(t);
        let fb1 = old(frontier)@.push(t);
        let z2 = zones@;
        let n_ = ti(n);
        assert(frontier@[frontier@.len() - 1] == n);
        assert forall|x: int, y: int|
            0 <= x < w_ && 0 <= y < h_ && (#[trigger] z2[x]@[y]) == zid && !in_frontier(
                fb2,
                x,
                y,
            ) implies znbrs(c@, z2, zid, w_, h_, x, y) by {
            assert(fb2[fb2.len() - 1] == t);
            assert(fb2[fb2.len() - 2] == n);
            assert((x, y) != n_);
            assert(old_z[x]@[y] == zid);
            assert forall|k: int| 0 <= k < fb1.len() implies !((#[trigger] fb1[k]).0 == x
                && fb1[k].1 == y) by {
                if k < fb1.len() - 1 {
                    assert(fb2[k] == fb1[k]);
                } else {
                    assert(fb1[k] == t);
                    assert(fb2[fb2.len() - 1] == t);
                }
            }
            assert(!in_frontier(fb1, x, y));
            assert(znbrs(c@, old_z, zid, w_, h_, x, y));
            assert forall|a: int, b: int|
                zoned_at(old_z, zid, w_, h_, a, b) implies #[trigger] zoned_at(
                z2,
                zid,
                w_,
                h_,
                a,
                b,
            ) by {
                if (a, b) != n_ {
                    assert(z2[a]@[b] == old_z[a]@[b]);
                }
            }
        }
    }
}

/// Breadth-first flood fill: labels with `zid` exactly the tiles
/// reachable from `seed`, leaving every other tile untouched.
#[verifier::rlimit(100)]
fn flood_fill(
    map: &Vec<Vec<u8>>,
    w: usize,
    h: usize,
    seed: (usize, usize),
    zid: usize,
    zones: &mut Vec<Vec<usize>>,
    c: Ghost<SearchCfg>,
)
    requires
        c@ == scfg(map@, 0, 0, 0, w as int, h as int),
        grid_wf(map@, w as int, h as int),
        w <= MAX_DIM,
        h <= MAX_DIM,
        gdims(old(zones)@, w as int, h as int),
        seed.0 < w,
        seed.1 < h,
        c@.ok(ti(seed)),
        forall|x: int, y: int| 0 <= x < w && 0 <= y < h ==> (#[trigger] old(zones)@[x]@[y]) != zid,
    ensures
        gdims(final(zones)@, w as int, h as int),
        forall|x: int, y: int|
            0 <= x < w && 0 <= y < h ==> (#[trigger] final(zones)@[x]@[y]) == (
            if connected(c@, ti(seed), (x, y)) {
                zid
            } else {
                old(zones)@[x]@[y]
            }),
{
    let ghost w_ = w as int;
    let ghost h_ = h as int;
    let ghost z0 = zones@;
    let mut frontier: Vec<(usize, usize)> = Vec::new();
    let mut nd: usize = 1;
    zones[seed.0][seed.1] = zid;
    frontier.push(seed);
    proof {
        crate::reach::lemma_connected_refl(c@, ti(seed));
        crate::reach::lemma_rect_tiles_len(w_, h_);
        assert(zset(zones@, zid, w_, h_) =~= Set::empty().insert(ti(seed)));
        vstd::set_lib::lemma_len_subset(
            zset(zones@, zid, w_, h_),
            crate::reach::rect_tiles(w_, h_),
        );
        assert(frontier@[0] == seed);
        assert(in_frontier(frontier@, seed.0 as int, seed.1 as int));
    }
    while frontier.len() > 0
        invariant
            flood_inv(c@, seed, zid, w_, h_, z0, zones@, frontier@, nd as int),
            c@ == scfg(map@, 0, 0, 0, w_, h_),
            grid_wf(map@, w_, h_),
            w_ == w as int,
            h_ == h as int,
            w <= MAX_DIM,
            h <= MAX_DIM,
            forall|x: int, y: int| 0 <= x < w_ && 0 <= y < h_ ==> (#[trigger] z0[x]@[y]) != zid,
        decreases w * h - nd, frontier@.len(),
    {
        let ghost f1 = frontier@;
        let t_opt = frontier.pop();
        let t = match t_opt {
            Some(t) => t,
            None => {
                proof {
                    assert(false);
                }
                (0, 0)
            },
        };
        proof {
            assert(f1 =~= frontier@.push(t));
        }
        let ghost nd_at_pop = nd as int;
        let tx = t.0;
        let ty = t.1;
        if tx >= 1 {
            try_flood(map, w, h, seed, zid, t, (tx - 1, ty), Ghost(z0), zones, &mut frontier, &mut nd, c);
        }
        if tx + 1 < w {
            try_flood(map, w, h, seed, zid, t, (tx + 1, ty), Ghost(z0), zones, &mut frontier, &mut nd, c);
        }
        if ty >= 1 {
            try_flood(map, w, h, seed, zid, t, (tx, ty - 1), Ghost(z0), zones, &mut frontier, &mut nd, c);
        }
        if ty + 1 < h {
            try_flood(map, w, h, seed, zid, t, (tx, ty + 1), Ghost(z0), zones, &mut frontier, &mut nd, c);
        }
        if tx >= 1 && ty >= 1 {
            try_flood(map, w, h, seed, zid, t, (tx - 1, ty - 1), Ghost(z0), zones, &mut frontier, &mut nd, c);
        }
        if tx >= 1 && ty + 1 < h {
            try_flood(map, w, h, seed, zid, t, (tx - 1, ty + 1), Ghost(z0), zones, &mut frontier, &mut nd, c);
        }
        if tx + 1 < w && ty >= 1 {
            try_flood(map, w, h, seed, zid, t, (tx + 1, ty - 1), Ghost(z0), zones, &mut frontier, &mut nd, c);
        }
        if tx + 1 < w && ty + 1 < h {
            try_flood(map, w, h, seed, zid, t, (tx + 1, ty + 1), Ghost(z0), zones, &mut frontier, &mut nd, c);
        }
        proof {
            let x_ = tx as int;
            let y_ = ty as int;
            if tx == 0 {
                if c@.ok((x_ - 1, y_ - 1)) {
                    crate::reach::lemma_ok_in_grid(c@, (x_ - 1, y_ - 1));
                }
                if c@.ok((x_ - 1, y_)) {
                    crate::reach::lemma_ok_in_grid(c@, (x_ - 1, y_));
                }
                if c@.ok((x_ - 1, y_ + 1)) {
                    crate::reach::lemma_ok_in_grid(c@, (x_ - 1, y_ + 1));
                }
            }
            if tx + 1 >= w {
                if c@.ok((x_ + 1, y_ - 1)) {
                    crate::reach::lemma_ok_in_grid(c@, (x_ + 1, y_ - 1));
                }
                if c@.ok((x_ + 1, y_)) {
                    crate::reach::lemma_ok_in_grid(c@, (x_ + 1, y_));
                }
                if c@.ok((x_ + 1, y_ + 1)) {
                    crate::reach::lemma_ok_in_grid(c@, (x_ + 1, y_ + 1));
                }
            }
            if ty == 0 {
                if c@.ok((x_ - 1, y_ - 1)) {
                    crate::reach::lemma_ok_in_grid(c@, (x_ - 1, y_ - 1));
                }
                if c@.ok((x_, y_ - 1)) {
                    crate::reach::lemma_ok_in_grid(c@, (x_, y_ - 1));
                }
                if c@.ok((x_ + 1, y_ - 1)) {
                    crate::reach::lemma_ok_in_grid(c@, (x_ + 1, y_ - 1));
                }
            }
            if ty + 1 >= h {
                if c@.ok((x_ - 1, y_ + 1)) {
                    crate::reach::lemma_ok_in_grid(c@, (x_ - 1, y_ + 1));
                }
                if c@.ok((x_, y_ + 1)) {
                    crate::reach::lemma_ok_in_grid(c@, (x_, y_ + 1));
                }
                if c@.ok((x_ + 1, y_ + 1)) {
                    crate::reach::lemma_ok_in_grid(c@, (x_ + 1, y_ + 1));
                }
            }
            assert(znbrs(c@, zones@, zid, w_, h_, x_, y_));
            assert forall|k: int|
                0 <= k < frontier@.len() implies (#[trigger] frontier@[k]).0 < w_
                    && frontier@[k].1 < h_
                    && zones@[frontier@[k].0 as int]@[frontier@[k].1 as int] == zid by {
                assert(frontier@.push(t)[k] == frontier@[k]);
            }
            assert forall|x: int, y: int|
                0 <= x < w_ && 0 <= y < h_ && (#[trigger] zones@[x]@[y]) == zid && !in_frontier(
                    frontier@,
                    x,
                    y,
                ) implies znbrs(c@, zones@, zid, w_, h_, x, y) by {
                if (x, y) != (x_, y_) {
                    if in_frontier(frontier@.push(t), x, y) {
                        let k = choose|k: int|
                            0 <= k < frontier@.push(t).len() && (#[trigger] frontier@.push(
                                t,
                            )[k]).0 == x && frontier@.push(t)[k].1 == y;
                        if k < frontier@.len() {
                            assert(frontier@.push(t)[k] == frontier@[k]);
                            assert(in_frontier(frontier@, x, y));
                        } else {
                            assert(frontier@.push(t)[k] == t);
                        }
                        assert(false);
                    }
                }
            }
        }
    }
    proof {
        let ds = zset(zones@, zid, w_, h_);
        assert forall|u: (int, int), n: (int, int)|
            #[trigger] ds.contains(u) && adj8(u, n) && #[trigger] c@.ok(n) implies ds.contains(
            n,
        ) by {
            assert(zones@[u.0]@[u.1] == zid);
            assert(!in_frontier(frontier@, u.0, u.1));
            assert(znbrs(c@, zones@, zid, w_, h_, u.0, u.1));
            assert(n.0 == u.0 - 1 || n.0 == u.0 || n.0 == u.0 + 1);
            assert(n.1 == u.1 - 1 || n.1 == u.1 || n.1 == u.1 + 1);
            assert(zoned_at(zones@, zid, w_, h_, n.0, n.1));
        }
        assert forall|x: int, y: int|
            0 <= x < w_ && 0 <= y < h_ implies (#[trigger] zones@[x]@[y]) == (
        if connected(c@, ti(seed), (x, y)) {
            zid
        } else {
            z0[x]@[y]
        }) by {
            if connected(c@, ti(seed), (x, y)) {
                assert(ds.contains(ti(seed)));
                crate::reach::lemma_reach_closed(c@, ds, ti(seed), (x, y));
                assert(zones@[x]@[y] == zid);
            } else {
                assert(zones@[x]@[y] != zid);
            }
        }
    }
}

/// One flood fill preserves the zone-map invariants: labels still mark
/// allowed tiles, connected tiles still agree, and equal nonzero labels
/// still mean connected tiles.
#[verifier::rlimit(100)]
proof fn lemma_zone_flood_preserves(
    c: SearchCfg,
    s: (usize, usize),
    zid: usize,
    seeds: Seq<(usize, usize)>,
    i: int,
    zpre: Seq<Vec<usize>>,
    z2: Seq<Vec<usize>>,
    w: int,
    h: int,
)
    requires
        c.ok(ti(s)),
        zid >= 1,
        0 <= i < seeds.len(),
        seeds[i] == s,
        forall|x: int, y: int|
            0 <= x < w && 0 <= y < h ==> (#[trigger] z2[x]@[y]) == (if connected(c, ti(s), (x, y)) {
                zid
            } else {
                zpre[x]@[y]
            }),
        forall|x: int, y: int|
            0 <= x < w && 0 <= y < h && (#[trigger] zpre[x]@[y]) != 0 ==> c.ok((x, y)) && 1 <= zpre[x]@[y]
                < zid,
        forall|x1: int, y1: int, x2: int, y2: int|
            0 <= x1 < w && 0 <= y1 < h && 0 <= x2 < w && 0 <= y2 < h && #[trigger] connected(
                c,
                (x1, y1),
                (x2, y2),
            ) ==> zpre[x1]@[y1] == zpre[x2]@[y2],
        forall|x1: int, y1: int, x2: int, y2: int|
            #![trigger zpre[x1]@[y1], zpre[x2]@[y2]]
            0 <= x1 < w && 0 <= y1 < h && 0 <= x2 < w && 0 <= y2 < h && zpre[x1]@[y1]
                == zpre[x2]@[y2] && zpre[x1]@[y1] != 0 ==> connected(c, (x1, y1), (x2, y2)),
        forall|x: int, y: int|
            0 <= x < w && 0 <= y < h && (#[trigger] zpre[x]@[y]) != 0 ==> exists|j: int|
                0 <= j < i && c.ok(ti(#[trigger] seeds[j])) && connected(c, ti(seeds[j]), (x, y)),
    ensures
        forall|x: int, y: int|
            0 <= x < w && 0 <= y < h && (#[trigger] z2[x]@[y]) != 0 ==> c.ok((x, y)) && 1 <= z2[x]@[y]
                <= zid,
        forall|x1: int, y1: int, x2: int, y2: int|
            0 <= x1 < w && 0 <= y1 < h && 0 <= x2 < w && 0 <= y2 < h && #[trigger] connected(
                c,
                (x1, y1),
                (x2, y2),
            ) ==> z2[x1]@[y1] == z2[x2]@[y2],
        forall|x1: int, y1: int, x2: int, y2: int|
            #![trigger z2[x1]@[y1], z2[x2]@[y2]]
            0 <= x1 < w && 0 <= y1 < h && 0 <= x2 < w && 0 <= y2 < h && z2[x1]@[y1] == z2[x2]@[y2]
                && z2[x1]@[y1] != 0 ==> connected(c, (x1, y1), (x2, y2)),
        forall|x: int, y: int|
            0 <= x < w && 0 <= y < h && (#[trigger] z2[x]@[y]) != 0 ==> exists|j: int|
                0 <= j < i + 1 && c.ok(ti(#[trigger] seeds[j])) && connected(
                    c,
                    ti(seeds[j]),
                    (x, y),
                ),
{
    assert forall|x: int, y: int|
        0 <= x < w && 0 <= y < h && (#[trigger] z2[x]@[y]) != 0 implies c.ok((x, y)) && 1 <= z2[x]@[y]
        <= zid by {
        if connected(c, ti(s), (x, y)) {
            crate::reach::lemma_connected_ends_ok(c, ti(s), (x, y));
        } else {
            assert(z2[x]@[y] == zpre[x]@[y]);
        }
    }
    assert forall|x1: int, y1: int, x2: int, y2: int|
        0 <= x1 < w && 0 <= y1 < h && 0 <= x2 < w && 0 <= y2 < h && #[trigger] connected(
            c,
            (x1, y1),
            (x2, y2),
        ) implies z2[x1]@[y1] == z2[x2]@[y2] by {
        if connected(c, ti(s), (x1, y1)) {
            crate::reach::lemma_connected_trans(c, ti(s), (x1, y1), (x2, y2));
        } else {
            if connected(c, ti(s), (x2, y2)) {
                crate::reach::lemma_connected_sym(c, (x1, y1), (x2, y2));
                crate::reach::lemma_connected_trans(c, ti(s), (x2, y2), (x1, y1));
            }
            assert(z2[x1]@[y1] == zpre[x1]@[y1]);
            assert(z2[x2]@[y2] == zpre[x2]@[y2]);
        }
    }
    assert forall|x1: int, y1: int, x2: int, y2: int|
        #![trigger z2[x1]@[y1], z2[x2]@[y2]]
        0 <= x1 < w && 0 <= y1 < h && 0 <= x2 < w && 0 <= y2 < h && z2[x1]@[y1] == z2[x2]@[y2]
            && z2[x1]@[y1] != 0 implies connected(c, (x1, y1), (x2, y2)) by {
        if connected(c, ti(s), (x1, y1)) {
            assert(z2[x1]@[y1] == zid);
            assert(z2[x2]@[y2] == zid);
            if !connected(c, ti(s), (x2, y2)) {
                assert(zpre[x2]@[y2] == zid);
                assert(false);
            }
            crate::reach::lemma_connected_sym(c, ti(s), (x1, y1));
            crate::reach::lemma_connected_trans(c, (x1, y1), ti(s), (x2, y2));
        } else {
            assert(z2[x1]@[y1] == zpre[x1]@[y1]);
            if connected(c, ti(s), (x2, y2)) {
                assert(z2[x2]@[y2] == zid);
                assert(zpre[x1]@[y1] == zid);
                assert(false);
            }
            assert(z2[x2]@[y2] == zpre[x2]@[y2]);
        }
    }
    assert forall|x: int, y: int|
        0 <= x < w && 0 <= y < h && (#[trigger] z2[x]@[y]) != 0 implies exists|j: int|
        0 <= j < i + 1 && c.ok(ti(#[trigger] seeds[j])) && connected(c, ti(seeds[j]), (x, y)) by {
        if connected(c, ti(s), (x, y)) {
            assert(seeds[i] == s);
            assert(c.ok(ti(seeds[i])) && connected(c, ti(seeds[i]), (x, y)));
        } else {
            assert(z2[x]@[y] == zpre[x]@[y]);
            let j = choose|j: int|
                0 <= j < i && c.ok(ti(#[trigger] seeds[j])) && connected(c, ti(seeds[j]), (x, y));
            assert(c.ok(ti(seeds[j])) && connected(c, ti(seeds[j]), (x, y)));
        }
    }
}

impl GameMap {
    /// Flood-fills zones from the seed tiles, in seed order, each
    /// exhausting its whole connected component before the next seed
    /// starts — so the first seed claims any shared region. On return two
    /// labeled tiles carry the same zone id exactly when a walkable path
    /// joins them, every tile reachable from an eligible seed is labeled,
    /// unreached tiles keep the sentinel 0, and at most one id per seed
    /// was spent.
    #[verifier::rlimit(100)]
    pub fn calculate_zones(&mut self, seeds: &Vec<(usize, usize)>)
        requires
            old(self).wf(),
            seeds@.len() < usize::MAX,
        ensures
            final(self).wf(),
            final(self).ground_pathing.map@ == old(self).ground_pathing.map@,
            final(self).ground_pathing.influence@ == old(self).ground_pathing.influence@,
            final(self).placement@ == old(self).placement@,
            final(self).height_map@ == old(self).height_map@,
            final(self).points@ == old(self).points@,
            final(self).width == old(self).width,
            final(self).height == old(self).height,
            final(self).x_start == old(self).x_start,
            final(self).y_start == old(self).y_start,
            final(self).x_end == old(self).x_end,
            final(self).y_end == old(self).y_end,
            final(self).chokes@ == old(self).chokes@,
            final(self).vision@ == old(self).vision@,
            final(self).vision_units@ == old(self).vision_units@,
            final(self).zone_count <= seeds@.len(),
            ({
                let c = zone_cfg(*old(self));
                let z = final(self).zones@;
                let w = old(self).width as int;
                let h = old(self).height as int;
                &&& forall|x: int, y: int|
                    0 <= x < w && 0 <= y < h && (#[trigger] z[x]@[y]) != 0 ==> c.ok((x, y)) && 1
                        <= z[x]@[y] <= final(self).zone_count
                &&& forall|x1: int, y1: int, x2: int, y2: int|
                    0 <= x1 < w && 0 <= y1 < h && 0 <= x2 < w && 0 <= y2 < h && #[trigger]
                    connected(c, (x1, y1), (x2, y2)) ==> z[x1]@[y1] == z[x2]@[y2]
                &&& forall|x1: int, y1: int, x2: int, y2: int|
                    #![trigger z[x1]@[y1], z[x2]@[y2]]
                    0 <= x1 < w && 0 <= y1 < h && 0 <= x2 < w && 0 <= y2 < h && z[x1]@[y1]
                        == z[x2]@[y2] && z[x1]@[y1] != 0 ==> connected(c, (x1, y1), (x2, y2))
                &&& forall|i: int, x: int, y: int|
                    0 <= i < seeds@.len() && 0 <= x < w && 0 <= y < h && c.ok(ti(seeds@[i]))
                        && #[trigger] connected(c, ti(seeds@[i]), (x, y)) ==> z[x]@[y] != 0
                &&& forall|x: int, y: int|
                    0 <= x < w && 0 <= y < h && (#[trigger] z[x]@[y]) != 0 ==> exists|i: int|
                        0 <= i < seeds@.len() && c.ok(ti(#[trigger] seeds@[i])) && connected(
                            c,
                            ti(seeds@[i]),
                            (x, y),
                        )
            }),
    {
        let w = self.width;
        let h = self.height;
        let ghost c = zone_cfg(*self);
        let ghost w_ = w as int;
        let ghost h_ = h as int;
        let mut zones = crate::grid::zero_grid_usize(w, h);
        let mut next_id: usize = 1;
        let mut i: usize = 0;
        while i < seeds.len()
            invariant
                gdims(zones@, w_, h_),
                c == scfg(self.ground_pathing.map@, 0, 0, 0, w_, h_),
                grid_wf(self.ground_pathing.map@, w_, h_),
                w_ == w as int,
                h_ == h as int,
                w == self.width,
                h == self.height,
                w <= MAX_DIM,
                h <= MAX_DIM,
                i <= seeds@.len(),
                seeds@.len() < usize::MAX,
                1 <= next_id,
                next_id <= i + 1,
                forall|x: int, y: int|
                    0 <= x < w_ && 0 <= y < h_ && (#[trigger] zones@[x]@[y]) != 0 ==> c.ok(
                        (x, y),
                    ) && 1 <= zones@[x]@[y] < next_id,
                forall|x1: int, y1: int, x2: int, y2: int|
                    0 <= x1 < w_ && 0 <= y1 < h_ && 0 <= x2 < w_ && 0 <= y2 < h_ && #[trigger]
                    connected(c, (x1, y1), (x2, y2)) ==> zones@[x1]@[y1] == zones@[x2]@[y2],
                forall|x1: int, y1: int, x2: int, y2: int|
                    #![trigger zones@[x1]@[y1], zones@[x2]@[y2]]
                    0 <= x1 < w_ && 0 <= y1 < h_ && 0 <= x2 < w_ && 0 <= y2 < h_
                        && zones@[x1]@[y1] == zones@[x2]@[y2] && zones@[x1]@[y1] != 0
                        ==> connected(c, (x1, y1), (x2, y2)),
                forall|j: int|
                    0 <= j < i && c.ok(ti(#[trigger] seeds@[j])) ==> zones@[seeds@[j].0 as int]@[seeds@[j].1 as int] != 0,
                forall|x: int, y: int|
                    0 <= x < w_ && 0 <= y < h_ && (#[trigger] zones@[x]@[y]) != 0 ==> exists|j: int|
                        0 <= j < i && c.ok(ti(#[trigger] seeds@[j])) && connected(
                            c,
                            ti(seeds@[j]),
                            (x, y),
                        ),
            decreases seeds@.len() - i,
        {
            let s = seeds[i];
            if s.0 < w && s.1 < h {
                if allowed_tile(&self.ground_pathing.map, 0, 0, 0, w, h, s.0, s.1) {
                    if zones[s.0][s.1] == 0 {
                        let ghost zpre = zones@;
                        let zid = next_id;
                        proof {
                            assert forall|x: int, y: int|
                                0 <= x < w_ && 0 <= y < h_ implies (#[trigger] zpre[x]@[y])
                                != zid by {
                                if zpre[x]@[y] != 0 {
                                    assert(zpre[x]@[y] < next_id);
                                }
                            }
                        }
                        flood_fill(
                            &self.ground_pathing.map,
                            w,
                            h,
                            s,
                            zid,
                            &mut zones,
                            Ghost(c),
                        );
                        next_id += 1;
                        proof {
                            crate::reach::lemma_connected_refl(c, ti(s));
                            lemma_zone_flood_preserves(
                                c,
                                s,
                                zid,
                                seeds@,
                                i as int,
                                zpre,
                                zones@,
                                w_,
                                h_,
                            );
                        }
                    }
                }
            }
            i += 1;
            proof {
                assert forall|j: int|
                    0 <= j < i && c.ok(ti(#[trigger] seeds@[j])) implies zones@[seeds@[j].0 as int]@[seeds@[j].1 as int]
                    != 0 by {
                    if j == i - 1 {
                        let sj = seeds@[j];
                        crate::reach::lemma_ok_in_grid(c, ti(sj));
                        if zones@[sj.0 as int]@[sj.1 as int] == 0 {
                            assert(false);
                        }
                    }
                }
            }
        }
        self.zones = zones;
        self.zone_count = next_id - 1;
    }
}
impl GameMap {
    /// Zone lookup for an arbitrary point: the zone id of a walkable
    /// tile at minimal squared tile distance from it. `None` marks a map
    /// with no walkable tile, or a nearest tile that no seed reached.
    pub fn get_zone(&self, point: (usize, usize)) -> (r: Option<usize>)
        requires
            self.wf(),
            point.0 <= MAX_DIM,
            point.1 <= MAX_DIM,
        ensures
            ({
                let w = self.width as int;
                let h = self.height as int;
                let z = self.zones@;
                &&& (r matches Some(zid) ==> zid != 0 && exists|x: int, y: int|
                    0 <= x < w && 0 <= y < h && #[trigger] self.spec_walkable(x, y) && z[x]@[y]
                        == zid && (forall|a: int, b: int|
                        0 <= a < w && 0 <= b < h && #[trigger] self.spec_walkable(a, b)
                            ==> spec_sq_dist(ti(point), (x, y)) <= spec_sq_dist(
                            ti(point),
                            (a, b),
                        )))
                &&& (r is None ==> (forall|a: int, b: int|
                    0 <= a < w && 0 <= b < h ==> !(#[trigger] self.spec_walkable(a, b)))
                    || exists|x: int, y: int|
                    0 <= x < w && 0 <= y < h && #[trigger] self.spec_walkable(x, y) && z[x]@[y]
                        == 0 && (forall|a: int, b: int|
                        0 <= a < w && 0 <= b < h && #[trigger] self.spec_walkable(a, b)
                            ==> spec_sq_dist(ti(point), (x, y)) <= spec_sq_dist(
                            ti(point),
                            (a, b),
                        )))
            }),
    {
        let w = self.width;
        let h = self.height;
        let mut best: Option<(usize, usize, u64)> = None;
        let mut x: usize = 0;
        while x < w
            invariant
                self.wf(),
                w == self.width,
                h == self.height,
                point.0 <= MAX_DIM,
                point.1 <= MAX_DIM,
                0 <= x <= w,
                best is None ==> forall|a: int, b: int|
                    0 <= a < x && 0 <= b < h ==> !(#[trigger] self.spec_walkable(a, b)),
                best matches Some(t) ==> t.0 < w && t.1 < h && self.spec_walkable(
                    t.0 as int,
                    t.1 as int,
                ) && t.2 as int == spec_sq_dist(ti(point), (t.0 as int, t.1 as int)) && (
                forall|a: int, b: int|
                    0 <= a < x && 0 <= b < h && #[trigger] self.spec_walkable(a, b) ==> t.2 as int
                        <= spec_sq_dist(ti(point), (a, b))),
            decreases w - x,
        {
            let mut y: usize = 0;
            while y < h
                invariant
                    self.wf(),
                    w == self.width,
                    h == self.height,
                    point.0 <= MAX_DIM,
                    point.1 <= MAX_DIM,
                    0 <= x < w,
                    0 <= y <= h,
                    best is None ==> (forall|a: int, b: int|
                        0 <= a < x && 0 <= b < h ==> !(#[trigger] self.spec_walkable(a, b)))
                        && (forall|b: int|
                        0 <= b < y ==> !(#[trigger] self.spec_walkable(x as int, b))),
                    best matches Some(t) ==> t.0 < w && t.1 < h && self.spec_walkable(
                        t.0 as int,
                        t.1 as int,
                    ) && t.2 as int == spec_sq_dist(ti(point), (t.0 as int, t.1 as int)) && (
                    forall|a: int, b: int|
                        0 <= a < x && 0 <= b < h && #[trigger] self.spec_walkable(a, b)
                            ==> t.2 as int <= spec_sq_dist(ti(point), (a, b))) && (forall|b: int|
                        0 <= b < y && #[trigger] self.spec_walkable(x as int, b) ==> t.2 as int
                            <= spec_sq_dist(ti(point), (x as int, b))),
                decreases h - y,
            {
                if self.ground_pathing.map[x][y] > 0 {
                    let dx = if point.0 >= x {
                        (point.0 - x) as u64
                    } else {
                        (x - point.0) as u64
                    };
                    let dy = if point.1 >= y {
                        (point.1 - y) as u64
                    } else {
                        (y - point.1) as u64
                    };
                    proof {
                        assert(dx * dx + dy * dy <= 0x2000_0000 && (dx as int) * (dx as int) + (
                        dy as int) * (dy as int) == spec_sq_dist(
                            ti(point),
                            (x as int, y as int),
                        )) by (nonlinear_arith)
                            requires
                                dx <= 16384,
                                dy <= 16384,
                                dx as int == if point.0 >= x {
                                    point.0 - x
                                } else {
                                    x - point.0
                                },
                                dy as int == if point.1 >= y {
                                    point.1 - y
                                } else {
                                    y - point.1
                                },
                        ;
                    }
                    let d = dx * dx + dy * dy;
                    let better = match best {
                        None => true,
                        Some(t) => d < t.2,
                    };
                    if better {
                        best = Some((x, y, d));
                    }
                }
                y += 1;
            }
            x += 1;
        }
        match best {
            None => None,
            Some(t) => {
                let z = self.zones[t.0][t.1];
                if z == 0 {
                    None
                } else {
                    Some(z)
                }
            },
        }
    }
}

} // verus!
