//! Connectivity theory for tile grids: walks over 8-connected walkable
//! tiles, reachability, and the lemmas the searches need — reachability is
//! reflexive, symmetric, transitive, extends along an edge, and cannot
//! escape a set that is closed under taking allowed neighbours. A small
//! counting lemma bounds the number of tiles of a rectangle.

use vstd::prelude::*;

verus! {

use crate::grid::walk_at;

/// Search configuration: which tiles a search may stand on. A tile is
/// allowed when it lies in the window rectangle and every tile of the
/// clearance footprint around it is walkable.
pub ghost struct SearchCfg {
    /// Walkability grid (value > 0 is walkable).
    pub grid: Seq<Vec<u8>>,
    /// Clearance radius in tiles; 0 means only the tile itself.
    pub clearance: int,
    /// Window rectangle `x0 <= x < x1`, `y0 <= y < y1`.
    pub x0: int,
    pub y0: int,
    pub x1: int,
    pub y1: int,
}

impl SearchCfg {
    /// Every tile of the clearance footprint around `(x, y)` exists and
    /// is walkable.
    #[verifier::opaque]
    pub open spec fn footprint_ok(self, x: int, y: int) -> bool {
        forall|i: int, j: int|
            x - self.clearance <= i <= x + self.clearance && y - self.clearance <= j <= y
                + self.clearance ==> walk_at(self.grid, i, j)
    }

    /// The search may stand on the tile: inside the window, with a fully
    /// walkable clearance footprint.
    pub open spec fn ok(self, t: (int, int)) -> bool {
        self.x0 <= t.0 < self.x1 && self.y0 <= t.1 < self.y1 && self.footprint_ok(t.0, t.1)
    }
}

/// A fully walkable footprint is walkable at each of its tiles.
pub proof fn lemma_footprint_at(c: SearchCfg, x: int, y: int, i: int, j: int)
    requires
        c.footprint_ok(x, y),
        x - c.clearance <= i <= x + c.clearance,
        y - c.clearance <= j <= y + c.clearance,
    ensures
        walk_at(c.grid, i, j),
{
    reveal(SearchCfg::footprint_ok);
}

/// An allowed tile lies on the grid and is itself walkable.
pub proof fn lemma_ok_in_grid(c: SearchCfg, t: (int, int))
    requires
        c.ok(t),
        c.clearance >= 0,
    ensures
        walk_at(c.grid, t.0, t.1),
{
    lemma_footprint_at(c, t.0, t.1, t.0, t.1);
}

/// Two distinct tiles are 8-adjacent: they differ by at most one in each
/// coordinate.
pub open spec fn adj8(a: (int, int), b: (int, int)) -> bool {
    a != b && -1 <= a.0 - b.0 <= 1 && -1 <= a.1 - b.1 <= 1
}

/// A walk: a non-empty sequence of allowed tiles, each consecutive pair
/// 8-adjacent.
pub open spec fn is_walk(c: SearchCfg, p: Seq<(int, int)>) -> bool {
    &&& p.len() >= 1
    &&& forall|i: int| 0 <= i < p.len() ==> c.ok(#[trigger] p[i])
    &&& forall|i: int| 0 <= i < p.len() - 1 ==> adj8(#[trigger] p[i], p[i + 1])
}

/// Some walk leads from `a` to `b`.
#[verifier::opaque]
pub open spec fn connected(c: SearchCfg, a: (int, int), b: (int, int)) -> bool {
    exists|p: Seq<(int, int)>| #[trigger] is_walk(c, p) && p.first() == a && p.last() == b
}

/// An allowed tile reaches itself.
pub proof fn lemma_connected_refl(c: SearchCfg, a: (int, int))
    requires
        c.ok(a),
    ensures
        connected(c, a, a),
{
    reveal(connected);
    let p = seq![a];
    assert(is_walk(c, p) && p.first() == a && p.last() == a);
}

/// A walk witnesses reachability of its last tile from its first.
pub proof fn lemma_walk_gives_connected(c: SearchCfg, p: Seq<(int, int)>)
    requires
        is_walk(c, p),
    ensures
        connected(c, p.first(), p.last()),
{
    reveal(connected);
}

/// Reachability extends along one more allowed, adjacent tile.
pub proof fn lemma_connected_step(c: SearchCfg, a: (int, int), b: (int, int), n: (int, int))
    requires
        connected(c, a, b),
        adj8(b, n),
        c.ok(n),
    ensures
        connected(c, a, n),
{
    reveal(connected);
    let p = choose|p: Seq<(int, int)>| #[trigger] is_walk(c, p) && p.first() == a && p.last() == b;
    let q = p.push(n);
    assert(q.last() == n);
    assert(q.first() == a);
    assert forall|i: int| 0 <= i < q.len() - 1 implies adj8(#[trigger] q[i], q[i + 1]) by {
        if i < p.len() - 1 {
            assert(adj8(p[i], p[i + 1]));
        } else {
            assert(q[i] == p.last());
        }
    }
    assert(is_walk(c, q));
}

/// Reachability is symmetric: the reversed walk is a walk.
pub proof fn lemma_connected_sym(c: SearchCfg, a: (int, int), b: (int, int))
    requires
        connected(c, a, b),
    ensures
        connected(c, b, a),
{
    reveal(connected);
    let p = choose|p: Seq<(int, int)>| #[trigger] is_walk(c, p) && p.first() == a && p.last() == b;
    let q = p.reverse();
    let n = p.len() as int;
    assert(q.first() == p.last());
    assert(q.last() == p.first());
    assert forall|i: int| 0 <= i < q.len() - 1 implies adj8(#[trigger] q[i], q[i + 1]) by {
        assert(q[i] == p[n - 1 - i]);
        assert(q[i + 1] == p[n - 2 - i]);
        assert(adj8(p[n - 2 - i], p[n - 1 - i]));
    }
    assert forall|i: int| 0 <= i < q.len() implies c.ok(#[trigger] q[i]) by {
        assert(q[i] == p[n - 1 - i]);
        assert(c.ok(p[n - 1 - i]));
    }
    assert(is_walk(c, q));
}

/// Reachability is transitive: concatenate the two walks.
pub proof fn lemma_connected_trans(c: SearchCfg, a: (int, int), b: (int, int), d: (int, int))
    requires
        connected(c, a, b),
        connected(c, b, d),
    ensures
        connected(c, a, d),
{
    reveal(connected);
    let p = choose|p: Seq<(int, int)>| #[trigger] is_walk(c, p) && p.first() == a && p.last() == b;
    let q = choose|q: Seq<(int, int)>| #[trigger] is_walk(c, q) && q.first() == b && q.last() == d;
    let r = p + q.drop_first();
    let n = p.len() as int;
    let m = q.len() as int;
    assert(r.len() == n + m - 1);
    assert(r.first() == p.first());
    if m == 1 {
        assert(r =~= p);
        assert(r.last() == b);
        assert(b == d);
    } else {
        assert(r.last() == q.drop_first().last());
        assert(q.drop_first().last() == q[m - 1]);
    }
    assert forall|i: int| 0 <= i < r.len() implies c.ok(#[trigger] r[i]) by {
        if i < n {
            assert(r[i] == p[i]);
            assert(c.ok(p[i]));
        } else {
            assert(r[i] == q[i - n + 1]);
            assert(c.ok(q[i - n + 1]));
        }
    }
    assert forall|i: int| 0 <= i < r.len() - 1 implies adj8(#[trigger] r[i], r[i + 1]) by {
        if i < n - 1 {
            assert(r[i] == p[i]);
            assert(r[i + 1] == p[i + 1]);
            assert(adj8(p[i], p[i + 1]));
        } else if i == n - 1 {
            assert(r[i] == p[n - 1]);
            assert(r[i + 1] == q[1]);
            assert(p[n - 1] == q[0]);
            assert(adj8(q[0], q[1]));
        } else {
            assert(r[i] == q[i - n + 1]);
            assert(r[i + 1] == q[i - n + 2]);
            assert(adj8(q[i - n + 1], q[i - n + 2]));
        }
    }
    assert(is_walk(c, r));
}

/// A walk that starts inside a neighbour-closed set ends inside it.
proof fn lemma_walk_stays_in_closed(c: SearchCfg, s: Set<(int, int)>, p: Seq<(int, int)>)
    requires
        is_walk(c, p),
        s.contains(p.first()),
        forall|t: (int, int), n: (int, int)|
            #[trigger] s.contains(t) && adj8(t, n) && #[trigger] c.ok(n) ==> s.contains(n),
    ensures
        s.contains(p.last()),
    decreases p.len(),
{
    if p.len() > 1 {
        let q = p.drop_last();
        assert(forall|i: int| 0 <= i < q.len() ==> q[i] == p[i]);
        assert(is_walk(c, q));
        assert(q.first() == p.first());
        lemma_walk_stays_in_closed(c, s, q);
        let k = p.len() - 2;
        assert(q.last() == p[k]);
        assert(adj8(p[k], p[k + 1]));
        assert(c.ok(p[k + 1]));
        assert(s.contains(p[k + 1]));
    }
}

/// The two ends of a walk are allowed tiles.
pub proof fn lemma_connected_ends_ok(c: SearchCfg, a: (int, int), b: (int, int))
    requires
        connected(c, a, b),
    ensures
        c.ok(a),
        c.ok(b),
{
    reveal(connected);
    let p = choose|p: Seq<(int, int)>| #[trigger] is_walk(c, p) && p.first() == a && p.last() == b;
    assert(c.ok(p[0]));
    assert(c.ok(p[p.len() - 1]));
}

/// Reachability cannot escape a set that is closed under taking allowed
/// 8-neighbours: if `a` is in the set and `b` is reachable from `a`, then
/// `b` is in the set.
pub proof fn lemma_reach_closed(c: SearchCfg, s: Set<(int, int)>, a: (int, int), b: (int, int))
    requires
        connected(c, a, b),
        s.contains(a),
        forall|t: (int, int), n: (int, int)|
            #[trigger] s.contains(t) && adj8(t, n) && #[trigger] c.ok(n) ==> s.contains(n),
    ensures
        s.contains(b),
{
    reveal(connected);
    let p = choose|p: Seq<(int, int)>| #[trigger] is_walk(c, p) && p.first() == a && p.last() == b;
    lemma_walk_stays_in_closed(c, s, p);
}

/// The tiles of a `w` x `h` rectangle.
pub open spec fn rect_tiles(w: int, h: int) -> Set<(int, int)> {
    Set::new(|t: (int, int)| 0 <= t.0 < w && 0 <= t.1 < h)
}

/// One column of a rectangle: the tiles `(x, 0) .. (x, h-1)`.
spec fn column_tiles(x: int, h: int) -> Set<(int, int)> {
    Set::new(|t: (int, int)| t.0 == x && 0 <= t.1 < h)
}

proof fn lemma_column_len(x: int, h: int)
    requires
        h >= 0,
    ensures
        column_tiles(x, h).finite(),
        column_tiles(x, h).len() == h,
    decreases h,
{
    if h == 0 {
        assert(column_tiles(x, h) =~= Set::empty());
    } else {
        lemma_column_len(x, h - 1);
        assert(column_tiles(x, h) =~= column_tiles(x, h - 1).insert((x, h - 1)));
    }
}

/// A rectangle holds exactly `w * h` tiles.
pub proof fn lemma_rect_tiles_len(w: int, h: int)
    requires
        w >= 0,
        h >= 0,
    ensures
        rect_tiles(w, h).finite(),
        rect_tiles(w, h).len() == w * h,
    decreases w,
{
    if w == 0 {
        assert(rect_tiles(w, h) =~= Set::empty());
    } else {
        lemma_rect_tiles_len(w - 1, h);
        lemma_column_len(w - 1, h);
        lemma_disjoint_column_union(rect_tiles(w - 1, h), w - 1, h);
        assert(rect_tiles(w, h) =~= rect_tiles(w - 1, h).union(column_tiles(w - 1, h)));
        assert((w - 1) * h + h == w * h) by (nonlinear_arith);
    }
}

/// Adding a whole column of fresh tiles to a finite set grows it by the
/// column's height.
proof fn lemma_disjoint_column_union(s: Set<(int, int)>, x: int, h: int)
    requires
        s.finite(),
        h >= 0,
        forall|t: (int, int)| #[trigger] s.contains(t) ==> t.0 != x,
    ensures
        s.union(column_tiles(x, h)).finite(),
        s.union(column_tiles(x, h)).len() == s.len() + h,
    decreases h,
{
    if h == 0 {
        assert(s.union(column_tiles(x, h)) =~= s);
    } else {
        lemma_disjoint_column_union(s, x, h - 1);
        assert(s.union(column_tiles(x, h)) =~= s.union(column_tiles(x, h - 1)).insert(
            (x, h - 1),
        ));
        assert(!s.union(column_tiles(x, h - 1)).contains((x, h - 1)));
    }
}

} // verus!
