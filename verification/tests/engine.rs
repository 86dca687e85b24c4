use rust_sc2::chokes::CHOKE_WIDTH_MAX;
use rust_sc2::grid::MapError;
use rust_sc2::path::{euclid_scaled, octile_scaled, Heuristic, PathFind, PathfindingUnitType};
use rust_sc2::tactical::TacticalPosition;
use rust_sc2::vision::VisionUnit;
use rust_sc2::GameMap;

fn open_grid(w: usize, h: usize) -> Vec<Vec<u8>> {
    vec![vec![1u8; h]; w]
}

// A 10x10 grid, fully walkable except a 2x2 obstacle block at (4,4)-(5,5).
fn blocked_grid() -> Vec<Vec<u8>> {
    let mut g = open_grid(10, 10);
    g[4][4] = 0;
    g[4][5] = 0;
    g[5][4] = 0;
    g[5][5] = 0;
    g
}

// A map with a 3-tile-wide corridor (rows 5..=7 of the columns 12..=17)
// between two fully open 12-column rooms.
fn corridor_grid() -> Vec<Vec<u8>> {
    let w = 30;
    let h = 13;
    let mut g = vec![vec![0u8; h]; w];
    for x in 0..12 {
        for y in 0..h {
            g[x][y] = 1;
        }
    }
    for x in 18..30 {
        for y in 0..h {
            g[x][y] = 1;
        }
    }
    for x in 12..18 {
        for y in 5..8 {
            g[x][y] = 1;
        }
    }
    g
}

#[test]
fn test_path_around_block() {
    // Path Finder from (1,1) to (8,8) must return a non-empty path longer
    // than the unobstructed octile route, routing around the block.
    let pf = PathFind::new(blocked_grid()).unwrap();
    let (path, cost) = pf.find_path_basic((1, 1), (8, 8), Heuristic::Octile);

    assert!(!path.is_empty(), "a route around the block must exist");
    assert_eq!(path[0], (1, 1));
    assert_eq!(*path.last().unwrap(), (8, 8));
    // The unobstructed octile route is 7 diagonal steps: cost 77, 8 points.
    assert!(path.len() > 8, "the path must detour around the block");
    assert!(cost > 77, "the detour must cost more than the straight route");
    // Consecutive waypoints stay 8-adjacent and walkable.
    let g = blocked_grid();
    for k in 1..path.len() {
        let (ax, ay) = path[k - 1];
        let (bx, by) = path[k];
        assert!(ax.abs_diff(bx) <= 1 && ay.abs_diff(by) <= 1 && (ax, ay) != (bx, by));
        assert!(g[bx][by] > 0);
    }
}

#[test]
fn test_path_determinism() {
    // Identical inputs give byte-identical waypoint sequences and costs.
    let pf = PathFind::new(blocked_grid()).unwrap();
    let first = pf.find_path((1, 1), (8, 8), 0, false, Heuristic::Octile, None, None);
    let second = pf.find_path((1, 1), (8, 8), 0, false, Heuristic::Octile, None, None);
    assert_eq!(first, second);

    let pf2 = PathFind::new(corridor_grid()).unwrap();
    let a = pf2.find_path((2, 6), (25, 6), 1, false, Heuristic::Euclidean, None, None);
    let b = pf2.find_path((2, 6), (25, 6), 1, false, Heuristic::Euclidean, None, None);
    assert_eq!(a, b);
}

#[test]
fn test_clearance_never_cheapens_path() {
    // Removing the clearance constraint never increases path cost.
    let pf = PathFind::new(corridor_grid()).unwrap();
    let with_clearance = pf.find_path((2, 6), (25, 6), 1, false, Heuristic::Octile, None, None);
    let without = pf.find_path((2, 6), (25, 6), 0, false, Heuristic::Octile, None, None);

    let (_, cost_clear) = with_clearance.expect("the corridor admits a large unit");
    let (_, cost_plain) = without.expect("the corridor admits a point unit");
    assert!(cost_plain <= cost_clear);
}

#[test]
fn test_influence_never_cheapens_path() {
    // Adding influence cost never decreases total cost versus the
    // influence-free path for the same endpoints.
    let mut pf = PathFind::new(open_grid(20, 20)).unwrap();
    pf.add_influence(&vec![(10, 10)], 50, 4);

    let plain = pf.find_path((2, 10), (18, 10), 0, false, Heuristic::Octile, None, None);
    let weighted = pf.find_path((2, 10), (18, 10), 0, true, Heuristic::Octile, None, None);

    let (_, cost_plain) = plain.unwrap();
    let (_, cost_weighted) = weighted.unwrap();
    assert!(cost_weighted >= cost_plain);
}

#[test]
fn test_no_path_to_sealed_region() {
    // A goal inside a sealed region yields the empty result.
    let mut g = open_grid(10, 10);
    for x in 0..10 {
        g[x][5] = 0;
    }
    let pf = PathFind::new(g).unwrap();
    assert!(pf.find_path((1, 1), (1, 8), 0, false, Heuristic::Octile, None, None).is_none());
    let (path, cost) = pf.find_path_basic((1, 1), (1, 8), Heuristic::Octile);
    assert!(path.is_empty());
    assert_eq!(cost, 0);
}

#[test]
fn test_distance_limit_cuts_search_off() {
    let pf = PathFind::new(open_grid(10, 10)).unwrap();
    // The straight route costs 7 * 11 = 77; a limit of 20 aborts first.
    let limited = pf.find_path((1, 1), (8, 8), 0, false, Heuristic::Octile, None, Some(20));
    assert!(limited.is_none());
    let unlimited = pf.find_path((1, 1), (8, 8), 0, false, Heuristic::Octile, None, None);
    assert!(unlimited.is_some());
}

#[test]
fn test_window_restricts_search() {
    let pf = PathFind::new(open_grid(10, 10)).unwrap();
    // A window that excludes the goal yields no path.
    let windowed = pf.find_path(
        (1, 1),
        (8, 8),
        0,
        false,
        Heuristic::Octile,
        Some(((0, 0), (5, 5))),
        None,
    );
    assert!(windowed.is_none());
    let inside = pf.find_path(
        (1, 1),
        (4, 4),
        0,
        false,
        Heuristic::Octile,
        Some(((0, 0), (5, 5))),
        None,
    );
    assert!(inside.is_some());
}

#[test]
fn test_map_construction_rejects_bad_input() {
    // Mismatched grid dimensions are rejected at construction.
    let pathing = open_grid(4, 4);
    let placement = open_grid(4, 3);
    let height = open_grid(4, 4);
    assert_eq!(
        GameMap::new(pathing, placement, height, 0, 0, 4, 4).err(),
        Some(MapError::DimensionMismatch)
    );

    // A bounding rectangle outside the grids is rejected.
    assert_eq!(
        GameMap::new(open_grid(4, 4), open_grid(4, 4), open_grid(4, 4), 0, 0, 5, 4).err(),
        Some(MapError::InvalidBounds)
    );

    // Well-formed input constructs.
    assert!(GameMap::new(open_grid(4, 4), open_grid(4, 4), open_grid(4, 4), 0, 0, 4, 4).is_ok());
}

#[test]
fn test_zones_label_components() {
    // Two rooms with no connection: same-component tiles share an id,
    // different components get different ids, unreached tiles stay 0.
    let w = 9;
    let h = 4;
    let mut g = vec![vec![1u8; h]; w];
    for y in 0..h {
        g[4][y] = 0; // wall splits the map in two
    }
    let mut map =
        GameMap::new(g.clone(), g.clone(), vec![vec![1u8; h]; w], 0, 0, w, h).unwrap();
    map.calculate_zones(&vec![(1, 1), (7, 1)]);

    assert!(map.zone_count <= 2);
    let left = map.zones[1][1];
    let right = map.zones[7][1];
    assert!(left != 0 && right != 0);
    assert_ne!(left, right, "different components get different zone ids");
    assert_eq!(map.zones[2][3], left, "the whole left room shares one id");
    assert_eq!(map.zones[8][0], right, "the whole right room shares one id");
    assert_eq!(map.zones[4][2], 0, "the wall is unzoned");

    // The first seed claims a shared component.
    let mut open_map = GameMap::new(
        open_grid(6, 6),
        open_grid(6, 6),
        vec![vec![1u8; 6]; 6],
        0,
        0,
        6,
        6,
    )
    .unwrap();
    open_map.calculate_zones(&vec![(1, 1), (4, 4)]);
    assert_eq!(open_map.zone_count, 1);
    assert_eq!(open_map.zones[4][4], open_map.zones[1][1]);

    // Nearest-tile lookup maps an unwalkable point to its nearest
    // walkable tile's zone.
    assert_eq!(map.get_zone((4, 2)), Some(map.zones[3][2]));
    assert_eq!(map.get_zone((1, 1)), Some(left));
}

#[test]
fn test_corridor_has_one_choke() {
    // The 3-tile-wide corridor yields exactly one choke, 3 tiles wide,
    // centred on the corridor.
    let g = corridor_grid();
    let mut map = GameMap::new(g.clone(), g.clone(), vec![vec![1u8; 13]; 30], 0, 0, 30, 13)
        .unwrap();
    map.calculate_chokes();

    assert_eq!(map.chokes.len(), 1, "exactly one choke for the corridor");
    let ch = map.chokes[0];
    assert_eq!(ch.min_width, 3);
    assert!(ch.min_width < CHOKE_WIDTH_MAX);
    // Both endpoints are walkable corridor tiles.
    assert!(g[ch.a.0][ch.a.1] > 0);
    assert!(g[ch.b.0][ch.b.1] > 0);
    let center = ch.center();
    assert!((12..18).contains(&center.0));
    assert!((5..8).contains(&center.1));

    // Range queries see the choke from inside the left room.
    let (idx, _dist) = map.nearest_choke((10, 6)).unwrap();
    assert_eq!(idx, 0);
    assert_eq!(map.chokes_in_range((10, 6), 80), vec![0]);
    assert!(map.chokes_in_range((0, 0), 8).is_empty());

    // No chokes at all gives the explicit absent result.
    let open_map = GameMap::new(
        open_grid(8, 8),
        open_grid(8, 8),
        vec![vec![1u8; 8]; 8],
        0,
        0,
        8,
        8,
    )
    .unwrap();
    assert!(open_map.nearest_choke((3, 3)).is_none());
}

#[test]
fn test_vision_levels() {
    // Two observers: one plain (radius 9), one detector (radius 11). A
    // tile within both radii reports level 2; a tile within only the
    // plain observer's radius reports level 1.
    let mut map = GameMap::new(
        open_grid(30, 30),
        open_grid(30, 30),
        vec![vec![1u8; 30]; 30],
        0,
        0,
        30,
        30,
    )
    .unwrap();

    map.clear_vision();
    map.add_vision_unit(VisionUnit::new(false, false, (10, 10), 9));
    map.add_vision_unit(VisionUnit::new(true, true, (14, 14), 11));
    map.calculate_vision_map();

    assert_eq!(map.vision_status((12, 12)), Some(2), "covered by both, one a detector");
    assert_eq!(map.vision_status((3, 10)), Some(1), "covered by the plain observer only");
    assert_eq!(map.vision_status((29, 0)), Some(0), "covered by neither");
    assert_eq!(map.vision_status((30, 0)), None, "out of bounds is unknown");

    // After reset, every tile level is 0 again.
    map.clear_vision();
    assert_eq!(map.vision_status((12, 12)), Some(0));

    // Accumulation is idempotent and order-independent: repeating an
    // observer or swapping the order gives the same field.
    map.add_vision_unit(VisionUnit::new(true, true, (14, 14), 11));
    map.add_vision_unit(VisionUnit::new(false, false, (10, 10), 9));
    map.add_vision_unit(VisionUnit::new(false, false, (10, 10), 9));
    map.calculate_vision_map();
    assert_eq!(map.vision_status((12, 12)), Some(2));
    assert_eq!(map.vision_status((3, 10)), Some(1));
    assert_eq!(map.vision_status((29, 0)), Some(0));
}

#[test]
fn test_fog_tiles() {
    let mut map = GameMap::new(
        open_grid(12, 12),
        open_grid(12, 12),
        vec![vec![1u8; 12]; 12],
        0,
        0,
        12,
        12,
    )
    .unwrap();
    map.clear_vision();
    map.add_vision_unit(VisionUnit::new(false, false, (2, 2), 3));
    map.calculate_vision_map();

    let fog = map.fog_tiles((2, 2), 5);
    // Unseen tiles within 5 tiles of (2,2): exactly those with
    // 9 < dx*dx + dy*dy <= 25.
    for &(x, y) in &fog {
        let d2 = (x as i64 - 2).pow(2) + (y as i64 - 2).pow(2);
        assert!(d2 > 9 && d2 <= 25);
    }
    assert!(fog.contains(&(6, 2)));
    assert!(!fog.contains(&(4, 2)));
}

#[test]
fn test_scaled_distances() {
    // Exact values of the scaled distance formulas.
    assert_eq!(octile_scaled((0, 0), (7, 7)), 77);
    assert_eq!(octile_scaled((0, 0), (5, 2)), 46);
    assert_eq!(octile_scaled((3, 4), (3, 4)), 0);
    assert_eq!(euclid_scaled((0, 0), (3, 4)), 40);
    assert_eq!(euclid_scaled((1, 1), (1, 1)), 0);
    assert_eq!(euclid_scaled((0, 0), (1, 1)), 11);
}

#[test]
fn test_tactical_score_formula() {
    // Score = 50 + 5*(8 - min(wn,8)) + 15*chokes + 2*height.
    let t = TacticalPosition::new((0, 0), true, 2, 3, 10);
    assert_eq!(t.score, 50 + 5 * 6 + 15 * 3 + 2 * 10);
    let t2 = TacticalPosition::new((0, 0), false, 12, 0, 0);
    assert_eq!(t2.score, 0);
}

#[test]
fn test_influence_overlay_updates() {
    let mut pf = PathFind::new(open_grid(8, 8)).unwrap();
    pf.add_influence(&vec![(4, 4), (4, 4)], 7, 2);
    assert_eq!(pf.influence[4][4], 14);
    assert_eq!(pf.influence[4][6], 14);
    assert_eq!(pf.influence[4][7], 0, "outside the circles");
    pf.reset_influence();
    assert_eq!(pf.influence[4][4], 0);
}

#[test]
fn test_grid_map_queries() {
    let mut g = open_grid(6, 6);
    g[2][2] = 0;
    let mut height = vec![vec![1u8; 6]; 6];
    height[3][3] = 9;
    let map = GameMap::new(g, open_grid(6, 6), height, 1, 1, 5, 5).unwrap();

    assert_eq!(map.is_walkable(2, 2), Some(false));
    assert_eq!(map.is_walkable(3, 3), Some(true));
    assert_eq!(map.is_walkable(0, 0), None, "outside the declared rectangle");
    assert_eq!(map.height_at(3, 3), Some(9));
    assert_eq!(map.height_at(5, 5), None);
    let p = map.point_at(3, 3).unwrap();
    assert_eq!(p.height, 9);
    assert!(p.walkable);
    assert!(map.is_in_bounds(1, 1));
    assert!(!map.is_in_bounds(5, 1));
}

#[test]
fn test_vision_sampling() {
    let mut map = GameMap::new(
        open_grid(10, 10),
        open_grid(10, 10),
        vec![vec![1u8; 10]; 10],
        0,
        0,
        10,
        10,
    )
    .unwrap();
    map.clear_vision();
    map.add_vision_unit(VisionUnit::new(false, false, (0, 0), 2));
    map.calculate_vision_map();

    let samples = map.sample_vision(4);
    // Samples sit on the stride lattice and carry the tile's level.
    assert_eq!(samples.len(), 9);
    for &(x, y, lvl) in &samples {
        assert!(x % 4 == 0 && y % 4 == 0);
        assert_eq!(Some(lvl), map.vision_status((x, y)));
    }
    assert!(samples.contains(&(0, 0, 1)));
    assert!(samples.contains(&(8, 8, 0)));
}

#[test]
fn test_unit_clearance_radius() {
    assert_eq!(PathfindingUnitType::Ground.clearance_radius(), 0);
    assert_eq!(PathfindingUnitType::Air.clearance_radius(), 0);
    assert_eq!(PathfindingUnitType::Reaper.clearance_radius(), 0);
    assert_eq!(PathfindingUnitType::Colossus.clearance_radius(), 1);
}

#[test]
fn test_tactical_positions_near() {
    // The bounded entry point scans only around the reference point.
    let width = 40;
    let height = 20;
    let pathing = open_grid(width, height);
    let mut height_map = vec![vec![1u8; height]; width];
    for x in 10..15 {
        for y in 0..height {
            height_map[x][y] = 3;
        }
    }
    let map = GameMap::new(pathing.clone(), pathing, height_map, 0, 0, width, height).unwrap();

    let near = map.tactical_positions_near((12, 10), 6, 2, 104);
    assert!(!near.is_empty(), "the plateau lies inside the bounding radius");
    for p in &near {
        assert!(p.position.0.abs_diff(12) <= 6 && p.position.1.abs_diff(10) <= 6);
    }
    for i in 1..near.len() {
        assert!(near[i - 1].score >= near[i].score);
    }

    let far = map.tactical_positions_near((35, 10), 2, 2, 104);
    assert!(far.is_empty(), "nothing qualifies off the plateau");
}
