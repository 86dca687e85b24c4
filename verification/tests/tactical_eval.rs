use rust_sc2::GameMap;
use rust_sc2::tactical::TacticalPosition;

#[test]
fn test_tactical_position_scoring() {
    // High ground with few neighbors and chokes should score well
    let pos = TacticalPosition::new(
        (100, 100),
        true, // on high ground
        2,    // few walkable neighbors
        3,    // 3 chokes in range
        10,   // height 10
    );

    assert!(pos.score > 100, "High ground position with chokes should score >100");
    assert_eq!(pos.on_high_ground, true);
    assert_eq!(pos.chokes_in_range, 3);
}

#[test]
fn test_walkable_neighbors_scoring() {
    // Fewer neighbors should give higher score
    let pos1 = TacticalPosition::new((100, 100), false, 2, 0, 5);
    let pos2 = TacticalPosition::new((100, 100), false, 7, 0, 5);

    assert!(pos1.score > pos2.score, "Fewer walkable neighbors should score better");
}

// Test map: fully walkable 40x20 terrain with a 5-tile-wide raised plateau
// (height 3) spanning the columns 10..=14; everything else sits at height 1.
fn load_plateau_map() -> GameMap {
    let width = 40;
    let height = 20;
    let pathing = vec![vec![1u8; height]; width];
    let placement = pathing.clone();
    let mut height_map = vec![vec![1u8; height]; width];
    for x in 10..15 {
        for y in 0..height {
            height_map[x][y] = 3;
        }
    }
    let mut map = GameMap::new(pathing, placement, height_map, 0, 0, width, height).unwrap();
    map.calculate_chokes();
    map
}

#[test]
fn test_tactical_positions_calculated() {
    let map = load_plateau_map();

    let tactical_positions = map.tactical_positions();

    // Should have found some tactical positions
    assert!(!tactical_positions.is_empty(), "Should find tactical positions on the map");

    println!("Found {} tactical positions", tactical_positions.len());

    // Show top 5 positions
    for (i, pos) in tactical_positions.iter().take(5).enumerate() {
        println!(
            "#{}: pos=({}, {}), score={}, high_ground={}, walkable_neighbors={}, chokes={}",
            i + 1,
            pos.position.0,
            pos.position.1,
            pos.score,
            pos.on_high_ground,
            pos.walkable_neighbors,
            pos.chokes_in_range
        );
    }
}

#[test]
fn test_tactical_positions_sorted() {
    let map = load_plateau_map();

    let tactical_positions = map.tactical_positions();

    // Verify positions are sorted by score (descending)
    for i in 1..tactical_positions.len() {
        assert!(
            tactical_positions[i - 1].score >= tactical_positions[i].score,
            "Tactical positions should be sorted by score (highest first)"
        );
    }
}

#[test]
fn test_tactical_positions_on_walkable() {
    let map = load_plateau_map();

    let tactical_positions = map.tactical_positions();

    // All tactical positions should be on walkable ground
    for pos in tactical_positions {
        let x = pos.position.0;
        let y = pos.position.1;

        assert!(
            x < map.ground_pathing.map.len() && y < map.ground_pathing.map[0].len(),
            "Position should be within map bounds"
        );

        assert!(
            map.ground_pathing.map[x][y] > 0,
            "Tactical position should be on walkable ground"
        );
    }
}

#[test]
fn test_custom_tactical_calculation() {
    let map = load_plateau_map();

    // Calculate positions for a different unit (radius 2 tiles, range 5
    // tiles = 40 scaled units)
    let liberator_positions = map.calculate_tactical_positions(2, 40);

    assert!(!liberator_positions.is_empty(), "Should find positions for custom unit specs");

    // Verify sorted
    for i in 1..liberator_positions.len() {
        assert!(
            liberator_positions[i - 1].score >= liberator_positions[i].score,
            "Custom tactical positions should be sorted by score"
        );
    }
}

#[test]
fn test_tactical_positions_have_good_scores() {
    let map = load_plateau_map();

    let tactical_positions = map.tactical_positions();

    // All returned positions should have reasonable scores (threshold is 30)
    for pos in tactical_positions {
        assert!(
            pos.score > 30,
            "Tactical positions should have score > 30, got {}",
            pos.score
        );
    }
}

#[test]
fn test_high_ground_positions_score_better() {
    let map = load_plateau_map();

    let tactical_positions = map.tactical_positions();

    // Find high ground and low ground positions
    let high_ground_positions: Vec<_> =
        tactical_positions.iter().filter(|p| p.on_high_ground).collect();

    let low_ground_positions: Vec<_> =
        tactical_positions.iter().filter(|p| !p.on_high_ground).collect();

    if !high_ground_positions.is_empty() && !low_ground_positions.is_empty() {
        // Average score of high ground should generally be higher
        let high_avg: u64 = high_ground_positions.iter().map(|p| p.score).sum::<u64>()
            / high_ground_positions.len() as u64;
        let low_avg: u64 = low_ground_positions.iter().map(|p| p.score).sum::<u64>()
            / low_ground_positions.len() as u64;

        println!("High ground avg score: {}", high_avg);
        println!("Low ground avg score: {}", low_avg);

        // High ground bonus should make high ground positions score better on average
        assert!(
            high_avg > low_avg,
            "High ground positions should score better on average"
        );
    }
}
