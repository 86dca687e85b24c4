use rust_sc2::path::PathfindingUnitType;
use rust_sc2::{Choke, GameMap, PathFind};

#[test]
fn test_pathfinding_unit_type_variants() {
    // Test that PathfindingUnitType enum is accessible and has expected variants
    let ground = PathfindingUnitType::Ground;
    let air = PathfindingUnitType::Air;
    let reaper = PathfindingUnitType::Reaper;
    let colossus = PathfindingUnitType::Colossus;

    // Verify they can be formatted for debugging
    assert_eq!(format!("{:?}", ground), "Ground");
    assert_eq!(format!("{:?}", air), "Air");
    assert_eq!(format!("{:?}", reaper), "Reaper");
    assert_eq!(format!("{:?}", colossus), "Colossus");
}

#[test]
fn test_pathfinding_enum_debug() {
    let unit_types = [
        PathfindingUnitType::Ground,
        PathfindingUnitType::Air,
        PathfindingUnitType::Reaper,
        PathfindingUnitType::Colossus,
    ];

    for unit_type in &unit_types {
        let debug_str = format!("{:?}", unit_type);
        assert!(!debug_str.is_empty(), "Debug string should not be empty for {:?}", unit_type);
        assert!(debug_str.len() > 2, "Debug string should be meaningful for {:?}", unit_type);
    }
}

#[test]
fn test_pathfinding_enum_variants_exist() {
    // Test that PathfindingUnitType variants exist and can be created
    let unit_types = [
        PathfindingUnitType::Ground,
        PathfindingUnitType::Air,
        PathfindingUnitType::Reaper,
        PathfindingUnitType::Colossus,
    ];

    // Verify each variant can be created and has a debug representation
    for unit_type in &unit_types {
        let debug_str = format!("{:?}", unit_type);
        assert!(!debug_str.is_empty(), "Debug string should not be empty");
        assert!(debug_str.len() > 2, "Debug string should be meaningful");
    }

    // Test that we can use them in match patterns
    for unit_type in &unit_types {
        match unit_type {
            PathfindingUnitType::Ground => assert!(true),
            PathfindingUnitType::Air => assert!(true),
            PathfindingUnitType::Reaper => assert!(true),
            PathfindingUnitType::Colossus => assert!(true),
        }
    }
}

#[test]
fn test_pathfinding_types_exist() {
    // Verify that pathfinding-related types are accessible
    // This ensures the map engine integration is working

    // These should compile without errors
    let _: PathfindingUnitType = PathfindingUnitType::Ground;

    // Engine types exist and small values of them can be built
    let choke = Choke { a: (0, 0), b: (0, 2), min_width: 3 };
    assert_eq!(choke.center(), (0, 1));

    let grid = vec![vec![1u8; 3]; 3];
    let pathfind = PathFind::new(grid.clone()).unwrap();
    assert_eq!(pathfind.map.len(), 3);

    let map = GameMap::new(grid.clone(), grid.clone(), grid, 0, 0, 3, 3).unwrap();
    assert_eq!(map.width, 3);
}
