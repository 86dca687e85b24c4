use rust_sc2::ids::{AbilityId, UnitTypeId, UpgradeId};
use rust_sc2::PlayerSettings;
use rust_sc2::path::PathfindingUnitType;
use rust_sc2::player::{Alliance, Difficulty, GameResult, Race};

#[test]
fn test_basic_integration() {
    // Test that we can import and use basic types together

    // IDs should be accessible
    let _unit_id = UnitTypeId::Marine;
    let _ability_id = AbilityId::Move;
    let _upgrade_id = UpgradeId::Stimpack;

    // Player types should be accessible
    let _race = Race::Terran;
    let _difficulty = Difficulty::VeryEasy;

    assert_eq!(_race, Race::Terran);
    assert_eq!(_difficulty, Difficulty::VeryEasy);
}

#[test]
fn test_prelude_exports() {
    // Verify that the expected types are available

    // Core gameplay types
    let _unit_type = UnitTypeId::SCV;
    let _ability = AbilityId::Attack;
    let _upgrade = UpgradeId::Stimpack;
    let _race = Race::Protoss;
    let _alliance = Alliance::Own;

    // Game state types
    let _result = GameResult::Victory;
    let _difficulty = Difficulty::Medium;

    // Pathfinding types
    let _unit_type_pf = PathfindingUnitType::Ground;
}

#[test]
fn test_player_settings() {
    let s = PlayerSettings::new(Race::Terran).with_name("PathfindingBot");
    assert_eq!(s.race, Race::Terran);
    assert_eq!(s.name, Some("PathfindingBot"));
    assert!(!s.raw_affects_selection);
    assert!(!s.raw_crop_to_playable_area);

    let s = s.raw_affects_selection(true).raw_crop_to_playable_area(true);
    assert!(s.raw_affects_selection);
    assert!(s.raw_crop_to_playable_area);

    let d = PlayerSettings::default();
    assert_eq!(d.race, Race::Random);
    assert_eq!(d.name, None);
}
