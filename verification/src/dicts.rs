//! Mapping from research abilities to the upgrades they grant.
//!
//! The table is an immutable piece of declarative data: a total function
//! from ability to optional upgrade, written out as a match so that its
//! value is known to the verifier.

use vstd::prelude::*;

verus! {

use crate::ids::{AbilityId, UpgradeId};

/// What [`get_upgrade_for_ability`] returns for each ability.
pub open spec fn spec_upgrade_for_ability(ability: AbilityId) -> Option<UpgradeId> {
    match ability {
        AbilityId::ResearchPhoenixAnionPulseCrystals => Some(UpgradeId::PhoenixRangeUpgrade),
        AbilityId::FleetBeaconResearchVoidRaySpeedUpgrade => Some(UpgradeId::VoidRaySpeedUpgrade),
        AbilityId::FleetBeaconResearchTempestResearchGroundAttackUpgrade => Some(UpgradeId::EnhancedShockwaves),
        AbilityId::ResearchGlialRegeneration => Some(UpgradeId::GlialReconstitution),
        AbilityId::ResearchTunnelingClaws => Some(UpgradeId::TunnelingClaws),
        AbilityId::ResearchAnabolicSynthesis => Some(UpgradeId::AnabolicSynthesis),
        AbilityId::ResearchChitinousPlating => Some(UpgradeId::ChitinousPlating),
        AbilityId::ResearchHiSecAutoTracking => Some(UpgradeId::HiSecAutoTracking),
        AbilityId::ResearchTerranStructureArmorUpgrade => Some(UpgradeId::TerranBuildingArmor),
        AbilityId::EngineeringBayResearchTerranInfantryWeaponsLevel1 => Some(UpgradeId::TerranInfantryWeaponsLevel1),
        AbilityId::EngineeringBayResearchTerranInfantryWeaponsLevel2 => Some(UpgradeId::TerranInfantryWeaponsLevel2),
        AbilityId::EngineeringBayResearchTerranInfantryWeaponsLevel3 => Some(UpgradeId::TerranInfantryWeaponsLevel3),
        AbilityId::EngineeringBayResearchTerranInfantryArmorLevel1 => Some(UpgradeId::TerranInfantryArmorsLevel1),
        AbilityId::EngineeringBayResearchTerranInfantryArmorLevel2 => Some(UpgradeId::TerranInfantryArmorsLevel2),
        AbilityId::EngineeringBayResearchTerranInfantryArmorLevel3 => Some(UpgradeId::TerranInfantryArmorsLevel3),
        AbilityId::BarracksTechLabResearchStimpack => Some(UpgradeId::Stimpack),
        AbilityId::ResearchCombatShield => Some(UpgradeId::ShieldWall),
        AbilityId::ResearchConcussiveShells => Some(UpgradeId::PunisherGrenades),
        AbilityId::ResearchInfernalPreigniter => Some(UpgradeId::HighCapacityBarrels),
        AbilityId::ResearchDrillingClaws => Some(UpgradeId::DrillClaws),
        AbilityId::ResearchSmartServos => Some(UpgradeId::SmartServos),
        AbilityId::ResearchCycloneLockOnDamage => Some(UpgradeId::CycloneLockOnDamageUpgrade),
        AbilityId::ResearchBansheeCloakingField => Some(UpgradeId::BansheeCloak),
        AbilityId::ResearchBansheeHyperflightRotors => Some(UpgradeId::BansheeSpeed),
        AbilityId::StarportTechLabResearchRavenInterferenceMatrix => Some(UpgradeId::AmplifiedShielding),
        AbilityId::ResearchPersonalCloaking => Some(UpgradeId::PersonalCloaking),
        AbilityId::ArmoryResearchTerranVehicleWeaponsLevel1 => Some(UpgradeId::TerranVehicleWeaponsLevel1),
        AbilityId::ArmoryResearchTerranVehicleWeaponsLevel2 => Some(UpgradeId::TerranVehicleWeaponsLevel2),
        AbilityId::ArmoryResearchTerranVehicleWeaponsLevel3 => Some(UpgradeId::TerranVehicleWeaponsLevel3),
        AbilityId::ArmoryResearchTerranShipWeaponsLevel1 => Some(UpgradeId::TerranShipWeaponsLevel1),
        AbilityId::ArmoryResearchTerranShipWeaponsLevel2 => Some(UpgradeId::TerranShipWeaponsLevel2),
        AbilityId::ArmoryResearchTerranShipWeaponsLevel3 => Some(UpgradeId::TerranShipWeaponsLevel3),
        AbilityId::ArmoryResearchTerranVehicleAndShipPlatingLevel1 => Some(UpgradeId::TerranVehicleAndShipArmorsLevel1),
        AbilityId::ArmoryResearchTerranVehicleAndShipPlatingLevel2 => Some(UpgradeId::TerranVehicleAndShipArmorsLevel2),
        AbilityId::ArmoryResearchTerranVehicleAndShipPlatingLevel3 => Some(UpgradeId::TerranVehicleAndShipArmorsLevel3),
        AbilityId::ForgeResearchProtossGroundWeaponsLevel1 => Some(UpgradeId::ProtossGroundWeaponsLevel1),
        AbilityId::ForgeResearchProtossGroundWeaponsLevel2 => Some(UpgradeId::ProtossGroundWeaponsLevel2),
        AbilityId::ForgeResearchProtossGroundWeaponsLevel3 => Some(UpgradeId::ProtossGroundWeaponsLevel3),
        AbilityId::ForgeResearchProtossGroundArmorLevel1 => Some(UpgradeId::ProtossGroundArmorsLevel1),
        AbilityId::ForgeResearchProtossGroundArmorLevel2 => Some(UpgradeId::ProtossGroundArmorsLevel2),
        AbilityId::ForgeResearchProtossGroundArmorLevel3 => Some(UpgradeId::ProtossGroundArmorsLevel3),
        AbilityId::ForgeResearchProtossShieldsLevel1 => Some(UpgradeId::ProtossShieldsLevel1),
        AbilityId::ForgeResearchProtossShieldsLevel2 => Some(UpgradeId::ProtossShieldsLevel2),
        AbilityId::ForgeResearchProtossShieldsLevel3 => Some(UpgradeId::ProtossShieldsLevel3),
        AbilityId::ResearchGraviticBooster => Some(UpgradeId::ObserverGraviticBooster),
        AbilityId::ResearchGraviticDrive => Some(UpgradeId::GraviticDrive),
        AbilityId::ResearchExtendedThermalLance => Some(UpgradeId::ExtendedThermalLance),
        AbilityId::ResearchPsiStorm => Some(UpgradeId::PsiStormTech),
        AbilityId::ResearchZergMeleeWeaponsLevel1 => Some(UpgradeId::ZergMeleeWeaponsLevel1),
        AbilityId::ResearchZergMeleeWeaponsLevel2 => Some(UpgradeId::ZergMeleeWeaponsLevel2),
        AbilityId::ResearchZergMeleeWeaponsLevel3 => Some(UpgradeId::ZergMeleeWeaponsLevel3),
        AbilityId::ResearchZergGroundArmorLevel1 => Some(UpgradeId::ZergGroundArmorsLevel1),
        AbilityId::ResearchZergGroundArmorLevel2 => Some(UpgradeId::ZergGroundArmorsLevel2),
        AbilityId::ResearchZergGroundArmorLevel3 => Some(UpgradeId::ZergGroundArmorsLevel3),
        AbilityId::ResearchZergMissileWeaponsLevel1 => Some(UpgradeId::ZergMissileWeaponsLevel1),
        AbilityId::ResearchZergMissileWeaponsLevel2 => Some(UpgradeId::ZergMissileWeaponsLevel2),
        AbilityId::ResearchZergMissileWeaponsLevel3 => Some(UpgradeId::ZergMissileWeaponsLevel3),
        AbilityId::ResearchPneumatizedCarapace => Some(UpgradeId::Overlordspeed),
        AbilityId::ResearchBurrow => Some(UpgradeId::Burrow),
        AbilityId::ResearchZerglingAdrenalGlands => Some(UpgradeId::Zerglingattackspeed),
        AbilityId::ResearchZerglingMetabolicBoost => Some(UpgradeId::Zerglingmovementspeed),
        AbilityId::ResearchGroovedSpines => Some(UpgradeId::EvolveGroovedSpines),
        AbilityId::ResearchMuscularAugments => Some(UpgradeId::EvolveMuscularAugments),
        AbilityId::ResearchZergFlyerAttackLevel1 => Some(UpgradeId::ZergFlyerWeaponsLevel1),
        AbilityId::ResearchZergFlyerAttackLevel2 => Some(UpgradeId::ZergFlyerWeaponsLevel2),
        AbilityId::ResearchZergFlyerAttackLevel3 => Some(UpgradeId::ZergFlyerWeaponsLevel3),
        AbilityId::ResearchZergFlyerArmorLevel1 => Some(UpgradeId::ZergFlyerArmorsLevel1),
        AbilityId::ResearchZergFlyerArmorLevel2 => Some(UpgradeId::ZergFlyerArmorsLevel2),
        AbilityId::ResearchZergFlyerArmorLevel3 => Some(UpgradeId::ZergFlyerArmorsLevel3),
        AbilityId::ResearchNeuralParasite => Some(UpgradeId::NeuralParasite),
        AbilityId::ResearchCentrifugalHooks => Some(UpgradeId::CentrificalHooks),
        AbilityId::ResearchBattlecruiserWeaponRefit => Some(UpgradeId::BattlecruiserEnableSpecializations),
        AbilityId::FusionCoreResearchBallisticRange => Some(UpgradeId::LiberatorAGRangeUpgrade),
        AbilityId::FusionCoreResearchMedivacEnergyUpgrade => Some(UpgradeId::MedivacCaduceusReactor),
        AbilityId::CyberneticsCoreResearchProtossAirWeaponsLevel1 => Some(UpgradeId::ProtossAirWeaponsLevel1),
        AbilityId::CyberneticsCoreResearchProtossAirWeaponsLevel2 => Some(UpgradeId::ProtossAirWeaponsLevel2),
        AbilityId::CyberneticsCoreResearchProtossAirWeaponsLevel3 => Some(UpgradeId::ProtossAirWeaponsLevel3),
        AbilityId::CyberneticsCoreResearchProtossAirArmorLevel1 => Some(UpgradeId::ProtossAirArmorsLevel1),
        AbilityId::CyberneticsCoreResearchProtossAirArmorLevel2 => Some(UpgradeId::ProtossAirArmorsLevel2),
        AbilityId::CyberneticsCoreResearchProtossAirArmorLevel3 => Some(UpgradeId::ProtossAirArmorsLevel3),
        AbilityId::ResearchWarpGate => Some(UpgradeId::WarpGateResearch),
        AbilityId::ResearchCharge => Some(UpgradeId::Charge),
        AbilityId::ResearchBlink => Some(UpgradeId::BlinkTech),
        AbilityId::ResearchAdeptResonatingGlaives => Some(UpgradeId::AdeptPiercingAttack),
        AbilityId::ResearchShadowStrike => Some(UpgradeId::DarkTemplarBlinkUpgrade),
        AbilityId::ResearchAdaptiveTalons => Some(UpgradeId::DiggingClaws),
        AbilityId::LurkerDenResearchLurkerRange => Some(UpgradeId::LurkerRange),
        _ => None,
    }
}

/// Number of abilities the table maps to an upgrade.
pub const RESEARCH_ABILITY_COUNT: usize = 87;

/// Get the upgrade granted by a research ability, or `None` when the
/// ability is not a research.
pub fn get_upgrade_for_ability(ability: AbilityId) -> (r: Option<UpgradeId>)
    ensures
        r == spec_upgrade_for_ability(ability),
{
    match ability {
        AbilityId::ResearchPhoenixAnionPulseCrystals => Some(UpgradeId::PhoenixRangeUpgrade),
        AbilityId::FleetBeaconResearchVoidRaySpeedUpgrade => Some(UpgradeId::VoidRaySpeedUpgrade),
        AbilityId::FleetBeaconResearchTempestResearchGroundAttackUpgrade => Some(UpgradeId::EnhancedShockwaves),
        AbilityId::ResearchGlialRegeneration => Some(UpgradeId::GlialReconstitution),
        AbilityId::ResearchTunnelingClaws => Some(UpgradeId::TunnelingClaws),
        AbilityId::ResearchAnabolicSynthesis => Some(UpgradeId::AnabolicSynthesis),
        AbilityId::ResearchChitinousPlating => Some(UpgradeId::ChitinousPlating),
        AbilityId::ResearchHiSecAutoTracking => Some(UpgradeId::HiSecAutoTracking),
        AbilityId::ResearchTerranStructureArmorUpgrade => Some(UpgradeId::TerranBuildingArmor),
        AbilityId::EngineeringBayResearchTerranInfantryWeaponsLevel1 => Some(UpgradeId::TerranInfantryWeaponsLevel1),
        AbilityId::EngineeringBayResearchTerranInfantryWeaponsLevel2 => Some(UpgradeId::TerranInfantryWeaponsLevel2),
        AbilityId::EngineeringBayResearchTerranInfantryWeaponsLevel3 => Some(UpgradeId::TerranInfantryWeaponsLevel3),
        AbilityId::EngineeringBayResearchTerranInfantryArmorLevel1 => Some(UpgradeId::TerranInfantryArmorsLevel1),
        AbilityId::EngineeringBayResearchTerranInfantryArmorLevel2 => Some(UpgradeId::TerranInfantryArmorsLevel2),
        AbilityId::EngineeringBayResearchTerranInfantryArmorLevel3 => Some(UpgradeId::TerranInfantryArmorsLevel3),
        AbilityId::BarracksTechLabResearchStimpack => Some(UpgradeId::Stimpack),
        AbilityId::ResearchCombatShield => Some(UpgradeId::ShieldWall),
        AbilityId::ResearchConcussiveShells => Some(UpgradeId::PunisherGrenades),
        AbilityId::ResearchInfernalPreigniter => Some(UpgradeId::HighCapacityBarrels),
        AbilityId::ResearchDrillingClaws => Some(UpgradeId::DrillClaws),
        AbilityId::ResearchSmartServos => Some(UpgradeId::SmartServos),
        AbilityId::ResearchCycloneLockOnDamage => Some(UpgradeId::CycloneLockOnDamageUpgrade),
        AbilityId::ResearchBansheeCloakingField => Some(UpgradeId::BansheeCloak),
        AbilityId::ResearchBansheeHyperflightRotors => Some(UpgradeId::BansheeSpeed),
        AbilityId::StarportTechLabResearchRavenInterferenceMatrix => Some(UpgradeId::AmplifiedShielding),
        AbilityId::ResearchPersonalCloaking => Some(UpgradeId::PersonalCloaking),
        AbilityId::ArmoryResearchTerranVehicleWeaponsLevel1 => Some(UpgradeId::TerranVehicleWeaponsLevel1),
        AbilityId::ArmoryResearchTerranVehicleWeaponsLevel2 => Some(UpgradeId::TerranVehicleWeaponsLevel2),
        AbilityId::ArmoryResearchTerranVehicleWeaponsLevel3 => Some(UpgradeId::TerranVehicleWeaponsLevel3),
        AbilityId::ArmoryResearchTerranShipWeaponsLevel1 => Some(UpgradeId::TerranShipWeaponsLevel1),
        AbilityId::ArmoryResearchTerranShipWeaponsLevel2 => Some(UpgradeId::TerranShipWeaponsLevel2),
        AbilityId::ArmoryResearchTerranShipWeaponsLevel3 => Some(UpgradeId::TerranShipWeaponsLevel3),
        AbilityId::ArmoryResearchTerranVehicleAndShipPlatingLevel1 => Some(UpgradeId::TerranVehicleAndShipArmorsLevel1),
        AbilityId::ArmoryResearchTerranVehicleAndShipPlatingLevel2 => Some(UpgradeId::TerranVehicleAndShipArmorsLevel2),
        AbilityId::ArmoryResearchTerranVehicleAndShipPlatingLevel3 => Some(UpgradeId::TerranVehicleAndShipArmorsLevel3),
        AbilityId::ForgeResearchProtossGroundWeaponsLevel1 => Some(UpgradeId::ProtossGroundWeaponsLevel1),
        AbilityId::ForgeResearchProtossGroundWeaponsLevel2 => Some(UpgradeId::ProtossGroundWeaponsLevel2),
        AbilityId::ForgeResearchProtossGroundWeaponsLevel3 => Some(UpgradeId::ProtossGroundWeaponsLevel3),
        AbilityId::ForgeResearchProtossGroundArmorLevel1 => Some(UpgradeId::ProtossGroundArmorsLevel1),
        AbilityId::ForgeResearchProtossGroundArmorLevel2 => Some(UpgradeId::ProtossGroundArmorsLevel2),
        AbilityId::ForgeResearchProtossGroundArmorLevel3 => Some(UpgradeId::ProtossGroundArmorsLevel3),
        AbilityId::ForgeResearchProtossShieldsLevel1 => Some(UpgradeId::ProtossShieldsLevel1),
        AbilityId::ForgeResearchProtossShieldsLevel2 => Some(UpgradeId::ProtossShieldsLevel2),
        AbilityId::ForgeResearchProtossShieldsLevel3 => Some(UpgradeId::ProtossShieldsLevel3),
        AbilityId::ResearchGraviticBooster => Some(UpgradeId::ObserverGraviticBooster),
        AbilityId::ResearchGraviticDrive => Some(UpgradeId::GraviticDrive),
        AbilityId::ResearchExtendedThermalLance => Some(UpgradeId::ExtendedThermalLance),
        AbilityId::ResearchPsiStorm => Some(UpgradeId::PsiStormTech),
        AbilityId::ResearchZergMeleeWeaponsLevel1 => Some(UpgradeId::ZergMeleeWeaponsLevel1),
        AbilityId::ResearchZergMeleeWeaponsLevel2 => Some(UpgradeId::ZergMeleeWeaponsLevel2),
        AbilityId::ResearchZergMeleeWeaponsLevel3 => Some(UpgradeId::ZergMeleeWeaponsLevel3),
        AbilityId::ResearchZergGroundArmorLevel1 => Some(UpgradeId::ZergGroundArmorsLevel1),
        AbilityId::ResearchZergGroundArmorLevel2 => Some(UpgradeId::ZergGroundArmorsLevel2),
        AbilityId::ResearchZergGroundArmorLevel3 => Some(UpgradeId::ZergGroundArmorsLevel3),
        AbilityId::ResearchZergMissileWeaponsLevel1 => Some(UpgradeId::ZergMissileWeaponsLevel1),
        AbilityId::ResearchZergMissileWeaponsLevel2 => Some(UpgradeId::ZergMissileWeaponsLevel2),
        AbilityId::ResearchZergMissileWeaponsLevel3 => Some(UpgradeId::ZergMissileWeaponsLevel3),
        AbilityId::ResearchPneumatizedCarapace => Some(UpgradeId::Overlordspeed),
        AbilityId::ResearchBurrow => Some(UpgradeId::Burrow),
        AbilityId::ResearchZerglingAdrenalGlands => Some(UpgradeId::Zerglingattackspeed),
        AbilityId::ResearchZerglingMetabolicBoost => Some(UpgradeId::Zerglingmovementspeed),
        AbilityId::ResearchGroovedSpines => Some(UpgradeId::EvolveGroovedSpines),
        AbilityId::ResearchMuscularAugments => Some(UpgradeId::EvolveMuscularAugments),
        AbilityId::ResearchZergFlyerAttackLevel1 => Some(UpgradeId::ZergFlyerWeaponsLevel1),
        AbilityId::ResearchZergFlyerAttackLevel2 => Some(UpgradeId::ZergFlyerWeaponsLevel2),
        AbilityId::ResearchZergFlyerAttackLevel3 => Some(UpgradeId::ZergFlyerWeaponsLevel3),
        AbilityId::ResearchZergFlyerArmorLevel1 => Some(UpgradeId::ZergFlyerArmorsLevel1),
        AbilityId::ResearchZergFlyerArmorLevel2 => Some(UpgradeId::ZergFlyerArmorsLevel2),
        AbilityId::ResearchZergFlyerArmorLevel3 => Some(UpgradeId::ZergFlyerArmorsLevel3),
        AbilityId::ResearchNeuralParasite => Some(UpgradeId::NeuralParasite),
        AbilityId::ResearchCentrifugalHooks => Some(UpgradeId::CentrificalHooks),
        AbilityId::ResearchBattlecruiserWeaponRefit => Some(UpgradeId::BattlecruiserEnableSpecializations),
        AbilityId::FusionCoreResearchBallisticRange => Some(UpgradeId::LiberatorAGRangeUpgrade),
        AbilityId::FusionCoreResearchMedivacEnergyUpgrade => Some(UpgradeId::MedivacCaduceusReactor),
        AbilityId::CyberneticsCoreResearchProtossAirWeaponsLevel1 => Some(UpgradeId::ProtossAirWeaponsLevel1),
        AbilityId::CyberneticsCoreResearchProtossAirWeaponsLevel2 => Some(UpgradeId::ProtossAirWeaponsLevel2),
        AbilityId::CyberneticsCoreResearchProtossAirWeaponsLevel3 => Some(UpgradeId::ProtossAirWeaponsLevel3),
        AbilityId::CyberneticsCoreResearchProtossAirArmorLevel1 => Some(UpgradeId::ProtossAirArmorsLevel1),
        AbilityId::CyberneticsCoreResearchProtossAirArmorLevel2 => Some(UpgradeId::ProtossAirArmorsLevel2),
        AbilityId::CyberneticsCoreResearchProtossAirArmorLevel3 => Some(UpgradeId::ProtossAirArmorsLevel3),
        AbilityId::ResearchWarpGate => Some(UpgradeId::WarpGateResearch),
        AbilityId::ResearchCharge => Some(UpgradeId::Charge),
        AbilityId::ResearchBlink => Some(UpgradeId::BlinkTech),
        AbilityId::ResearchAdeptResonatingGlaives => Some(UpgradeId::AdeptPiercingAttack),
        AbilityId::ResearchShadowStrike => Some(UpgradeId::DarkTemplarBlinkUpgrade),
        AbilityId::ResearchAdaptiveTalons => Some(UpgradeId::DiggingClaws),
        AbilityId::LurkerDenResearchLurkerRange => Some(UpgradeId::LurkerRange),
        _ => None,
    }
}

/// The i-th research ability of the table, in table order.
pub open spec fn spec_research_ability(i: int) -> AbilityId {
    if i == 0 {
        AbilityId::ResearchPhoenixAnionPulseCrystals
    } else if i == 1 {
        AbilityId::FleetBeaconResearchVoidRaySpeedUpgrade
    } else if i == 2 {
        AbilityId::FleetBeaconResearchTempestResearchGroundAttackUpgrade
    } else if i == 3 {
        AbilityId::ResearchGlialRegeneration
    } else if i == 4 {
        AbilityId::ResearchTunnelingClaws
    } else if i == 5 {
        AbilityId::ResearchAnabolicSynthesis
    } else if i == 6 {
        AbilityId::ResearchChitinousPlating
    } else if i == 7 {
        AbilityId::ResearchHiSecAutoTracking
    } else if i == 8 {
        AbilityId::ResearchTerranStructureArmorUpgrade
    } else if i == 9 {
        AbilityId::EngineeringBayResearchTerranInfantryWeaponsLevel1
    } else if i == 10 {
        AbilityId::EngineeringBayResearchTerranInfantryWeaponsLevel2
    } else if i == 11 {
        AbilityId::EngineeringBayResearchTerranInfantryWeaponsLevel3
    } else if i == 12 {
        AbilityId::EngineeringBayResearchTerranInfantryArmorLevel1
    } else if i == 13 {
        AbilityId::EngineeringBayResearchTerranInfantryArmorLevel2
    } else if i == 14 {
        AbilityId::EngineeringBayResearchTerranInfantryArmorLevel3
    } else if i == 15 {
        AbilityId::BarracksTechLabResearchStimpack
    } else if i == 16 {
        AbilityId::ResearchCombatShield
    } else if i == 17 {
        AbilityId::ResearchConcussiveShells
    } else if i == 18 {
        AbilityId::ResearchInfernalPreigniter
    } else if i == 19 {
        AbilityId::ResearchDrillingClaws
    } else if i == 20 {
        AbilityId::ResearchSmartServos
    } else if i == 21 {
        AbilityId::ResearchCycloneLockOnDamage
    } else if i == 22 {
        AbilityId::ResearchBansheeCloakingField
    } else if i == 23 {
        AbilityId::ResearchBansheeHyperflightRotors
    } else if i == 24 {
        AbilityId::StarportTechLabResearchRavenInterferenceMatrix
    } else if i == 25 {
        AbilityId::ResearchPersonalCloaking
    } else if i == 26 {
        AbilityId::ArmoryResearchTerranVehicleWeaponsLevel1
    } else if i == 27 {
        AbilityId::ArmoryResearchTerranVehicleWeaponsLevel2
    } else if i == 28 {
        AbilityId::ArmoryResearchTerranVehicleWeaponsLevel3
    } else if i == 29 {
        AbilityId::ArmoryResearchTerranShipWeaponsLevel1
    } else if i == 30 {
        AbilityId::ArmoryResearchTerranShipWeaponsLevel2
    } else if i == 31 {
        AbilityId::ArmoryResearchTerranShipWeaponsLevel3
    } else if i == 32 {
        AbilityId::ArmoryResearchTerranVehicleAndShipPlatingLevel1
    } else if i == 33 {
        AbilityId::ArmoryResearchTerranVehicleAndShipPlatingLevel2
    } else if i == 34 {
        AbilityId::ArmoryResearchTerranVehicleAndShipPlatingLevel3
    } else if i == 35 {
        AbilityId::ForgeResearchProtossGroundWeaponsLevel1
    } else if i == 36 {
        AbilityId::ForgeResearchProtossGroundWeaponsLevel2
    } else if i == 37 {
        AbilityId::ForgeResearchProtossGroundWeaponsLevel3
    } else if i == 38 {
        AbilityId::ForgeResearchProtossGroundArmorLevel1
    } else if i == 39 {
        AbilityId::ForgeResearchProtossGroundArmorLevel2
    } else if i == 40 {
        AbilityId::ForgeResearchProtossGroundArmorLevel3
    } else if i == 41 {
        AbilityId::ForgeResearchProtossShieldsLevel1
    } else if i == 42 {
        AbilityId::ForgeResearchProtossShieldsLevel2
    } else if i == 43 {
        AbilityId::ForgeResearchProtossShieldsLevel3
    } else if i == 44 {
        AbilityId::ResearchGraviticBooster
    } else if i == 45 {
        AbilityId::ResearchGraviticDrive
    } else if i == 46 {
        AbilityId::ResearchExtendedThermalLance
    } else if i == 47 {
        AbilityId::ResearchPsiStorm
    } else if i == 48 {
        AbilityId::ResearchZergMeleeWeaponsLevel1
    } else if i == 49 {
        AbilityId::ResearchZergMeleeWeaponsLevel2
    } else if i == 50 {
        AbilityId::ResearchZergMeleeWeaponsLevel3
    } else if i == 51 {
        AbilityId::ResearchZergGroundArmorLevel1
    } else if i == 52 {
        AbilityId::ResearchZergGroundArmorLevel2
    } else if i == 53 {
        AbilityId::ResearchZergGroundArmorLevel3
    } else if i == 54 {
        AbilityId::ResearchZergMissileWeaponsLevel1
    } else if i == 55 {
        AbilityId::ResearchZergMissileWeaponsLevel2
    } else if i == 56 {
        AbilityId::ResearchZergMissileWeaponsLevel3
    } else if i == 57 {
        AbilityId::ResearchPneumatizedCarapace
    } else if i == 58 {
        AbilityId::ResearchBurrow
    } else if i == 59 {
        AbilityId::ResearchZerglingAdrenalGlands
    } else if i == 60 {
        AbilityId::ResearchZerglingMetabolicBoost
    } else if i == 61 {
        AbilityId::ResearchGroovedSpines
    } else if i == 62 {
        AbilityId::ResearchMuscularAugments
    } else if i == 63 {
        AbilityId::ResearchZergFlyerAttackLevel1
    } else if i == 64 {
        AbilityId::ResearchZergFlyerAttackLevel2
    } else if i == 65 {
        AbilityId::ResearchZergFlyerAttackLevel3
    } else if i == 66 {
        AbilityId::ResearchZergFlyerArmorLevel1
    } else if i == 67 {
        AbilityId::ResearchZergFlyerArmorLevel2
    } else if i == 68 {
        AbilityId::ResearchZergFlyerArmorLevel3
    } else if i == 69 {
        AbilityId::ResearchNeuralParasite
    } else if i == 70 {
        AbilityId::ResearchCentrifugalHooks
    } else if i == 71 {
        AbilityId::ResearchBattlecruiserWeaponRefit
    } else if i == 72 {
        AbilityId::FusionCoreResearchBallisticRange
    } else if i == 73 {
        AbilityId::FusionCoreResearchMedivacEnergyUpgrade
    } else if i == 74 {
        AbilityId::CyberneticsCoreResearchProtossAirWeaponsLevel1
    } else if i == 75 {
        AbilityId::CyberneticsCoreResearchProtossAirWeaponsLevel2
    } else if i == 76 {
        AbilityId::CyberneticsCoreResearchProtossAirWeaponsLevel3
    } else if i == 77 {
        AbilityId::CyberneticsCoreResearchProtossAirArmorLevel1
    } else if i == 78 {
        AbilityId::CyberneticsCoreResearchProtossAirArmorLevel2
    } else if i == 79 {
        AbilityId::CyberneticsCoreResearchProtossAirArmorLevel3
    } else if i == 80 {
        AbilityId::ResearchWarpGate
    } else if i == 81 {
        AbilityId::ResearchCharge
    } else if i == 82 {
        AbilityId::ResearchBlink
    } else if i == 83 {
        AbilityId::ResearchAdeptResonatingGlaives
    } else if i == 84 {
        AbilityId::ResearchShadowStrike
    } else if i == 85 {
        AbilityId::ResearchAdaptiveTalons
    } else if i == 86 {
        AbilityId::LurkerDenResearchLurkerRange
    } else {
        AbilityId::Move
    }
}

/// The position an ability holds in the research table (an arbitrary
/// value off the table); a left inverse of [`spec_research_ability`], so
/// the table lists no ability twice.
pub open spec fn spec_ability_slot(a: AbilityId) -> int {
    match a {
        AbilityId::ResearchPhoenixAnionPulseCrystals => 0,
        AbilityId::FleetBeaconResearchVoidRaySpeedUpgrade => 1,
        AbilityId::FleetBeaconResearchTempestResearchGroundAttackUpgrade => 2,
        AbilityId::ResearchGlialRegeneration => 3,
        AbilityId::ResearchTunnelingClaws => 4,
        AbilityId::ResearchAnabolicSynthesis => 5,
        AbilityId::ResearchChitinousPlating => 6,
        AbilityId::ResearchHiSecAutoTracking => 7,
        AbilityId::ResearchTerranStructureArmorUpgrade => 8,
        AbilityId::EngineeringBayResearchTerranInfantryWeaponsLevel1 => 9,
        AbilityId::EngineeringBayResearchTerranInfantryWeaponsLevel2 => 10,
        AbilityId::EngineeringBayResearchTerranInfantryWeaponsLevel3 => 11,
        AbilityId::EngineeringBayResearchTerranInfantryArmorLevel1 => 12,
        AbilityId::EngineeringBayResearchTerranInfantryArmorLevel2 => 13,
        AbilityId::EngineeringBayResearchTerranInfantryArmorLevel3 => 14,
        AbilityId::BarracksTechLabResearchStimpack => 15,
        AbilityId::ResearchCombatShield => 16,
        AbilityId::ResearchConcussiveShells => 17,
        AbilityId::ResearchInfernalPreigniter => 18,
        AbilityId::ResearchDrillingClaws => 19,
        AbilityId::ResearchSmartServos => 20,
        AbilityId::ResearchCycloneLockOnDamage => 21,
        AbilityId::ResearchBansheeCloakingField => 22,
        AbilityId::ResearchBansheeHyperflightRotors => 23,
        AbilityId::StarportTechLabResearchRavenInterferenceMatrix => 24,
        AbilityId::ResearchPersonalCloaking => 25,
        AbilityId::ArmoryResearchTerranVehicleWeaponsLevel1 => 26,
        AbilityId::ArmoryResearchTerranVehicleWeaponsLevel2 => 27,
        AbilityId::ArmoryResearchTerranVehicleWeaponsLevel3 => 28,
        AbilityId::ArmoryResearchTerranShipWeaponsLevel1 => 29,
        AbilityId::ArmoryResearchTerranShipWeaponsLevel2 => 30,
        AbilityId::ArmoryResearchTerranShipWeaponsLevel3 => 31,
        AbilityId::ArmoryResearchTerranVehicleAndShipPlatingLevel1 => 32,
        AbilityId::ArmoryResearchTerranVehicleAndShipPlatingLevel2 => 33,
        AbilityId::ArmoryResearchTerranVehicleAndShipPlatingLevel3 => 34,
        AbilityId::ForgeResearchProtossGroundWeaponsLevel1 => 35,
        AbilityId::ForgeResearchProtossGroundWeaponsLevel2 => 36,
        AbilityId::ForgeResearchProtossGroundWeaponsLevel3 => 37,
        AbilityId::ForgeResearchProtossGroundArmorLevel1 => 38,
        AbilityId::ForgeResearchProtossGroundArmorLevel2 => 39,
        AbilityId::ForgeResearchProtossGroundArmorLevel3 => 40,
        AbilityId::ForgeResearchProtossShieldsLevel1 => 41,
        AbilityId::ForgeResearchProtossShieldsLevel2 => 42,
        AbilityId::ForgeResearchProtossShieldsLevel3 => 43,
        AbilityId::ResearchGraviticBooster => 44,
        AbilityId::ResearchGraviticDrive => 45,
        AbilityId::ResearchExtendedThermalLance => 46,
        AbilityId::ResearchPsiStorm => 47,
        AbilityId::ResearchZergMeleeWeaponsLevel1 => 48,
        AbilityId::ResearchZergMeleeWeaponsLevel2 => 49,
        AbilityId::ResearchZergMeleeWeaponsLevel3 => 50,
        AbilityId::ResearchZergGroundArmorLevel1 => 51,
        AbilityId::ResearchZergGroundArmorLevel2 => 52,
        AbilityId::ResearchZergGroundArmorLevel3 => 53,
        AbilityId::ResearchZergMissileWeaponsLevel1 => 54,
        AbilityId::ResearchZergMissileWeaponsLevel2 => 55,
        AbilityId::ResearchZergMissileWeaponsLevel3 => 56,
        AbilityId::ResearchPneumatizedCarapace => 57,
        AbilityId::ResearchBurrow => 58,
        AbilityId::ResearchZerglingAdrenalGlands => 59,
        AbilityId::ResearchZerglingMetabolicBoost => 60,
        AbilityId::ResearchGroovedSpines => 61,
        AbilityId::ResearchMuscularAugments => 62,
        AbilityId::ResearchZergFlyerAttackLevel1 => 63,
        AbilityId::ResearchZergFlyerAttackLevel2 => 64,
        AbilityId::ResearchZergFlyerAttackLevel3 => 65,
        AbilityId::ResearchZergFlyerArmorLevel1 => 66,
        AbilityId::ResearchZergFlyerArmorLevel2 => 67,
        AbilityId::ResearchZergFlyerArmorLevel3 => 68,
        AbilityId::ResearchNeuralParasite => 69,
        AbilityId::ResearchCentrifugalHooks => 70,
        AbilityId::ResearchBattlecruiserWeaponRefit => 71,
        AbilityId::FusionCoreResearchBallisticRange => 72,
        AbilityId::FusionCoreResearchMedivacEnergyUpgrade => 73,
        AbilityId::CyberneticsCoreResearchProtossAirWeaponsLevel1 => 74,
        AbilityId::CyberneticsCoreResearchProtossAirWeaponsLevel2 => 75,
        AbilityId::CyberneticsCoreResearchProtossAirWeaponsLevel3 => 76,
        AbilityId::CyberneticsCoreResearchProtossAirArmorLevel1 => 77,
        AbilityId::CyberneticsCoreResearchProtossAirArmorLevel2 => 78,
        AbilityId::CyberneticsCoreResearchProtossAirArmorLevel3 => 79,
        AbilityId::ResearchWarpGate => 80,
        AbilityId::ResearchCharge => 81,
        AbilityId::ResearchBlink => 82,
        AbilityId::ResearchAdeptResonatingGlaives => 83,
        AbilityId::ResearchShadowStrike => 84,
        AbilityId::ResearchAdaptiveTalons => 85,
        AbilityId::LurkerDenResearchLurkerRange => 86,
        _ => 100,
    }
}

/// Table order and table position invert each other on the table.
pub proof fn lemma_research_slot(i: int)
    requires
        0 <= i < 87,
    ensures
        spec_ability_slot(spec_research_ability(i)) == i,
        spec_upgrade_for_ability(spec_research_ability(i)) is Some,
{
}

/// The i-th research ability of the table.
fn research_ability_at(i: usize) -> (a: AbilityId)
    requires
        i < 87,
    ensures
        a == spec_research_ability(i as int),
{
    match i {
        0 => AbilityId::ResearchPhoenixAnionPulseCrystals,
        1 => AbilityId::FleetBeaconResearchVoidRaySpeedUpgrade,
        2 => AbilityId::FleetBeaconResearchTempestResearchGroundAttackUpgrade,
        3 => AbilityId::ResearchGlialRegeneration,
        4 => AbilityId::ResearchTunnelingClaws,
        5 => AbilityId::ResearchAnabolicSynthesis,
        6 => AbilityId::ResearchChitinousPlating,
        7 => AbilityId::ResearchHiSecAutoTracking,
        8 => AbilityId::ResearchTerranStructureArmorUpgrade,
        9 => AbilityId::EngineeringBayResearchTerranInfantryWeaponsLevel1,
        10 => AbilityId::EngineeringBayResearchTerranInfantryWeaponsLevel2,
        11 => AbilityId::EngineeringBayResearchTerranInfantryWeaponsLevel3,
        12 => AbilityId::EngineeringBayResearchTerranInfantryArmorLevel1,
        13 => AbilityId::EngineeringBayResearchTerranInfantryArmorLevel2,
        14 => AbilityId::EngineeringBayResearchTerranInfantryArmorLevel3,
        15 => AbilityId::BarracksTechLabResearchStimpack,
        16 => AbilityId::ResearchCombatShield,
        17 => AbilityId::ResearchConcussiveShells,
        18 => AbilityId::ResearchInfernalPreigniter,
        19 => AbilityId::ResearchDrillingClaws,
        20 => AbilityId::ResearchSmartServos,
        21 => AbilityId::ResearchCycloneLockOnDamage,
        22 => AbilityId::ResearchBansheeCloakingField,
        23 => AbilityId::ResearchBansheeHyperflightRotors,
        24 => AbilityId::StarportTechLabResearchRavenInterferenceMatrix,
        25 => AbilityId::ResearchPersonalCloaking,
        26 => AbilityId::ArmoryResearchTerranVehicleWeaponsLevel1,
        27 => AbilityId::ArmoryResearchTerranVehicleWeaponsLevel2,
        28 => AbilityId::ArmoryResearchTerranVehicleWeaponsLevel3,
        29 => AbilityId::ArmoryResearchTerranShipWeaponsLevel1,
        30 => AbilityId::ArmoryResearchTerranShipWeaponsLevel2,
        31 => AbilityId::ArmoryResearchTerranShipWeaponsLevel3,
        32 => AbilityId::ArmoryResearchTerranVehicleAndShipPlatingLevel1,
        33 => AbilityId::ArmoryResearchTerranVehicleAndShipPlatingLevel2,
        34 => AbilityId::ArmoryResearchTerranVehicleAndShipPlatingLevel3,
        35 => AbilityId::ForgeResearchProtossGroundWeaponsLevel1,
        36 => AbilityId::ForgeResearchProtossGroundWeaponsLevel2,
        37 => AbilityId::ForgeResearchProtossGroundWeaponsLevel3,
        38 => AbilityId::ForgeResearchProtossGroundArmorLevel1,
        39 => AbilityId::ForgeResearchProtossGroundArmorLevel2,
        40 => AbilityId::ForgeResearchProtossGroundArmorLevel3,
        41 => AbilityId::ForgeResearchProtossShieldsLevel1,
        42 => AbilityId::ForgeResearchProtossShieldsLevel2,
        43 => AbilityId::ForgeResearchProtossShieldsLevel3,
        44 => AbilityId::ResearchGraviticBooster,
        45 => AbilityId::ResearchGraviticDrive,
        46 => AbilityId::ResearchExtendedThermalLance,
        47 => AbilityId::ResearchPsiStorm,
        48 => AbilityId::ResearchZergMeleeWeaponsLevel1,
        49 => AbilityId::ResearchZergMeleeWeaponsLevel2,
        50 => AbilityId::ResearchZergMeleeWeaponsLevel3,
        51 => AbilityId::ResearchZergGroundArmorLevel1,
        52 => AbilityId::ResearchZergGroundArmorLevel2,
        53 => AbilityId::ResearchZergGroundArmorLevel3,
        54 => AbilityId::ResearchZergMissileWeaponsLevel1,
        55 => AbilityId::ResearchZergMissileWeaponsLevel2,
        56 => AbilityId::ResearchZergMissileWeaponsLevel3,
        57 => AbilityId::ResearchPneumatizedCarapace,
        58 => AbilityId::ResearchBurrow,
        59 => AbilityId::ResearchZerglingAdrenalGlands,
        60 => AbilityId::ResearchZerglingMetabolicBoost,
        61 => AbilityId::ResearchGroovedSpines,
        62 => AbilityId::ResearchMuscularAugments,
        63 => AbilityId::ResearchZergFlyerAttackLevel1,
        64 => AbilityId::ResearchZergFlyerAttackLevel2,
        65 => AbilityId::ResearchZergFlyerAttackLevel3,
        66 => AbilityId::ResearchZergFlyerArmorLevel1,
        67 => AbilityId::ResearchZergFlyerArmorLevel2,
        68 => AbilityId::ResearchZergFlyerArmorLevel3,
        69 => AbilityId::ResearchNeuralParasite,
        70 => AbilityId::ResearchCentrifugalHooks,
        71 => AbilityId::ResearchBattlecruiserWeaponRefit,
        72 => AbilityId::FusionCoreResearchBallisticRange,
        73 => AbilityId::FusionCoreResearchMedivacEnergyUpgrade,
        74 => AbilityId::CyberneticsCoreResearchProtossAirWeaponsLevel1,
        75 => AbilityId::CyberneticsCoreResearchProtossAirWeaponsLevel2,
        76 => AbilityId::CyberneticsCoreResearchProtossAirWeaponsLevel3,
        77 => AbilityId::CyberneticsCoreResearchProtossAirArmorLevel1,
        78 => AbilityId::CyberneticsCoreResearchProtossAirArmorLevel2,
        79 => AbilityId::CyberneticsCoreResearchProtossAirArmorLevel3,
        80 => AbilityId::ResearchWarpGate,
        81 => AbilityId::ResearchCharge,
        82 => AbilityId::ResearchBlink,
        83 => AbilityId::ResearchAdeptResonatingGlaives,
        84 => AbilityId::ResearchShadowStrike,
        85 => AbilityId::ResearchAdaptiveTalons,
        86 => AbilityId::LurkerDenResearchLurkerRange,
        _ => AbilityId::Move,
    }
}

/// All abilities the table maps to an upgrade, in table order; each maps
/// to `Some` upgrade and no ability is listed twice.
pub fn all_research_abilities() -> (r: Vec<AbilityId>)
    ensures
        r@.len() == 87,
        forall|i: int|
            0 <= i < r@.len() ==> spec_upgrade_for_ability(#[trigger] r@[i]) is Some,
        forall|i: int, j: int| 0 <= i < j < r@.len() ==> r@[i] != r@[j],
{
    let mut r: Vec<AbilityId> = Vec::new();
    let mut i: usize = 0;
    while i < 87
        invariant
            0 <= i <= 87,
            r@.len() == i,
            forall|k: int| 0 <= k < i ==> #[trigger] r@[k] == spec_research_ability(k),
        decreases 87 - i,
    {
        r.push(research_ability_at(i));
        i += 1;
    }
    proof {
        assert forall|i: int|
            0 <= i < r@.len() implies spec_upgrade_for_ability(#[trigger] r@[i]) is Some by {
            lemma_research_slot(i);
        }
        assert forall|i: int, j: int| 0 <= i < j < r@.len() implies r@[i] != r@[j] by {
            lemma_research_slot(i);
            lemma_research_slot(j);
        }
    }
    r
}

} // verus!
