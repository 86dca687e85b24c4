//! Identifiers for abilities, upgrades and unit types.
//!
//! Only the identifiers the crate's own tables and callers speak of are
//! listed; the full game catalogue lives in the surrounding framework.

use vstd::prelude::*;

verus! {

/// Ability identifiers (research abilities plus the common orders).
#[derive(Debug, Clone, Copy, PartialEq, Eq, Structural, Hash)]
pub enum AbilityId {
    ResearchPhoenixAnionPulseCrystals,
    FleetBeaconResearchVoidRaySpeedUpgrade,
    FleetBeaconResearchTempestResearchGroundAttackUpgrade,
    ResearchGlialRegeneration,
    ResearchTunnelingClaws,
    ResearchAnabolicSynthesis,
    ResearchChitinousPlating,
    ResearchHiSecAutoTracking,
    ResearchTerranStructureArmorUpgrade,
    EngineeringBayResearchTerranInfantryWeaponsLevel1,
    EngineeringBayResearchTerranInfantryWeaponsLevel2,
    EngineeringBayResearchTerranInfantryWeaponsLevel3,
    EngineeringBayResearchTerranInfantryArmorLevel1,
    EngineeringBayResearchTerranInfantryArmorLevel2,
    EngineeringBayResearchTerranInfantryArmorLevel3,
    BarracksTechLabResearchStimpack,
    ResearchCombatShield,
    ResearchConcussiveShells,
    ResearchInfernalPreigniter,
    ResearchDrillingClaws,
    ResearchSmartServos,
    ResearchCycloneLockOnDamage,
    ResearchBansheeCloakingField,
    ResearchBansheeHyperflightRotors,
    StarportTechLabResearchRavenInterferenceMatrix,
    ResearchPersonalCloaking,
    ArmoryResearchTerranVehicleWeaponsLevel1,
    ArmoryResearchTerranVehicleWeaponsLevel2,
    ArmoryResearchTerranVehicleWeaponsLevel3,
    ArmoryResearchTerranShipWeaponsLevel1,
    ArmoryResearchTerranShipWeaponsLevel2,
    ArmoryResearchTerranShipWeaponsLevel3,
    ArmoryResearchTerranVehicleAndShipPlatingLevel1,
    ArmoryResearchTerranVehicleAndShipPlatingLevel2,
    ArmoryResearchTerranVehicleAndShipPlatingLevel3,
    ForgeResearchProtossGroundWeaponsLevel1,
    ForgeResearchProtossGroundWeaponsLevel2,
    ForgeResearchProtossGroundWeaponsLevel3,
    ForgeResearchProtossGroundArmorLevel1,
    ForgeResearchProtossGroundArmorLevel2,
    ForgeResearchProtossGroundArmorLevel3,
    ForgeResearchProtossShieldsLevel1,
    ForgeResearchProtossShieldsLevel2,
    ForgeResearchProtossShieldsLevel3,
    ResearchGraviticBooster,
    ResearchGraviticDrive,
    ResearchExtendedThermalLance,
    ResearchPsiStorm,
    ResearchZergMeleeWeaponsLevel1,
    ResearchZergMeleeWeaponsLevel2,
    ResearchZergMeleeWeaponsLevel3,
    ResearchZergGroundArmorLevel1,
    ResearchZergGroundArmorLevel2,
    ResearchZergGroundArmorLevel3,
    ResearchZergMissileWeaponsLevel1,
    ResearchZergMissileWeaponsLevel2,
    ResearchZergMissileWeaponsLevel3,
    ResearchPneumatizedCarapace,
    ResearchBurrow,
    ResearchZerglingAdrenalGlands,
    ResearchZerglingMetabolicBoost,
    ResearchGroovedSpines,
    ResearchMuscularAugments,
    ResearchZergFlyerAttackLevel1,
    ResearchZergFlyerAttackLevel2,
    ResearchZergFlyerAttackLevel3,
    ResearchZergFlyerArmorLevel1,
    ResearchZergFlyerArmorLevel2,
    ResearchZergFlyerArmorLevel3,
    ResearchNeuralParasite,
    ResearchCentrifugalHooks,
    ResearchBattlecruiserWeaponRefit,
    FusionCoreResearchBallisticRange,
    FusionCoreResearchMedivacEnergyUpgrade,
    CyberneticsCoreResearchProtossAirWeaponsLevel1,
    CyberneticsCoreResearchProtossAirWeaponsLevel2,
    CyberneticsCoreResearchProtossAirWeaponsLevel3,
    CyberneticsCoreResearchProtossAirArmorLevel1,
    CyberneticsCoreResearchProtossAirArmorLevel2,
    CyberneticsCoreResearchProtossAirArmorLevel3,
    ResearchWarpGate,
    ResearchCharge,
    ResearchBlink,
    ResearchAdeptResonatingGlaives,
    ResearchShadowStrike,
    ResearchAdaptiveTalons,
    LurkerDenResearchLurkerRange,
    Move,
    Attack,
}

/// Upgrade identifiers.
#[derive(Debug, Clone, Copy, PartialEq, Eq, Structural, Hash)]
pub enum UpgradeId {
    PhoenixRangeUpgrade,
    VoidRaySpeedUpgrade,
    EnhancedShockwaves,
    GlialReconstitution,
    TunnelingClaws,
    AnabolicSynthesis,
    ChitinousPlating,
    HiSecAutoTracking,
    TerranBuildingArmor,
    TerranInfantryWeaponsLevel1,
    TerranInfantryWeaponsLevel2,
    TerranInfantryWeaponsLevel3,
    TerranInfantryArmorsLevel1,
    TerranInfantryArmorsLevel2,
    TerranInfantryArmorsLevel3,
    Stimpack,
    ShieldWall,
    PunisherGrenades,
    HighCapacityBarrels,
    DrillClaws,
    SmartServos,
    CycloneLockOnDamageUpgrade,
    BansheeCloak,
    BansheeSpeed,
    AmplifiedShielding,
    PersonalCloaking,
    TerranVehicleWeaponsLevel1,
    TerranVehicleWeaponsLevel2,
    TerranVehicleWeaponsLevel3,
    TerranShipWeaponsLevel1,
    TerranShipWeaponsLevel2,
    TerranShipWeaponsLevel3,
    TerranVehicleAndShipArmorsLevel1,
    TerranVehicleAndShipArmorsLevel2,
    TerranVehicleAndShipArmorsLevel3,
    ProtossGroundWeaponsLevel1,
    ProtossGroundWeaponsLevel2,
    ProtossGroundWeaponsLevel3,
    ProtossGroundArmorsLevel1,
    ProtossGroundArmorsLevel2,
    ProtossGroundArmorsLevel3,
    ProtossShieldsLevel1,
    ProtossShieldsLevel2,
    ProtossShieldsLevel3,
    ObserverGraviticBooster,
    GraviticDrive,
    ExtendedThermalLance,
    PsiStormTech,
    ZergMeleeWeaponsLevel1,
    ZergMeleeWeaponsLevel2,
    ZergMeleeWeaponsLevel3,
    ZergGroundArmorsLevel1,
    ZergGroundArmorsLevel2,
    ZergGroundArmorsLevel3,
    ZergMissileWeaponsLevel1,
    ZergMissileWeaponsLevel2,
    ZergMissileWeaponsLevel3,
    Overlordspeed,
    Burrow,
    Zerglingattackspeed,
    Zerglingmovementspeed,
    EvolveGroovedSpines,
    EvolveMuscularAugments,
    ZergFlyerWeaponsLevel1,
    ZergFlyerWeaponsLevel2,
    ZergFlyerWeaponsLevel3,
    ZergFlyerArmorsLevel1,
    ZergFlyerArmorsLevel2,
    ZergFlyerArmorsLevel3,
    NeuralParasite,
    CentrificalHooks,
    BattlecruiserEnableSpecializations,
    LiberatorAGRangeUpgrade,
    MedivacCaduceusReactor,
    ProtossAirWeaponsLevel1,
    ProtossAirWeaponsLevel2,
    ProtossAirWeaponsLevel3,
    ProtossAirArmorsLevel1,
    ProtossAirArmorsLevel2,
    ProtossAirArmorsLevel3,
    WarpGateResearch,
    Charge,
    BlinkTech,
    AdeptPiercingAttack,
    DarkTemplarBlinkUpgrade,
    DiggingClaws,
    LurkerRange,
}

/// Unit type identifiers.
#[derive(Debug, Clone, Copy, PartialEq, Eq, Structural, Hash)]
pub enum UnitTypeId {
    SCV,
    Marine,
    Marauder,
    SiegeTank,
    CommandCenter,
    SupplyDepot,
    Barracks,
    Factory,
}

} // verus!
