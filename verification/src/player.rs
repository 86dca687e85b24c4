//! Player-facing enums: races, difficulties, game results and alliances.
//!
//! These are plain descriptive values handed to and from the surrounding
//! framework; no logic lives here.

use vstd::prelude::*;

verus! {

/// Playable races.
#[derive(Debug, Clone, Copy, PartialEq, Eq, Structural, Hash)]
pub enum Race {
    Terran,
    Zerg,
    Protoss,
    Random,
}

/// Difficulty of a computer opponent.
#[derive(Debug, Clone, Copy, PartialEq, Eq, Structural, Hash)]
pub enum Difficulty {
    VeryEasy,
    Easy,
    Medium,
    MediumHard,
    Hard,
    Harder,
    VeryHard,
    CheatVision,
    CheatMoney,
    CheatInsane,
}

/// Final result of a game for one player.
#[derive(Debug, Clone, Copy, PartialEq, Eq, Structural, Hash)]
pub enum GameResult {
    Victory,
    Defeat,
    Tie,
    Undecided,
}

/// Relationship of a unit to the player.
#[derive(Debug, Clone, Copy, PartialEq, Eq, Structural, Hash)]
pub enum Alliance {
    Own,
    Ally,
    Neutral,
    Enemy,
}

} // verus!
