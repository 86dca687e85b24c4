//! Spatial reasoning for a tile-based battlefield map, together with the
//! small amount of player-facing scaffolding a bot needs to join a game.
//!
//! The heart of the crate is the map engine: a terrain grid ([`GameMap`]),
//! connected-component zone labeling, narrow-passage (choke) detection,
//! A* pathfinding with clearance and influence costs, a multi-observer
//! visibility field, and a tactical-position evaluator built on top of the
//! other pieces. All world distances are integers scaled by
//! [`grid::DIST_SCALE`] so that the engine is exact and deterministic.

use vstd::prelude::*;

pub mod chokes;
pub mod dicts;
pub mod grid;
pub mod ids;
pub mod path;
pub mod player;
pub mod reach;
pub mod tactical;
pub mod vision;
pub mod zones;

pub use chokes::Choke;
pub use grid::GameMap;
pub use path::PathFind;
pub use vision::VisionUnit;

verus! {

use crate::player::{Alliance, GameResult, Race};

/// Error type for the player-facing scaffolding; carries a message.
#[derive(Debug)]
pub struct Sc2Error {
    pub message: String,
}

/// Result type returned by the player lifecycle callbacks.
pub type SC2Result<T> = Result<T, Sc2Error>;

/// Settings that must be provided by a player when joining a game.
///
/// If `name` is `None`, the game shows a placeholder name.
/// If `raw_affects_selection` is `true`, the bot selects units to which it
/// gives orders. If `raw_crop_to_playable_area` is `true`, grids are cropped
/// to the playable area.
pub struct PlayerSettings<'a> {
    pub race: Race,
    pub name: Option<&'a str>,
    pub raw_affects_selection: bool,
    pub raw_crop_to_playable_area: bool,
}

impl<'a> PlayerSettings<'a> {
    /// Constructs new settings with the given `Race`; every other field
    /// starts at its default.
    pub fn new(race: Race) -> (s: Self)
        ensures
            s.race == race,
            s.name is None,
            !s.raw_affects_selection,
            !s.raw_crop_to_playable_area,
    {
        Self {
            race,
            name: None,
            raw_affects_selection: false,
            raw_crop_to_playable_area: false,
        }
    }

    /// Sets the name of the player.
    pub fn with_name(self, name: &'a str) -> (s: Self)
        ensures
            s.name == Some(name),
            s.race == self.race,
            s.raw_affects_selection == self.raw_affects_selection,
            s.raw_crop_to_playable_area == self.raw_crop_to_playable_area,
    {
        Self { name: Some(name), ..self }
    }

    /// Sets `raw_affects_selection` to the given value.
    pub fn raw_affects_selection(self, val: bool) -> (s: Self)
        ensures
            s.raw_affects_selection == val,
            s.race == self.race,
            s.name == self.name,
            s.raw_crop_to_playable_area == self.raw_crop_to_playable_area,
    {
        Self { raw_affects_selection: val, ..self }
    }

    /// Sets `raw_crop_to_playable_area` to the given value.
    pub fn raw_crop_to_playable_area(self, val: bool) -> (s: Self)
        ensures
            s.raw_crop_to_playable_area == val,
            s.race == self.race,
            s.name == self.name,
            s.raw_affects_selection == self.raw_affects_selection,
    {
        Self { raw_crop_to_playable_area: val, ..self }
    }
}

impl Default for PlayerSettings<'_> {
    /// Default settings: random race, no name, both raw flags off.
    fn default() -> (s: Self)
        ensures
            s.race is Random,
            s.name is None,
            !s.raw_affects_selection,
            !s.raw_crop_to_playable_area,
    {
        Self {
            race: Race::Random,
            name: None,
            raw_affects_selection: false,
            raw_crop_to_playable_area: false,
        }
    }
}

/// Events that happen in game, passed to [`Player::on_event`].
#[derive(Debug, Clone, Copy)]
pub enum Event {
    /// Unit died or structure destroyed (any alliance).
    UnitDestroyed(u64, Option<Alliance>),
    /// Unit finished training (own units only).
    UnitCreated(u64),
    /// Worker started to build a structure (own only).
    ConstructionStarted(u64),
    /// Construction of a structure finished (own only).
    ConstructionComplete(u64),
    /// Detected the actual race of a random opponent.
    RandomRaceDetected(Race),
}

/// Trait that bots implement; the surrounding framework drives the
/// callbacks once per game step.
pub trait Player {
    /// Returns the settings used to connect the bot to the game.
    fn get_player_settings(&self) -> PlayerSettings<'_>;

    /// Called once on the first step (i.e. on game start).
    fn on_start(&mut self) -> SC2Result<()> {
        Ok(())
    }

    /// Called on every game step; the main logic of the bot lives here.
    fn on_step(&mut self, _iteration: usize) -> SC2Result<()> {
        Ok(())
    }

    /// Called once on the last step with the result for the bot.
    fn on_end(&self, _result: GameResult) -> SC2Result<()> {
        Ok(())
    }

    /// Called when game events happen.
    fn on_event(&mut self, _event: Event) -> SC2Result<()> {
        Ok(())
    }
}

} // verus!
